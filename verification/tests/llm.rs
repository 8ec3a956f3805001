use base64::Engine;
use prism_agent::llm::{
    decode_image_input, temp_image_ext, uses_local_ocr, ImageInput, ImageInputError,
    chat_completions_url, image_data_url, mime_type, model_display_name, ocr_prompt,
    ocr_reply_text, provider_base_url, tesseract_lang,
};

#[test]
fn provider_base_defaults() {
    assert_eq!(provider_base_url(Some("https://x/v1".into()), "ollama"), "https://x/v1");
    assert_eq!(provider_base_url(None, "ollama"), "http://localhost:11434/v1");
    assert_eq!(provider_base_url(None, "openai"), "https://api.openai.com/v1");
}

#[test]
fn display_name_falls_back_to_id() {
    assert_eq!(model_display_name(Some("GPT".into()), "gpt-4o"), "GPT");
    assert_eq!(model_display_name(None, "gpt-4o"), "gpt-4o");
}

#[test]
fn completions_url_drops_trailing_slashes() {
    assert_eq!(chat_completions_url("https://api.x/v1//"), "https://api.x/v1/chat/completions");
    assert_eq!(chat_completions_url("https://api.x/v1"), "https://api.x/v1/chat/completions");
}

#[test]
fn data_url_has_mime_and_base64() {
    assert_eq!(image_data_url("shot.png", &[1, 2, 3]), "data:image/png;base64,AQID");
    assert_eq!(mime_type("a.unknownext"), "application/octet-stream");
    assert_eq!(mime_type("page.JPG"), "image/jpeg");
}

#[test]
fn ocr_prompt_and_reply() {
    assert_eq!(
        ocr_prompt("auto"),
        "请识别这张图片中的全部文字（语言：自动检测）。只输出识别出的文字内容，保留换行；如果是表格请用 Markdown 表格输出。"
    );
    assert!(ocr_prompt("en").contains("（语言：en）"));
    assert_eq!(ocr_reply_text(Some("  文字\n ")), Ok("文字".to_string()));
    assert_eq!(ocr_reply_text(Some("   ")), Err("OCR 未识别到文字"));
    assert_eq!(ocr_reply_text(None), Err("OCR 未识别到文字"));
    assert_eq!(tesseract_lang("auto"), "chi_sim+eng");
    assert_eq!(tesseract_lang("eng"), "eng");
}

#[test]
fn decode_data_url_png() {
    let png = [0x89u8, 0x50, 0x4E, 0x47, 0x0D, 0x0A, 0x1A, 0x0A];
    let b64 = base64::engine::general_purpose::STANDARD.encode(png);
    let url = format!("data:image/png;base64,{b64}");
    match decode_image_input(&url).unwrap() {
        ImageInput::Data { bytes, mime } => {
            assert_eq!(bytes, png);
            assert_eq!(mime, "image/png");
        }
        other => panic!("expected inline data, got {:?}", other),
    }
}

#[test]
fn image_input_paths_and_errors() {
    assert_eq!(decode_image_input("/tmp/x.png"), Ok(ImageInput::Path("/tmp/x.png".into())));
    assert_eq!(decode_image_input("data:image/png,abc"), Err(ImageInputError::MissingMime));
    assert_eq!(decode_image_input("data:image/png;hex,00"), Err(ImageInputError::NotBase64));
    assert!(matches!(decode_image_input("data:image/png;base64,!!!"), Err(ImageInputError::BadBase64(_))));
    assert_eq!(ImageInputError::NotBase64.message(), "data URL 非 base64");
    assert_eq!(temp_image_ext("image/jpeg"), "jpg");
    assert_eq!(temp_image_ext("image/webp"), "png");
    assert!(uses_local_ocr(Some("tesseract")) && uses_local_ocr(Some("local")));
    assert!(!uses_local_ocr(Some("llm")) && !uses_local_ocr(None));
}
