//! Pieces shared by the services that call an OpenAI-compatible model:
//! the endpoint of a provider, the display name of a model, and the OCR
//! request and reply.
use vstd::prelude::*;

use crate::crypto::{b64_encode, base64_bytes, base64_len, base64_text};
use crate::text::{chars_of, extend_chars, owned, str_eq, string_from, trim, trimmed};

verus! {

/// The base address of a provider: the configured one, else the local
/// Ollama server for `ollama` providers and OpenAI for the rest.
pub open spec fn provider_base(base_url: Option<Seq<char>>, kind: Seq<char>) -> Seq<char> {
    match base_url {
        Some(b) => b,
        None => if kind == "ollama"@ {
            "http://localhost:11434/v1"@
        } else {
            "https://api.openai.com/v1"@
        },
    }
}

/// The base address of a provider.
pub fn provider_base_url(base_url: Option<String>, kind: &str) -> (r: String)
    ensures
        r@ == provider_base(
            match base_url {
                Some(b) => Some(b@),
                None => None,
            },
            kind@,
        ),
{
    match base_url {
        Some(b) => b,
        None => if str_eq(kind, "ollama") {
            owned("http://localhost:11434/v1")
        } else {
            owned("https://api.openai.com/v1")
        },
    }
}

/// The name a model is shown under: its display name, else its id.
pub fn model_display_name(display_name: Option<String>, model_id: &str) -> (r: String)
    ensures
        r@ == match display_name {
            Some(d) => d@,
            None => model_id@,
        },
{
    match display_name {
        Some(d) => d,
        None => owned(model_id),
    }
}

/// `s` without trailing slashes.
pub open spec fn trim_slashes_end(s: Seq<char>) -> Seq<char>
    decreases s.len(),
{
    if s.len() > 0 && s.last() == '/' {
        trim_slashes_end(s.drop_last())
    } else {
        s
    }
}

/// The chat completions endpoint under a base address.
pub open spec fn chat_url(base: Seq<char>) -> Seq<char> {
    trim_slashes_end(base) + "/chat/completions"@
}

/// The chat completions endpoint under `base` (trailing slashes dropped).
pub fn chat_completions_url(base: &str) -> (r: String)
    ensures
        r@ == chat_url(base@),
{
    let mut v = chars_of(base);
    while v.len() > 0 && v[v.len() - 1] == '/'
        invariant
            trim_slashes_end(v@) == trim_slashes_end(base@),
        decreases v@.len(),
    {
        v.pop();
    }
    extend_chars(&mut v, &chars_of("/chat/completions"));
    string_from(&v)
}

/// The MIME type `mime_guess` gives a path by its extension
/// (`application/octet-stream` when unknown).
pub uninterp spec fn guessed_mime(path: Seq<char>) -> Seq<char>;

/// The MIME type of a file, by its extension.
///
/// Trusted: calls `mime_guess::from_path(..).first_or_octet_stream()`,
/// which looks the extension up in a fixed table; its result is only named.
#[verifier::external_body]
fn mime_of(path: &str) -> (r: String)
    ensures
        r@ == guessed_mime(path@),
{
    mime_guess::from_path(path).first_or_octet_stream().to_string()
}

/// The MIME type of a file, by its extension.
pub fn mime_type(path: &str) -> (r: String)
    ensures
        r@ == guessed_mime(path@),
{
    mime_of(path)
}

/// A `data:` URL holding a file's bytes.
pub open spec fn data_url(path: Seq<char>, bytes: Seq<u8>) -> Seq<char> {
    "data:"@ + guessed_mime(path) + ";base64,"@ + base64_text(bytes)
}

/// The `data:` URL for an image read from `path`.
pub fn image_data_url(path: &str, bytes: &[u8]) -> (r: String)
    requires
        base64_len(bytes@.len()) <= usize::MAX,
    ensures
        r@ == data_url(path@, bytes@),
{
    let mut out = chars_of("data:");
    extend_chars(&mut out, &chars_of(mime_of(path).as_str()));
    extend_chars(&mut out, &chars_of(";base64,"));
    extend_chars(&mut out, &chars_of(b64_encode(bytes).as_str()));
    string_from(&out)
}

/// The OCR request text for a language (`auto` asks the model to detect it).
pub open spec fn ocr_prompt_text(lang: Seq<char>) -> Seq<char> {
    "请识别这张图片中的全部文字（语言："@ + (if lang == "auto"@ {
        "自动检测"@
    } else {
        lang
    }) + "）。只输出识别出的文字内容，保留换行；如果是表格请用 Markdown 表格输出。"@
}

/// Builds the OCR request text.
pub fn ocr_prompt(lang: &str) -> (r: String)
    ensures
        r@ == ocr_prompt_text(lang@),
{
    let mut out = chars_of("请识别这张图片中的全部文字（语言：");
    if str_eq(lang, "auto") {
        extend_chars(&mut out, &chars_of("自动检测"));
    } else {
        extend_chars(&mut out, &chars_of(lang));
    }
    extend_chars(&mut out, &chars_of("）。只输出识别出的文字内容，保留换行；如果是表格请用 Markdown 表格输出。"));
    string_from(&out)
}

/// The recognised text of an OCR reply (the message content, if any):
/// trimmed, and refused when empty.
pub fn ocr_reply_text(content: Option<&str>) -> (r: Result<String, &'static str>)
    ensures
        ({
            let t = match content {
                Some(c) => trim(c@),
                None => Seq::<char>::empty(),
            };
            &&& r is Ok <==> t.len() > 0
            &&& r is Ok ==> r.unwrap()@ == t
            &&& r is Err ==> r == Err::<String, &'static str>("OCR 未识别到文字")
        }),
{
    let t = match content {
        Some(c) => trimmed(&chars_of(c)),
        None => Vec::new(),
    };
    if t.len() == 0 {
        Err("OCR 未识别到文字")
    } else {
        Ok(string_from(&t))
    }
}

/// The language argument for tesseract: Chinese and English when the
/// language is `auto`.
pub fn tesseract_lang(lang: &str) -> (r: String)
    ensures
        r@ == if lang@ == "auto"@ {
            "chi_sim+eng"@
        } else {
            lang@
        },
{
    if str_eq(lang, "auto") {
        owned("chi_sim+eng")
    } else {
        owned(lang)
    }
}

/// An image handed to OCR: inline data from a `data:` URL, or a file path
/// for the caller to read.
#[derive(Debug, Clone, PartialEq, Eq)]
pub enum ImageInput {
    Data { bytes: Vec<u8>, mime: String },
    Path(String),
}

/// Why an OCR input was refused.
#[derive(Debug, Clone, PartialEq, Eq)]
pub enum ImageInputError {
    /// The `data:` URL has no `;` after its MIME type.
    MissingMime,
    /// The `data:` URL is not base64.
    NotBase64,
    /// The base64 text does not decode (the decoder's message).
    BadBase64(String),
}

impl ImageInputError {
    /// The message shown for the error.
    pub fn message(&self) -> (r: String)
        ensures
            r@ == match self {
                ImageInputError::MissingMime => "data URL 缺少 mime 分隔"@,
                ImageInputError::NotBase64 => "data URL 非 base64"@,
                ImageInputError::BadBase64(e) => "data URL base64 解码失败: "@ + e@,
            },
    {
        match self {
            ImageInputError::MissingMime => owned("data URL 缺少 mime 分隔"),
            ImageInputError::NotBase64 => owned("data URL 非 base64"),
            ImageInputError::BadBase64(e) => {
                let mut out = chars_of("data URL base64 解码失败: ");
                extend_chars(&mut out, &chars_of(e.as_str()));
                string_from(&out)
            },
        }
    }
}

/// `s` starts with `p`.
pub open spec fn starts_with(s: Seq<char>, p: Seq<char>) -> bool {
    p.len() <= s.len() && s.take(p.len() as int) == p
}

/// How an OCR input reads: a `data:` URL is split at its first `;` into
/// the MIME type and the rest, which must start with `base64,`; anything
/// else is a path.  The base64 part decodes to the bytes.
pub open spec fn image_input_spec(input: Seq<char>) -> Result<(Seq<char>, Option<Seq<u8>>), ImageInputError> {
    if starts_with(input, "data:"@) {
        let rest = input.skip(5);
        let semi = crate::text::find_from(rest, ';', 0);
        if semi < 0 {
            Err(ImageInputError::MissingMime)
        } else {
            let after = rest.skip(semi + 1);
            if !starts_with(after, "base64,"@) {
                Err(ImageInputError::NotBase64)
            } else {
                match base64_bytes(after.skip(7)) {
                    Some(b) => Ok((rest.take(semi), Some(b))),
                    None => Err(ImageInputError::BadBase64(arbitrary_text())),
                }
            }
        }
    } else {
        Ok((input, None))
    }
}

/// Some text (the decoder's message, which is not stated).
pub open spec fn arbitrary_text() -> String {
    arbitrary()
}

/// Whether `v` starts with `p`.
fn has_prefix_chars(v: &Vec<char>, p: &str) -> (r: bool)
    ensures
        r == starts_with(v@, p@),
{
    let pc = chars_of(p);
    if pc.len() > v.len() {
        return false;
    }
    let head = crate::text::slice_chars(v, 0, pc.len());
    assert(head@ =~= v@.take(pc@.len() as int));
    crate::text::chars_eq(&head, &pc)
}

/// Reads an OCR input: the bytes and MIME type of a `data:` URL, or the
/// path to read.
pub fn decode_image_input(input: &str) -> (r: Result<ImageInput, ImageInputError>)
    ensures
        match r {
            Ok(ImageInput::Data { bytes, mime }) => image_input_spec(input@) == Ok::<(Seq<char>, Option<Seq<u8>>), ImageInputError>((mime@, Some(bytes@))),
            Ok(ImageInput::Path(p)) => p@ == input@ && image_input_spec(input@) == Ok::<(Seq<char>, Option<Seq<u8>>), ImageInputError>((input@, None)),
            Err(ImageInputError::BadBase64(_)) => image_input_spec(input@) matches Err(ImageInputError::BadBase64(_)),
            Err(e) => image_input_spec(input@) == Err::<(Seq<char>, Option<Seq<u8>>), ImageInputError>(e),
        },
{
    let cs = chars_of(input);
    if !has_prefix_chars(&cs, "data:") {
        return Ok(ImageInput::Path(owned(input)));
    }
    proof {
        reveal_strlit("data:");
    }
    let rest = crate::text::slice_chars(&cs, 5, cs.len());
    assert(rest@ =~= input@.skip(5));
    proof {
        crate::text::lemma_find_from_range(rest@, ';', 0);
    }
    let semi = match crate::text::find_char(&rest, ';', 0) {
        None => {
            return Err(ImageInputError::MissingMime);
        },
        Some(i) => i,
    };
    let after = crate::text::slice_chars(&rest, semi + 1, rest.len());
    assert(after@ =~= rest@.skip(semi + 1));
    if !has_prefix_chars(&after, "base64,") {
        return Err(ImageInputError::NotBase64);
    }
    proof {
        reveal_strlit("base64,");
    }
    let b64 = crate::text::slice_chars(&after, 7, after.len());
    assert(b64@ =~= after@.skip(7));
    let b64s = string_from(&b64);
    match crate::crypto::b64_decode(b64s.as_str()) {
        Ok(bytes) => {
            let mime = crate::text::string_of(&rest, 0, semi);
            assert(rest@.subrange(0, semi as int) =~= rest@.take(semi as int));
            Ok(ImageInput::Data { bytes, mime })
        },
        Err(e) => Err(ImageInputError::BadBase64(e)),
    }
}

/// The file extension of a temporary image for OCR: `jpg` for JPEG, else
/// `png`.
pub fn temp_image_ext(mime: &str) -> (r: &'static str)
    ensures
        r@ == if mime@ == "image/jpeg"@ || mime@ == "image/jpg"@ {
            "jpg"@
        } else {
            "png"@
        },
{
    if str_eq(mime, "image/jpeg") || str_eq(mime, "image/jpg") {
        "jpg"
    } else {
        "png"
    }
}

/// Whether OCR runs locally (tesseract) for the chosen provider.
pub fn uses_local_ocr(provider: Option<&str>) -> (r: bool)
    ensures
        r == match provider {
            Some(p) => p@ == "tesseract"@ || p@ == "local"@,
            None => false,
        },
{
    match provider {
        Some(p) => str_eq(p, "tesseract") || str_eq(p, "local"),
        None => false,
    }
}

} // verus!
