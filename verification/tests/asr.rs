use prism_agent::asr::{default_langs, diff_text, pcm_to_wav, AsrKind, AsrModelCategory};

const ALL: [AsrKind; 8] = [
    AsrKind::DashScopeFunasr,
    AsrKind::MiMoHttp,
    AsrKind::SherpaOnnx,
    AsrKind::LocalFunasrWs,
    AsrKind::WhisperApi,
    AsrKind::Vosk,
    AsrKind::AzureSpeech,
    AsrKind::Custom,
];

#[test]
fn kind_names_roundtrip() {
    for k in ALL {
        assert_eq!(AsrKind::from_str(k.as_str()), k);
    }
}

#[test]
fn unknown_kind_is_custom() {
    assert_eq!(AsrKind::from_str("MyGroqAsr"), AsrKind::Custom);
    assert_eq!(AsrKind::from_str(""), AsrKind::Custom);
    assert_eq!(AsrKind::from_str("vosk"), AsrKind::Custom);
}

#[test]
fn display_names() {
    assert_eq!(AsrKind::DashScopeFunasr.display_name(), "DashScope FunASR");
    assert_eq!(AsrKind::LocalFunasrWs.display_name(), "本地 FunASR WS");
    assert_eq!(AsrKind::Custom.display_name(), "自定义兼容端点");
}

#[test]
fn languages_per_kind() {
    assert_eq!(AsrKind::DashScopeFunasr.languages(), vec!["zh"]);
    assert_eq!(AsrKind::WhisperApi.languages(), vec!["zh", "en", "ja", "ko"]);
    assert_eq!(AsrKind::Vosk.languages(), vec!["zh", "en"]);
}

#[test]
fn default_langs_by_backend() {
    assert_eq!(default_langs("SherpaOnnx"), vec!["zh", "en"]);
    assert_eq!(default_langs("Vosk"), vec!["zh", "en"]);
    assert_eq!(default_langs("Other"), vec!["zh"]);
}

#[test]
fn wav_header_layout() {
    let pcm = vec![1u8, 2, 3, 4];
    let wav = pcm_to_wav(&pcm);
    assert_eq!(wav.len(), 48);
    assert_eq!(&wav[0..4], b"RIFF");
    assert_eq!(u32::from_le_bytes([wav[4], wav[5], wav[6], wav[7]]), 40);
    assert_eq!(&wav[8..16], b"WAVEfmt ");
    assert_eq!(u32::from_le_bytes([wav[24], wav[25], wav[26], wav[27]]), 16000);
    assert_eq!(u32::from_le_bytes([wav[28], wav[29], wav[30], wav[31]]), 32000);
    assert_eq!(&wav[36..40], b"data");
    assert_eq!(u32::from_le_bytes([wav[40], wav[41], wav[42], wav[43]]), 4);
    assert_eq!(&wav[44..], &pcm[..]);
}

#[test]
fn wav_of_empty_pcm() {
    let wav = pcm_to_wav(&[]);
    assert_eq!(wav.len(), 44);
    assert_eq!(u32::from_le_bytes([wav[4], wav[5], wav[6], wav[7]]), 36);
}

#[test]
fn diff_text_cases() {
    assert_eq!(diff_text("hello world", ""), "hello world");
    assert_eq!(diff_text("hello world", "hello"), "world");
    assert_eq!(diff_text("hello", "hello"), "hello");
    assert_eq!(diff_text("goodbye", "hello"), "goodbye");
    assert_eq!(diff_text("今天天气很好", "今天"), "天气很好");
}

#[test]
fn model_category_values() {
    assert_ne!(AsrModelCategory::Online, AsrModelCategory::Local);
}
