use prism_agent::asr_backends::{azure_frame_event, dashscope_frame_event};
use prism_agent::asr::{AsrError, AsrKind};
use prism_agent::asr_backends::{
    azure_event, dashscope_event, AsrBackendConfig, AzureEvent, AzureSpeechBackend,
    DashScopeEvent, DashScopeFunasrBackend, DashScopeSession, LocalFunasrWsBackend,
    LocalNativeBackend, OpenAiCompatibleBackend, SherpaOnnxBackend, WhisperApiBackend,
};

fn cfg(base_url: Option<&str>, api_key: Option<&str>, lang: Option<&str>, model_path: Option<&str>) -> AsrBackendConfig {
    AsrBackendConfig {
        kind: AsrKind::Custom,
        kind_raw: "Custom".into(),
        base_url: base_url.map(String::from),
        api_key: api_key.map(String::from),
        model: None,
        lang: lang.map(String::from),
        model_path: model_path.map(String::from),
    }
}

#[test]
fn openai_compatible_defaults_and_header_choice() {
    let b = OpenAiCompatibleBackend::new(&cfg(None, None, None, None));
    assert_eq!(b.base_url, "https://api.xiaomimimo.com/v1");
    assert_eq!(b.model, "mimo-v2.5-asr");
    assert_eq!(b.api_key, "");
    assert!(!b.use_api_key_header);
    assert_eq!(b.langs, vec!["zh", "en"]);
    let x = OpenAiCompatibleBackend::new(&cfg(Some("https://api.xiaomimimo.com/v1"), Some("k"), Some("ja"), None));
    assert!(x.use_api_key_header);
    assert_eq!(x.langs, vec!["ja"]);
    assert_eq!(x.kind(), AsrKind::MiMoHttp);
}

#[test]
fn other_backend_defaults() {
    let w = WhisperApiBackend::new(&cfg(None, None, None, None));
    assert_eq!(w.base_url, "https://api.openai.com/v1");
    assert_eq!(w.model, "whisper-1");
    let d = DashScopeFunasrBackend::new(&cfg(None, None, None, None));
    assert_eq!(d.model, "fun-asr-realtime");
    assert!(matches!(d.health_check(), Err(AsrError::Unauthorized)));
    let l = LocalFunasrWsBackend::new(&cfg(None, None, None, None));
    assert_eq!(l.base_url, "ws://localhost:10095");
    assert_eq!(l.langs, vec!["zh"]);
}

#[test]
fn sherpa_resolution_errors() {
    let none = SherpaOnnxBackend::new(&cfg(None, None, None, None));
    assert!(matches!(none.resolve(true, None, None, None),
        Err(AsrError::ModelNotFound(m)) if m == "SherpaOnnx 未配置模型路径（model_path）"));
    let b = SherpaOnnxBackend::new(&cfg(None, None, None, Some("/m")));
    assert!(matches!(b.resolve(false, None, None, None),
        Err(AsrError::ModelNotFound(m)) if m == "模型目录不存在: /m"));
    assert!(matches!(b.resolve(true, Some("/m/model.onnx".into()), None, None),
        Err(AsrError::ModelNotFound(m)) if m == "模型目录中未找到 tokens.txt/tokens.json（/m）"));
    let ok = b.resolve(true, Some("a".into()), Some("t".into()), None).unwrap();
    assert_eq!(ok, ("a".to_string(), "t".to_string(), None));
}

#[test]
fn local_native_readiness() {
    let v = LocalNativeBackend::vosk(&cfg(None, None, None, Some("/v")));
    assert!(v.check_ready(true, true).is_ok());
    assert!(matches!(v.check_ready(true, false),
        Err(AsrError::ModelNotFound(m)) if m == "Vosk 目录中未找到模型文件（期望: conf/model.conf / am/final.mdl），可能下载不完整"));
    let s = LocalNativeBackend::sherpa(&cfg(None, None, None, None));
    assert!(matches!(s.check_ready(true, true),
        Err(AsrError::ModelNotFound(m)) if m.starts_with("Sherpa ONNX 未配置模型路径")));
}

#[test]
fn azure_health_and_socket_url() {
    let a = AzureSpeechBackend::new(&cfg(None, Some("key"), None, None));
    assert!(a.health_check().is_ok());
    assert_eq!(a.session_language(), "zh");
    assert_eq!(
        a.socket_url("zh-CN"),
        "wss://eastasia.stt.speech.microsoft.com/speech/recognition/conversation/cognitiveservices/v1?language=zh-CN&format=detailed&profanity=raw"
    );
    let bad = AzureSpeechBackend::new(&cfg(Some("https://example.com//"), Some("k"), None, None));
    assert!(matches!(bad.health_check(), Err(AsrError::Protocol(_))));
    assert!(bad.socket_url("en").starts_with("wss://example.com/speech/"));
    let nokey = AzureSpeechBackend::new(&cfg(None, None, None, None));
    assert!(matches!(nokey.health_check(), Err(AsrError::Unauthorized)));
}

fn azure(ty: &str, text: Option<&str>) -> AzureEvent {
    AzureEvent {
        event_type: ty.into(),
        text: text.map(String::from),
        offset: Some(25_000_000),
        duration: Some(10_000_000),
        speaker_id: Some(2),
        display_text: Some("phrase".into()),
    }
}

#[test]
fn azure_events_become_segments() {
    let (seg, next, done) = azure_event(4, &azure("speechHypothesis", Some("hi")));
    let s = seg.unwrap();
    assert_eq!((s.index, s.is_final, s.start_ms, s.speaker_id), (4, false, 2500, None));
    assert_eq!((next, done), (4, false));
    let (seg, next, _) = azure_event(4, &azure("speechFragment", Some("hi")));
    let s = seg.unwrap();
    assert_eq!((s.is_final, s.end_ms, s.speaker_id), (true, 1000, Some(2)));
    assert_eq!(next, 5);
    let (seg, next, done) = azure_event(5, &azure("speech.phrase", None));
    assert_eq!(seg.unwrap().text, "phrase");
    assert_eq!((next, done), (6, true));
    assert_eq!(azure_event(1, &azure("turn.end", None)), (None, 1, true));
    assert_eq!(azure_event(1, &azure("speechFragment", Some(""))), (None, 1, false));
}

#[test]
fn dashscope_session_progress() {
    let mut s = DashScopeSession { index: 0, started: false, finished: false };
    let ev = |e: &str, t: &str, end: bool| DashScopeEvent {
        event: e.into(),
        text: t.into(),
        sentence_end: end,
        speaker_id: None,
    };
    let (seg, status, failed) = dashscope_event(&mut s, &ev("task-started", "", false));
    assert!(seg.is_none() && !failed);
    assert_eq!(status.as_deref(), Some("recognizing"));
    assert!(s.started);
    let (seg, _, _) = dashscope_event(&mut s, &ev("result-generated", "你好", false));
    assert_eq!(seg.unwrap().index, 0);
    assert_eq!(s.index, 0);
    let (seg, _, _) = dashscope_event(&mut s, &ev("result-generated", "你好世界", true));
    assert!(seg.unwrap().is_final);
    assert_eq!(s.index, 1);
    let (_, _, failed) = dashscope_event(&mut s, &ev("task-failed", "", false));
    assert!(failed);
    let (_, status, _) = dashscope_event(&mut s, &ev("task-finished", "", false));
    assert_eq!(status.as_deref(), Some("stopped"));
    assert!(s.finished);
}

#[test]
fn azure_frames_decode() {
    let e = azure_frame_event(r#"{"type":"speechFragment","text":"你好","offset":25000000,"duration":10000000,"speakerId":"3"}"#).unwrap();
    assert_eq!(e.event_type, "speechFragment");
    assert_eq!(e.text.as_deref(), Some("你好"));
    assert_eq!((e.offset, e.duration, e.speaker_id), (Some(25000000), Some(10000000), Some(3)));
    assert_eq!(e.display_text, None);
    let (seg, next, done) = azure_event(4, &e);
    let seg = seg.unwrap();
    assert_eq!((seg.start_ms, seg.end_ms, seg.speaker_id, next, done), (2500, 1000, Some(3), 5, false));

    let e = azure_frame_event(r#"{"type":"speech.phrase","result":{"DisplayText":"完成。"},"speakerId":4294967297}"#).unwrap();
    assert_eq!(e.display_text.as_deref(), Some("完成。"));
    assert_eq!(e.speaker_id, Some(1));
    let e = azure_frame_event(r#"{"text":"x","speakerId":"+7","offset":-1}"#).unwrap();
    assert_eq!(e.event_type, "");
    assert_eq!((e.speaker_id, e.offset), (Some(7), None));
    assert_eq!(azure_frame_event(r#"{"speakerId":"a1"}"#).unwrap().speaker_id, None);
    assert!(azure_frame_event("not json").is_none());
}

#[test]
fn dashscope_frames_decode() {
    let e = dashscope_frame_event(
        r#"{"header":{"event":"result-generated"},"payload":{"output":{"sentence":{"text":"你好","sentence_end":true,"speaker_id":"2"}}}}"#,
    )
    .unwrap();
    assert_eq!((e.event.as_str(), e.text.as_str(), e.sentence_end, e.speaker_id), ("result-generated", "你好", true, Some(2)));
    let e = dashscope_frame_event(
        r#"{"header":{"action":"task-started","event":"x"},"payload":{"output":{"text":"旧格式","speaker_id":"99999999999"}}}"#,
    )
    .unwrap();
    assert_eq!((e.event.as_str(), e.text.as_str(), e.sentence_end, e.speaker_id), ("task-started", "旧格式", false, None));
    let e = dashscope_frame_event(r#"{"payload":{"output":{"sentence":"s","text":"t"}}}"#).unwrap();
    assert_eq!((e.event.as_str(), e.text.as_str()), ("", "t"));
    assert!(dashscope_frame_event("{").is_none());
}
