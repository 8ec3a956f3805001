use prism_agent::asr::AsrKind;
use prism_agent::asr_registry::{
    builtin_register, is_registered, register_backend, registered_backends, resolve_backend,
    str_lt, BackendRegistry,
};

#[test]
fn builtin_names_are_listed_sorted() {
    let mut reg = BackendRegistry::new();
    builtin_register(&mut reg);
    assert_eq!(
        registered_backends(&reg),
        vec![
            "AzureSpeech", "Custom", "DashScopeFunasr", "LocalFunasrWs", "MiMoHttp", "SherpaOnnx",
            "Vosk", "WhisperApi"
        ]
    );
}

#[test]
fn registering_twice_changes_nothing() {
    let mut reg = BackendRegistry::new();
    register_backend(&mut reg, "MyGroqAsr");
    register_backend(&mut reg, "Alpha");
    register_backend(&mut reg, "MyGroqAsr");
    assert_eq!(registered_backends(&reg), vec!["Alpha", "MyGroqAsr"]);
    assert!(is_registered(&reg, "Alpha"));
    assert!(!is_registered(&reg, "Beta"));
}

#[test]
fn resolution_prefers_exact_name_then_kind() {
    let mut reg = BackendRegistry::new();
    builtin_register(&mut reg);
    register_backend(&mut reg, "MyGroqAsr");
    assert_eq!(resolve_backend(&reg, "MyGroqAsr", AsrKind::Custom).as_deref(), Some("MyGroqAsr"));
    assert_eq!(resolve_backend(&reg, "whatever", AsrKind::Vosk).as_deref(), Some("Vosk"));
    let empty = BackendRegistry::new();
    assert_eq!(resolve_backend(&empty, "Vosk", AsrKind::Vosk), None);
}

#[test]
fn string_order_matches_std() {
    for (a, b) in [("a", "b"), ("ab", "a"), ("", "x"), ("x", ""), ("中", "z"), ("same", "same")] {
        assert_eq!(str_lt(a, b), a < b);
    }
}
