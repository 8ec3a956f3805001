use prism_agent::asr::AsrModelCategory;
use prism_agent::asr_catalog::{
    builtin_catalog, builtin_model, detect_backend, dir_size_mb_of, download_entry, walk_has, ModelFile, merge_found_models, sha256_hex,
    verify_download, AsrModelManager, DownloadError, ScannedModel,
};

#[test]
fn builtin_catalog_lists_online_then_local() {
    let c = builtin_catalog();
    assert_eq!(c.len(), 19);
    assert_eq!(c[0].id, "online-whisper-api");
    assert_eq!(c[0].default_model_id.as_deref(), Some("whisper-1"));
    assert_eq!(c[0].category, AsrModelCategory::Online);
    assert_eq!(c[5].id, "sherpa-sensevoice-small");
    assert_eq!(c[5].lang, vec!["zh", "en", "ja", "ko", "yue"]);
    assert_eq!(c[18].id, "vosk-ja-small");
    assert_eq!(c[18].size_mb, 38);
    assert!(c.iter().all(|m| m.sha256.is_empty() && !m.user_placed));
    assert_eq!(c.iter().filter(|m| m.requires_vad).count(), 3);
}

#[test]
fn merge_marks_known_and_appends_unknown() {
    let found = vec![
        ScannedModel { id: "vosk-cn-small".into(), backend: "Vosk".into(), size_mb: 41 },
        ScannedModel { id: "my-model".into(), backend: "SherpaOnnx".into(), size_mb: 12 },
        ScannedModel { id: "odd".into(), backend: "Other".into(), size_mb: 1 },
    ];
    let c = merge_found_models(builtin_catalog(), &found);
    assert_eq!(c.len(), 21);
    let known = c.iter().find(|m| m.id == "vosk-cn-small").unwrap();
    assert!(known.user_placed);
    assert_eq!(known.size_mb, 42);
    let added = &c[19];
    assert_eq!(added.id, "my-model");
    assert_eq!(added.name, "my-model");
    assert_eq!(added.category, AsrModelCategory::Local);
    assert_eq!(added.lang, vec!["zh", "en"]);
    assert!(added.user_placed);
    assert_eq!(c[20].lang, vec!["zh"]);
}

#[test]
fn model_dir_joins_id() {
    let m = AsrModelManager::new("/data/models".to_string());
    assert_eq!(m.model_dir("vosk-cn-small"), "/data/models/vosk-cn-small");
    assert_eq!(m.models_dir(), "/data/models");
}

#[test]
fn builtin_model_lookup() {
    let m = builtin_model("sherpa-whisper-base").unwrap();
    assert_eq!(m.size_mb, 150);
    assert!(builtin_model("nope").is_none());
}

#[test]
fn sha256_hex_of_abc() {
    assert_eq!(
        sha256_hex(b"abc"),
        "ba7816bf8f01cfea414140de5dae2223b00361a396177a9cb410ff61f20015ad"
    );
    assert_eq!(
        sha256_hex(b""),
        "e3b0c44298fc1c149afbf4c8996fb92427ae41e4649b934ca495991b7852b855"
    );
}

#[test]
fn verify_download_checks_listed_sum() {
    assert_eq!(verify_download(b"anything", ""), Ok(()));
    assert_eq!(
        verify_download(b"abc", "ba7816bf8f01cfea414140de5dae2223b00361a396177a9cb410ff61f20015ad"),
        Ok(())
    );
    let e = verify_download(b"abd", "ba7816bf8f01cfea414140de5dae2223b00361a396177a9cb410ff61f20015ad");
    assert_eq!(e, Err(DownloadError::ChecksumMismatch));
    assert_eq!(
        DownloadError::ChecksumMismatch.message(),
        "模型校验和不匹配（下载可能损坏），请重试"
    );
}

#[test]
fn download_entry_known_and_unknown() {
    let m = download_entry("vosk-cn-small").unwrap();
    assert_eq!(m.id, "vosk-cn-small");
    let e = download_entry("x").unwrap_err();
    assert_eq!(e, DownloadError::UnknownModel("x".to_string()));
    assert_eq!(e.message(), "未知模型: x");
}

fn file(name: &str, depth: usize) -> ModelFile {
    ModelFile { name: name.to_string(), depth }
}

#[test]
fn detect_backend_by_marker_files() {
    assert_eq!(detect_backend(&vec![file("tokens.txt", 0)]).as_deref(), Some("SherpaOnnx"));
    assert_eq!(detect_backend(&vec![file("README.md", 0), file("model.int8.onnx", 2)]).as_deref(), Some("SherpaOnnx"));
    assert_eq!(detect_backend(&vec![file("model.onnx", 3)]), None);
    assert_eq!(detect_backend(&vec![file("am/final.mdl", 1)]).as_deref(), Some("Vosk"));
    assert_eq!(detect_backend(&vec![file("am/final.mdl", 2)]), None);
    // markers are whole file names, so a bare `final.mdl` is not one
    assert_eq!(detect_backend(&vec![file("final.mdl", 1)]), None);
    assert_eq!(detect_backend(&vec![]), None);
    assert_eq!(
        detect_backend(&vec![file("am/final.mdl", 0), file("tokens.txt", 1)]).as_deref(),
        Some("SherpaOnnx")
    );
}

#[test]
fn walk_has_respects_depth() {
    let files = vec![file("a", 0), file("b", 4)];
    assert!(walk_has(&files, &["b", "c"], 5));
    assert!(!walk_has(&files, &["b", "c"], 4));
    assert!(!walk_has(&files, &["a"], 0));
    assert!(walk_has(&files, &["a"], 1));
}

#[test]
fn dir_size_rounds_up_to_mib() {
    assert_eq!(dir_size_mb_of(0), 0);
    assert_eq!(dir_size_mb_of(1), 1);
    assert_eq!(dir_size_mb_of(1_048_576), 1);
    assert_eq!(dir_size_mb_of(1_048_577), 2);
    assert_eq!(dir_size_mb_of(u64::MAX), 17_592_186_044_416);
}
