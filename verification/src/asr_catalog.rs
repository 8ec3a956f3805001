//! The catalogue of speech-recognition models and the model directory
//! manager: built-in entries, models found on disk, and model paths.
use sha2::Digest;
use vstd::prelude::*;

use crate::asr::{
    backend_default_langs, default_langs, strings_of_strs, AsrModelCategory, AsrModelInfo,
};
use crate::skills::{hex_digit, hex_digit_of};
use crate::text::{owned, str_eq, string_views};

verus! {

/// The catalogue fields of a model, as plain values.
pub struct CatalogEntry {
    pub id: Seq<char>,
    pub name: Seq<char>,
    pub backend: Seq<char>,
    pub category: AsrModelCategory,
    pub size_mb: u64,
    pub lang: Seq<Seq<char>>,
    pub url: Seq<char>,
    pub requires_vad: bool,
    pub default_model_id: Option<Seq<char>>,
    pub requires_api_key: bool,
}

/// The catalogue fields of `m`.
pub open spec fn entry_of(m: AsrModelInfo) -> CatalogEntry {
    CatalogEntry {
        id: m.id@,
        name: m.name@,
        backend: m.backend@,
        category: m.category,
        size_mb: m.size_mb,
        lang: string_views(m.lang@),
        url: m.url@,
        requires_vad: m.requires_vad,
        default_model_id: match m.default_model_id {
            Some(s) => Some(s@),
            None => None,
        },
        requires_api_key: m.requires_api_key,
    }
}

/// The built-in catalogue: online services first, then downloadable local
/// models.
pub open spec fn builtin_catalog_spec() -> Seq<CatalogEntry> {
    seq![
        CatalogEntry {
            id: "online-whisper-api"@,
            name: "OpenAI Whisper API"@,
            backend: "WhisperApi"@,
            category: AsrModelCategory::Online,
            size_mb: 0,
            lang: seq!["zh"@, "en"@, "ja"@, "ko"@],
            url: "https://api.openai.com/v1/audio/transcriptions"@,
            requires_vad: false,
            default_model_id: Some("whisper-1"@),
            requires_api_key: true,
        },
        CatalogEntry {
            id: "online-dashscope-funasr"@,
            name: "阿里云 DashScope FunASR"@,
            backend: "DashScopeFunasr"@,
            category: AsrModelCategory::Online,
            size_mb: 0,
            lang: seq!["zh"@, "en"@],
            url: "wss://dashscope.aliyuncs.com/api-ws/v1/inference"@,
            requires_vad: false,
            default_model_id: Some("paraformer-v2"@),
            requires_api_key: true,
        },
        CatalogEntry {
            id: "online-mimo-http"@,
            name: "MiMo HTTP 语音识别"@,
            backend: "MiMoHttp"@,
            category: AsrModelCategory::Online,
            size_mb: 0,
            lang: seq!["zh"@, "en"@],
            url: "https://api.xiaomimimo.com/v1/audio/transcriptions"@,
            requires_vad: false,
            default_model_id: Some("mimo-asr"@),
            requires_api_key: true,
        },
        CatalogEntry {
            id: "online-azure-speech"@,
            name: "Azure Speech Services"@,
            backend: "AzureSpeech"@,
            category: AsrModelCategory::Online,
            size_mb: 0,
            lang: seq!["zh"@, "en"@, "ja"@, "ko"@],
            url: "https://{region}.stt.speech.microsoft.com/speech/recognition/conversation/cognitiveservices/v1"@,
            requires_vad: false,
            default_model_id: None,
            requires_api_key: true,
        },
        CatalogEntry {
            id: "online-custom-api"@,
            name: "自定义 ASR API"@,
            backend: "Custom"@,
            category: AsrModelCategory::Online,
            size_mb: 0,
            lang: seq!["zh"@],
            url: ""@,
            requires_vad: false,
            default_model_id: None,
            requires_api_key: true,
        },
        CatalogEntry {
            id: "sherpa-sensevoice-small"@,
            name: "SenseVoice-Small (中文流式)"@,
            backend: "SherpaOnnx"@,
            category: AsrModelCategory::Local,
            size_mb: 228,
            lang: seq!["zh"@, "en"@, "ja"@, "ko"@, "yue"@],
            url: "https://github.com/k2-fsa/sherpa-onnx/releases/download/asr-models/sherpa-onnx-sense-voice-zh-en-ja-ko-yue-2024-07-17.tar.bz2"@,
            requires_vad: false,
            default_model_id: None,
            requires_api_key: false,
        },
        CatalogEntry {
            id: "sherpa-paraformer-large"@,
            name: "Paraformer-Large (中文)"@,
            backend: "SherpaOnnx"@,
            category: AsrModelCategory::Local,
            size_mb: 230,
            lang: seq!["zh"@],
            url: "https://github.com/k2-fsa/sherpa-onnx/releases/download/asr-models/sherpa-onnx-paraformer-zh-2023-09-14.tar.bz2"@,
            requires_vad: true,
            default_model_id: None,
            requires_api_key: false,
        },
        CatalogEntry {
            id: "sherpa-paraformer-zh-en"@,
            name: "Paraformer 中英混合"@,
            backend: "SherpaOnnx"@,
            category: AsrModelCategory::Local,
            size_mb: 245,
            lang: seq!["zh"@, "en"@],
            url: "https://github.com/k2-fsa/sherpa-onnx/releases/download/asr-models/sherpa-onnx-paraformer-zh-en-2023-09-14.tar.bz2"@,
            requires_vad: true,
            default_model_id: None,
            requires_api_key: false,
        },
        CatalogEntry {
            id: "sherpa-whisper-tiny"@,
            name: "Whisper tiny (中英蒸馏)"@,
            backend: "SherpaOnnx"@,
            category: AsrModelCategory::Local,
            size_mb: 80,
            lang: seq!["zh"@, "en"@],
            url: "https://huggingface.co/csukuangfj/sherpa-onnx-whisper-tiny-zh-en"@,
            requires_vad: false,
            default_model_id: None,
            requires_api_key: false,
        },
        CatalogEntry {
            id: "sherpa-whisper-base"@,
            name: "Whisper base (多语言)"@,
            backend: "SherpaOnnx"@,
            category: AsrModelCategory::Local,
            size_mb: 150,
            lang: seq!["zh"@, "en"@, "ja"@, "ko"@],
            url: "https://github.com/k2-fsa/sherpa-onnx/releases/download/asr-models/sherpa-onnx-whisper-base.tar.bz2"@,
            requires_vad: false,
            default_model_id: None,
            requires_api_key: false,
        },
        CatalogEntry {
            id: "sherpa-whisper-small"@,
            name: "Whisper small (多语言)"@,
            backend: "SherpaOnnx"@,
            category: AsrModelCategory::Local,
            size_mb: 460,
            lang: seq!["zh"@, "en"@, "ja"@, "ko"@],
            url: "https://github.com/k2-fsa/sherpa-onnx/releases/download/asr-models/sherpa-onnx-whisper-small.tar.bz2"@,
            requires_vad: false,
            default_model_id: None,
            requires_api_key: false,
        },
        CatalogEntry {
            id: "sherpa-whisper-medium"@,
            name: "Whisper medium (多语言)"@,
            backend: "SherpaOnnx"@,
            category: AsrModelCategory::Local,
            size_mb: 1500,
            lang: seq!["zh"@, "en"@, "ja"@, "ko"@],
            url: "https://github.com/k2-fsa/sherpa-onnx/releases/download/asr-models/sherpa-onnx-whisper-medium.tar.bz2"@,
            requires_vad: false,
            default_model_id: None,
            requires_api_key: false,
        },
        CatalogEntry {
            id: "sherpa-paraformer-zh-hf"@,
            name: "Paraformer 中文 (HuggingFace)"@,
            backend: "SherpaOnnx"@,
            category: AsrModelCategory::Local,
            size_mb: 390,
            lang: seq!["zh"@],
            url: "https://github.com/k2-fsa/sherpa-onnx/releases/download/asr-models/sherpa-onnx-paraformer-zh-hf.tar.bz2"@,
            requires_vad: true,
            default_model_id: None,
            requires_api_key: false,
        },
        CatalogEntry {
            id: "funasr-punc-transformer"@,
            name: "FunASR 标点恢复模型"@,
            backend: "SherpaOnnx"@,
            category: AsrModelCategory::Local,
            size_mb: 120,
            lang: seq!["zh"@],
            url: "https://github.com/k2-fsa/sherpa-onnx/releases/download/asr-models/sherpa-onnx-punc-ct-pnc-zh-en.tar.bz2"@,
            requires_vad: false,
            default_model_id: None,
            requires_api_key: false,
        },
        CatalogEntry {
            id: "vosk-cn-small"@,
            name: "Vosk 中文小模型"@,
            backend: "Vosk"@,
            category: AsrModelCategory::Local,
            size_mb: 42,
            lang: seq!["zh"@],
            url: "https://alphacephei.com/vosk/models/vosk-model-small-cn-0.22.zip"@,
            requires_vad: false,
            default_model_id: None,
            requires_api_key: false,
        },
        CatalogEntry {
            id: "vosk-en-small"@,
            name: "Vosk 英文小模型"@,
            backend: "Vosk"@,
            category: AsrModelCategory::Local,
            size_mb: 40,
            lang: seq!["en"@],
            url: "https://alphacephei.com/vosk/models/vosk-model-small-en-us-0.15.zip"@,
            requires_vad: false,
            default_model_id: None,
            requires_api_key: false,
        },
        CatalogEntry {
            id: "vosk-cn-big"@,
            name: "Vosk 中文大模型"@,
            backend: "Vosk"@,
            category: AsrModelCategory::Local,
            size_mb: 1800,
            lang: seq!["zh"@],
            url: "https://alphacephei.com/vosk/models/vosk-model-cn-0.22.zip"@,
            requires_vad: false,
            default_model_id: None,
            requires_api_key: false,
        },
        CatalogEntry {
            id: "vosk-en-big"@,
            name: "Vosk 英文大模型"@,
            backend: "Vosk"@,
            category: AsrModelCategory::Local,
            size_mb: 1800,
            lang: seq!["en"@],
            url: "https://alphacephei.com/vosk/models/vosk-model-en-us-0.22-lgraph.zip"@,
            requires_vad: false,
            default_model_id: None,
            requires_api_key: false,
        },
        CatalogEntry {
            id: "vosk-ja-small"@,
            name: "Vosk 日文小模型"@,
            backend: "Vosk"@,
            category: AsrModelCategory::Local,
            size_mb: 38,
            lang: seq!["ja"@],
            url: "https://alphacephei.com/vosk/models/vosk-model-small-ja-0.22.zip"@,
            requires_vad: false,
            default_model_id: None,
            requires_api_key: false,
        },
    ]
}

/// A catalogue model with no checksum, not found on disk.
fn model_info(
    id: &str,
    name: &str,
    backend: &str,
    category: AsrModelCategory,
    size_mb: u64,
    lang: &[&str],
    url: &str,
    requires_vad: bool,
    default_model_id: Option<&str>,
    requires_api_key: bool,
) -> (m: AsrModelInfo)
    ensures
        entry_of(m) == (CatalogEntry {
            id: id@,
            name: name@,
            backend: backend@,
            category,
            size_mb,
            lang: lang@.map_values(|s: &str| s@),
            url: url@,
            requires_vad,
            default_model_id: match default_model_id {
                Some(d) => Some(d@),
                None => None,
            },
            requires_api_key,
        }),
        m.sha256@.len() == 0,
        !m.user_placed,
{
    let dm = match default_model_id {
        Some(d) => Some(owned(d)),
        None => None,
    };
    AsrModelInfo {
        id: owned(id),
        name: owned(name),
        backend: owned(backend),
        category,
        size_mb,
        lang: strings_of_strs(lang),
        url: owned(url),
        sha256: String::new(),
        requires_vad,
        user_placed: false,
        default_model_id: dm,
        requires_api_key,
    }
}

/// The built-in catalogue of recognition models (recommended downloads and
/// online services); none has a checksum or was found on disk.
#[verifier::spinoff_prover]
#[verifier::rlimit(50)]
pub fn builtin_catalog() -> (r: Vec<AsrModelInfo>)
    ensures
        r@.map_values(|m: AsrModelInfo| entry_of(m)) == builtin_catalog_spec(),
        forall|i: int| 0 <= i < r@.len() ==> #[trigger] r@[i].sha256@.len() == 0 && !r@[i].user_placed,
{
    let mut out: Vec<AsrModelInfo> = Vec::new();
    out.push(
        model_info(
            "online-whisper-api",
            "OpenAI Whisper API",
            "WhisperApi",
            AsrModelCategory::Online,
            0,
            &["zh", "en", "ja", "ko"],
            "https://api.openai.com/v1/audio/transcriptions",
            false,
            Some("whisper-1"),
            true,
        ),
    );
    assert(entry_of(out@[0]).lang =~= builtin_catalog_spec()[0].lang);
    assert(entry_of(out@[0]) == builtin_catalog_spec()[0]);
    out.push(
        model_info(
            "online-dashscope-funasr",
            "阿里云 DashScope FunASR",
            "DashScopeFunasr",
            AsrModelCategory::Online,
            0,
            &["zh", "en"],
            "wss://dashscope.aliyuncs.com/api-ws/v1/inference",
            false,
            Some("paraformer-v2"),
            true,
        ),
    );
    assert(entry_of(out@[1]).lang =~= builtin_catalog_spec()[1].lang);
    assert(entry_of(out@[1]) == builtin_catalog_spec()[1]);
    out.push(
        model_info(
            "online-mimo-http",
            "MiMo HTTP 语音识别",
            "MiMoHttp",
            AsrModelCategory::Online,
            0,
            &["zh", "en"],
            "https://api.xiaomimimo.com/v1/audio/transcriptions",
            false,
            Some("mimo-asr"),
            true,
        ),
    );
    assert(entry_of(out@[2]).lang =~= builtin_catalog_spec()[2].lang);
    assert(entry_of(out@[2]) == builtin_catalog_spec()[2]);
    out.push(
        model_info(
            "online-azure-speech",
            "Azure Speech Services",
            "AzureSpeech",
            AsrModelCategory::Online,
            0,
            &["zh", "en", "ja", "ko"],
            "https://{region}.stt.speech.microsoft.com/speech/recognition/conversation/cognitiveservices/v1",
            false,
            None,
            true,
        ),
    );
    assert(entry_of(out@[3]).lang =~= builtin_catalog_spec()[3].lang);
    assert(entry_of(out@[3]) == builtin_catalog_spec()[3]);
    out.push(
        model_info(
            "online-custom-api",
            "自定义 ASR API",
            "Custom",
            AsrModelCategory::Online,
            0,
            &["zh"],
            "",
            false,
            None,
            true,
        ),
    );
    assert(entry_of(out@[4]).lang =~= builtin_catalog_spec()[4].lang);
    assert(entry_of(out@[4]) == builtin_catalog_spec()[4]);
    out.push(
        model_info(
            "sherpa-sensevoice-small",
            "SenseVoice-Small (中文流式)",
            "SherpaOnnx",
            AsrModelCategory::Local,
            228,
            &["zh", "en", "ja", "ko", "yue"],
            "https://github.com/k2-fsa/sherpa-onnx/releases/download/asr-models/sherpa-onnx-sense-voice-zh-en-ja-ko-yue-2024-07-17.tar.bz2",
            false,
            None,
            false,
        ),
    );
    assert(entry_of(out@[5]).lang =~= builtin_catalog_spec()[5].lang);
    assert(entry_of(out@[5]) == builtin_catalog_spec()[5]);
    out.push(
        model_info(
            "sherpa-paraformer-large",
            "Paraformer-Large (中文)",
            "SherpaOnnx",
            AsrModelCategory::Local,
            230,
            &["zh"],
            "https://github.com/k2-fsa/sherpa-onnx/releases/download/asr-models/sherpa-onnx-paraformer-zh-2023-09-14.tar.bz2",
            true,
            None,
            false,
        ),
    );
    assert(entry_of(out@[6]).lang =~= builtin_catalog_spec()[6].lang);
    assert(entry_of(out@[6]) == builtin_catalog_spec()[6]);
    out.push(
        model_info(
            "sherpa-paraformer-zh-en",
            "Paraformer 中英混合",
            "SherpaOnnx",
            AsrModelCategory::Local,
            245,
            &["zh", "en"],
            "https://github.com/k2-fsa/sherpa-onnx/releases/download/asr-models/sherpa-onnx-paraformer-zh-en-2023-09-14.tar.bz2",
            true,
            None,
            false,
        ),
    );
    assert(entry_of(out@[7]).lang =~= builtin_catalog_spec()[7].lang);
    assert(entry_of(out@[7]) == builtin_catalog_spec()[7]);
    out.push(
        model_info(
            "sherpa-whisper-tiny",
            "Whisper tiny (中英蒸馏)",
            "SherpaOnnx",
            AsrModelCategory::Local,
            80,
            &["zh", "en"],
            "https://huggingface.co/csukuangfj/sherpa-onnx-whisper-tiny-zh-en",
            false,
            None,
            false,
        ),
    );
    assert(entry_of(out@[8]).lang =~= builtin_catalog_spec()[8].lang);
    assert(entry_of(out@[8]) == builtin_catalog_spec()[8]);
    out.push(
        model_info(
            "sherpa-whisper-base",
            "Whisper base (多语言)",
            "SherpaOnnx",
            AsrModelCategory::Local,
            150,
            &["zh", "en", "ja", "ko"],
            "https://github.com/k2-fsa/sherpa-onnx/releases/download/asr-models/sherpa-onnx-whisper-base.tar.bz2",
            false,
            None,
            false,
        ),
    );
    assert(entry_of(out@[9]).lang =~= builtin_catalog_spec()[9].lang);
    assert(entry_of(out@[9]) == builtin_catalog_spec()[9]);
    out.push(
        model_info(
            "sherpa-whisper-small",
            "Whisper small (多语言)",
            "SherpaOnnx",
            AsrModelCategory::Local,
            460,
            &["zh", "en", "ja", "ko"],
            "https://github.com/k2-fsa/sherpa-onnx/releases/download/asr-models/sherpa-onnx-whisper-small.tar.bz2",
            false,
            None,
            false,
        ),
    );
    assert(entry_of(out@[10]).lang =~= builtin_catalog_spec()[10].lang);
    assert(entry_of(out@[10]) == builtin_catalog_spec()[10]);
    out.push(
        model_info(
            "sherpa-whisper-medium",
            "Whisper medium (多语言)",
            "SherpaOnnx",
            AsrModelCategory::Local,
            1500,
            &["zh", "en", "ja", "ko"],
            "https://github.com/k2-fsa/sherpa-onnx/releases/download/asr-models/sherpa-onnx-whisper-medium.tar.bz2",
            false,
            None,
            false,
        ),
    );
    assert(entry_of(out@[11]).lang =~= builtin_catalog_spec()[11].lang);
    assert(entry_of(out@[11]) == builtin_catalog_spec()[11]);
    out.push(
        model_info(
            "sherpa-paraformer-zh-hf",
            "Paraformer 中文 (HuggingFace)",
            "SherpaOnnx",
            AsrModelCategory::Local,
            390,
            &["zh"],
            "https://github.com/k2-fsa/sherpa-onnx/releases/download/asr-models/sherpa-onnx-paraformer-zh-hf.tar.bz2",
            true,
            None,
            false,
        ),
    );
    assert(entry_of(out@[12]).lang =~= builtin_catalog_spec()[12].lang);
    assert(entry_of(out@[12]) == builtin_catalog_spec()[12]);
    out.push(
        model_info(
            "funasr-punc-transformer",
            "FunASR 标点恢复模型",
            "SherpaOnnx",
            AsrModelCategory::Local,
            120,
            &["zh"],
            "https://github.com/k2-fsa/sherpa-onnx/releases/download/asr-models/sherpa-onnx-punc-ct-pnc-zh-en.tar.bz2",
            false,
            None,
            false,
        ),
    );
    assert(entry_of(out@[13]).lang =~= builtin_catalog_spec()[13].lang);
    assert(entry_of(out@[13]) == builtin_catalog_spec()[13]);
    out.push(
        model_info(
            "vosk-cn-small",
            "Vosk 中文小模型",
            "Vosk",
            AsrModelCategory::Local,
            42,
            &["zh"],
            "https://alphacephei.com/vosk/models/vosk-model-small-cn-0.22.zip",
            false,
            None,
            false,
        ),
    );
    assert(entry_of(out@[14]).lang =~= builtin_catalog_spec()[14].lang);
    assert(entry_of(out@[14]) == builtin_catalog_spec()[14]);
    out.push(
        model_info(
            "vosk-en-small",
            "Vosk 英文小模型",
            "Vosk",
            AsrModelCategory::Local,
            40,
            &["en"],
            "https://alphacephei.com/vosk/models/vosk-model-small-en-us-0.15.zip",
            false,
            None,
            false,
        ),
    );
    assert(entry_of(out@[15]).lang =~= builtin_catalog_spec()[15].lang);
    assert(entry_of(out@[15]) == builtin_catalog_spec()[15]);
    out.push(
        model_info(
            "vosk-cn-big",
            "Vosk 中文大模型",
            "Vosk",
            AsrModelCategory::Local,
            1800,
            &["zh"],
            "https://alphacephei.com/vosk/models/vosk-model-cn-0.22.zip",
            false,
            None,
            false,
        ),
    );
    assert(entry_of(out@[16]).lang =~= builtin_catalog_spec()[16].lang);
    assert(entry_of(out@[16]) == builtin_catalog_spec()[16]);
    out.push(
        model_info(
            "vosk-en-big",
            "Vosk 英文大模型",
            "Vosk",
            AsrModelCategory::Local,
            1800,
            &["en"],
            "https://alphacephei.com/vosk/models/vosk-model-en-us-0.22-lgraph.zip",
            false,
            None,
            false,
        ),
    );
    assert(entry_of(out@[17]).lang =~= builtin_catalog_spec()[17].lang);
    assert(entry_of(out@[17]) == builtin_catalog_spec()[17]);
    out.push(
        model_info(
            "vosk-ja-small",
            "Vosk 日文小模型",
            "Vosk",
            AsrModelCategory::Local,
            38,
            &["ja"],
            "https://alphacephei.com/vosk/models/vosk-model-small-ja-0.22.zip",
            false,
            None,
            false,
        ),
    );
    assert(entry_of(out@[18]).lang =~= builtin_catalog_spec()[18].lang);
    assert(entry_of(out@[18]) == builtin_catalog_spec()[18]);
    assert(out@.len() == 19);
    assert(out@.map_values(|m: AsrModelInfo| entry_of(m)) =~= builtin_catalog_spec());
    out
}

/// A catalogue model as plain values: its catalogue fields, its checksum and
/// whether it was found on disk.
pub open spec fn model_view(m: AsrModelInfo) -> (CatalogEntry, Seq<char>, bool) {
    (entry_of(m), m.sha256@, m.user_placed)
}

/// A model directory found on disk: its name, the backend its files belong
/// to, and its size.
#[derive(Debug, Clone)]
pub struct ScannedModel {
    pub id: String,
    pub backend: String,
    pub size_mb: u64,
}

/// Index of the first model with the given id at or after `from`, or -1.
pub open spec fn find_id(ms: Seq<(CatalogEntry, Seq<char>, bool)>, id: Seq<char>, from: int) -> int
    decreases ms.len() - from,
{
    if from < 0 || from >= ms.len() {
        -1
    } else if ms[from].0.id == id {
        from
    } else {
        find_id(ms, id, from + 1)
    }
}

/// The catalogue entry made for a model directory that the catalogue does
/// not list: named after its directory, local, with the backend's default
/// languages.
pub open spec fn scanned_entry(id: Seq<char>, backend: Seq<char>, size_mb: u64) -> (CatalogEntry, Seq<char>, bool) {
    (
        CatalogEntry {
            id,
            name: id,
            backend,
            category: AsrModelCategory::Local,
            size_mb,
            lang: backend_default_langs(backend),
            url: seq![],
            requires_vad: false,
            default_model_id: None,
            requires_api_key: false,
        },
        seq![],
        true,
    )
}

/// Adds one found model: a listed id is marked as found on disk (its first
/// listing), an unknown one is appended.
pub open spec fn merge_one(
    ms: Seq<(CatalogEntry, Seq<char>, bool)>,
    id: Seq<char>,
    backend: Seq<char>,
    size_mb: u64,
) -> Seq<(CatalogEntry, Seq<char>, bool)> {
    let k = find_id(ms, id, 0);
    if k >= 0 {
        ms.update(k, (ms[k].0, ms[k].1, true))
    } else {
        ms.push(scanned_entry(id, backend, size_mb))
    }
}

/// Adds the found models in order.
pub open spec fn merge_all(
    ms: Seq<(CatalogEntry, Seq<char>, bool)>,
    found: Seq<ScannedModel>,
) -> Seq<(CatalogEntry, Seq<char>, bool)>
    decreases found.len(),
{
    if found.len() == 0 {
        ms
    } else {
        let f = found.last();
        merge_one(merge_all(ms, found.drop_last()), f.id@, f.backend@, f.size_mb)
    }
}

/// The full catalogue: the given entries plus the model directories found on
/// disk (listed ids are marked as found, unknown ones appended).
pub fn merge_found_models(catalog: Vec<AsrModelInfo>, found: &Vec<ScannedModel>) -> (r: Vec<AsrModelInfo>)
    ensures
        r@.map_values(|m: AsrModelInfo| model_view(m)) == merge_all(
            catalog@.map_values(|m: AsrModelInfo| model_view(m)),
            found@,
        ),
{
    let ghost start = catalog@.map_values(|m: AsrModelInfo| model_view(m));
    let mut out = catalog;
    let mut i: usize = 0;
    assert(found@.take(0) =~= seq![]);
    while i < found.len()
        invariant
            i <= found@.len(),
            out@.map_values(|m: AsrModelInfo| model_view(m)) == merge_all(start, found@.take(i as int)),
        decreases found@.len() - i,
    {
        let f = &found[i];
        let ghost before = out@.map_values(|m: AsrModelInfo| model_view(m));
        assert(found@.take(i + 1).drop_last() =~= found@.take(i as int));
        let mut j: usize = 0;
        let mut hit = false;
        while j < out.len() && !hit
            invariant
                j <= out@.len(),
                before == out@.map_values(|m: AsrModelInfo| model_view(m)),
                hit ==> j < out@.len() && out@[j as int].id@ == f.id@,
                find_id(before, f.id@, 0) == find_id(before, f.id@, j as int),
            decreases out@.len() - j + if hit { 0int } else { 1int },
        {
            if str_eq(out[j].id.as_str(), f.id.as_str()) {
                hit = true;
            } else {
                j += 1;
            }
        }
        if hit {
            assert(before[j as int] == model_view(out@[j as int]));
            assert(find_id(before, f.id@, 0) == j as int);
            out[j].user_placed = true;
            assert(out@.map_values(|m: AsrModelInfo| model_view(m)) =~= merge_one(before, f.id@, f.backend@, f.size_mb));
        } else {
            let langs = default_langs(f.backend.as_str());
            let id2 = f.id.clone();
            out.push(
                AsrModelInfo {
                    id: f.id.clone(),
                    name: id2,
                    backend: f.backend.clone(),
                    category: AsrModelCategory::Local,
                    size_mb: f.size_mb,
                    lang: langs,
                    url: String::new(),
                    sha256: String::new(),
                    requires_vad: false,
                    user_placed: true,
                    default_model_id: None,
                    requires_api_key: false,
                },
            );
            assert(out@.map_values(|m: AsrModelInfo| model_view(m)) =~= merge_one(before, f.id@, f.backend@, f.size_mb));
        }
        i += 1;
    }
    assert(found@.take(found@.len() as int) =~= found@);
    out
}

/// A found index lies in range and carries the id.
pub proof fn lemma_find_id_range(ms: Seq<(CatalogEntry, Seq<char>, bool)>, id: Seq<char>, from: int)
    ensures
        find_id(ms, id, from) == -1 || (from <= find_id(ms, id, from) < ms.len() && ms[find_id(
            ms,
            id,
            from,
        )].0.id == id),
    decreases ms.len() - from,
{
    if 0 <= from < ms.len() && ms[from].0.id != id {
        lemma_find_id_range(ms, id, from + 1);
    }
}

/// Law: merging found models keeps every catalogue entry's fields and
/// checksum in place, and afterwards each found model is listed and marked
/// as found on disk.
pub proof fn law_merge_lists_found(ms: Seq<(CatalogEntry, Seq<char>, bool)>, found: Seq<ScannedModel>)
    ensures
        merge_all(ms, found).len() >= ms.len(),
        forall|i: int|
            #![trigger merge_all(ms, found)[i]]
            0 <= i < ms.len() ==> merge_all(ms, found)[i].0 == ms[i].0 && merge_all(ms, found)[i].1
                == ms[i].1,
        forall|j: int|
            #![trigger found[j]]
            0 <= j < found.len() ==> exists|k: int|
                #![trigger merge_all(ms, found)[k]]
                0 <= k < merge_all(ms, found).len() && merge_all(ms, found)[k].0.id
                    == found[j].id@ && merge_all(ms, found)[k].2,
    decreases found.len(),
{
    if found.len() > 0 {
        let prev = merge_all(ms, found.drop_last());
        law_merge_lists_found(ms, found.drop_last());
        let f = found.last();
        let r = merge_all(ms, found);
        let k = find_id(prev, f.id@, 0);
        lemma_find_id_range(prev, f.id@, 0);
        assert forall|i: int| #![trigger r[i]] 0 <= i < ms.len() implies r[i].0 == ms[i].0 && r[i].1 == ms[i].1 by {
            assert(prev[i].0 == ms[i].0 && prev[i].1 == ms[i].1);
        }
        assert forall|j: int| #![trigger found[j]] 0 <= j < found.len() implies exists|m: int|
            #![trigger r[m]]
            0 <= m < r.len() && r[m].0.id == found[j].id@ && r[m].2 by {
            if j < found.len() - 1 {
                assert(found.drop_last()[j] == found[j]);
                let m = choose|m: int|
                    #![trigger prev[m]]
                    0 <= m < prev.len() && prev[m].0.id == found.drop_last()[j].id@ && prev[m].2;
                assert(r[m].0.id == found[j].id@ && r[m].2);
            } else if k >= 0 {
                assert(r[k].0.id == found[j].id@ && r[k].2);
            } else {
                assert(r[prev.len() as int].0.id == found[j].id@ && r[prev.len() as int].2);
            }
        }
    }
}

/// `Path::join`: `part` appended to `base` as a further component (or
/// replacing it when `part` is absolute).
pub uninterp spec fn path_join(base: Seq<char>, part: Seq<char>) -> Seq<char>;

/// `base` joined with `part`.
///
/// Trusted: calls `std::path::Path::join` on string paths; the joined path
/// is only named.
#[verifier::external_body]
pub(crate) fn join_path(base: &str, part: &str) -> (r: String)
    ensures
        r@ == path_join(base@, part@),
{
    std::path::Path::new(base).join(part).to_string_lossy().into_owned()
}

/// Manages the directory that holds downloaded and user-placed models.
#[derive(Debug, Clone)]
pub struct AsrModelManager {
    models_dir: String,
}

impl AsrModelManager {
    /// The models directory.
    pub closed spec fn dir(&self) -> Seq<char> {
        self.models_dir@
    }

    /// A manager for the models under `models_dir`.
    pub fn new(models_dir: String) -> (r: Self)
        ensures
            r.dir() == models_dir@,
    {
        AsrModelManager { models_dir }
    }

    /// The directory of model `model_id` (download target or user-placed
    /// directory).
    pub fn model_dir(&self, model_id: &str) -> (r: String)
        ensures
            r@ == path_join(self.dir(), model_id@),
    {
        join_path(self.models_dir.as_str(), model_id)
    }

    /// The models directory.
    pub fn models_dir(&self) -> (r: &str)
        ensures
            r@ == self.dir(),
    {
        self.models_dir.as_str()
    }
}

/// The built-in entry with the given id, if any (the first such entry).
pub fn builtin_model(model_id: &str) -> (r: Option<AsrModelInfo>)
    ensures
        match r {
            Some(m) => {
                let k = find_id(
                    builtin_catalog_spec().map_values(|e: CatalogEntry| (e, Seq::<char>::empty(), false)),
                    model_id@,
                    0,
                );
                k >= 0 && entry_of(m) == builtin_catalog_spec()[k] && m.sha256@.len() == 0 && !m.user_placed
            },
            None => find_id(
                builtin_catalog_spec().map_values(|e: CatalogEntry| (e, Seq::<char>::empty(), false)),
                model_id@,
                0,
            ) == -1,
        },
{
    let mut all = builtin_catalog();
    let ghost views = all@.map_values(|m: AsrModelInfo| model_view(m));
    let ghost spec_views = builtin_catalog_spec().map_values(
        |e: CatalogEntry| (e, Seq::<char>::empty(), false),
    );
    assert forall|i: int| 0 <= i < views.len() implies #[trigger] views[i] == spec_views[i] by {
        assert(all@[i].sha256@ =~= Seq::<char>::empty());
        assert(all@.map_values(|m: AsrModelInfo| entry_of(m))[i] == entry_of(all@[i]));
    }
    assert(views =~= spec_views);
    let mut j: usize = 0;
    let mut hit = false;
    while j < all.len() && !hit
        invariant
            j <= all@.len(),
            views == all@.map_values(|m: AsrModelInfo| model_view(m)),
            hit ==> j < all@.len() && all@[j as int].id@ == model_id@,
            find_id(views, model_id@, 0) == find_id(views, model_id@, j as int),
        decreases all@.len() - j + if hit { 0int } else { 1int },
    {
        if str_eq(all[j].id.as_str(), model_id) {
            hit = true;
        } else {
            j += 1;
        }
    }
    if hit {
        assert(views[j as int] == model_view(all@[j as int]));
        assert(find_id(views, model_id@, 0) == j as int);
        let m = all.remove(j);
        return Some(m);
    }
    None
}

/// A file inside a model directory: its name and how many directories
/// below the model directory it lies (0 for the model directory itself).
#[derive(Debug, Clone)]
pub struct ModelFile {
    pub name: String,
    pub depth: usize,
}

/// Some file lies fewer than `depth` levels down and is named like one of
/// the candidates.
pub open spec fn has_candidate(files: Seq<ModelFile>, candidates: Seq<Seq<char>>, depth: int) -> bool {
    exists|i: int|
        #![trigger files[i]]
        0 <= i < files.len() && files[i].depth < depth && candidates.contains(files[i].name@)
}

/// File names that mark a sherpa-onnx model.
pub open spec fn sherpa_markers() -> Seq<Seq<char>> {
    seq!["model.int8.onnx"@, "model.onnx"@, "model_quant.onnx"@, "tokens.txt"@]
}

/// File names that mark a Vosk model.
pub open spec fn vosk_markers() -> Seq<Seq<char>> {
    seq!["conf/model.conf"@, "am/final.mdl"@]
}

/// The backend a model directory belongs to, judged by its files:
/// sherpa-onnx files up to three levels down win over Vosk files up to two
/// levels down.
pub open spec fn backend_of_files(files: Seq<ModelFile>) -> Option<Seq<char>> {
    if has_candidate(files, sherpa_markers(), 3) {
        Some("SherpaOnnx"@)
    } else if has_candidate(files, vosk_markers(), 2) {
        Some("Vosk"@)
    } else {
        None
    }
}

/// Whether some file fewer than `depth` levels down has one of the
/// candidate names.
pub fn walk_has(files: &Vec<ModelFile>, candidates: &[&str], depth: usize) -> (r: bool)
    ensures
        r == has_candidate(files@, candidates@.map_values(|c: &str| c@), depth as int),
{
    let ghost cs = candidates@.map_values(|c: &str| c@);
    let mut i: usize = 0;
    while i < files.len()
        invariant
            i <= files@.len(),
            cs == candidates@.map_values(|c: &str| c@),
            forall|k: int|
                #![trigger files@[k]]
                0 <= k < i ==> !(files@[k].depth < depth && cs.contains(files@[k].name@)),
        decreases files@.len() - i,
    {
        let f = &files[i];
        if f.depth < depth {
            let mut j: usize = 0;
            while j < candidates.len()
                invariant
                    j <= candidates@.len(),
                    i < files@.len(),
                    f.depth < depth,
                    cs == candidates@.map_values(|c: &str| c@),
                    *f == files@[i as int],
                    forall|m: int| 0 <= m < j ==> cs[m] != f.name@,
                decreases candidates@.len() - j,
            {
                if str_eq(f.name.as_str(), candidates[j]) {
                    assert(cs[j as int] == f.name@);
                    assert(files@[i as int].depth < depth && cs.contains(files@[i as int].name@));
                    return true;
                }
                j += 1;
            }
            assert(!cs.contains(f.name@));
        }
        i += 1;
    }
    false
}

/// The backend of a model directory, from the files found in it (`None`
/// when it holds no recognised model file).
pub fn detect_backend(files: &Vec<ModelFile>) -> (r: Option<String>)
    ensures
        match r {
            Some(b) => backend_of_files(files@) == Some(b@),
            None => backend_of_files(files@) is None,
        },
{
    let sherpa: [&str; 4] = ["model.int8.onnx", "model.onnx", "model_quant.onnx", "tokens.txt"];
    let vosk: [&str; 2] = ["conf/model.conf", "am/final.mdl"];
    let is_sherpa = walk_has(files, &sherpa, 3);
    assert(sherpa@.map_values(|c: &str| c@) =~= sherpa_markers());
    if is_sherpa {
        return Some(owned("SherpaOnnx"));
    }
    let is_vosk = walk_has(files, &vosk, 2);
    assert(vosk@.map_values(|c: &str| c@) =~= vosk_markers());
    if is_vosk {
        Some(owned("Vosk"))
    } else {
        None
    }
}

/// A directory's size in whole megabytes (MiB), rounded up.
pub fn dir_size_mb_of(total_bytes: u64) -> (r: u64)
    ensures
        r as int == (total_bytes as int + 1048575) / 1048576,
{
    let q = total_bytes / 1048576;
    if total_bytes % 1048576 == 0 {
        q
    } else {
        q + 1
    }
}

/// The SHA-256 digest of some bytes.
pub uninterp spec fn sha256_digest(bytes: Seq<u8>) -> Seq<u8>;

/// The SHA-256 digest of `bytes`.
///
/// Trusted: calls `sha2::Sha256::digest`; the digest is only named, and it
/// is 32 bytes long.
#[verifier::external_body]
fn sha256_of(bytes: &[u8]) -> (r: Vec<u8>)
    ensures
        r@ == sha256_digest(bytes@),
        r@.len() == 32,
{
    sha2::Sha256::digest(bytes).to_vec()
}

/// Bytes in lowercase hexadecimal, two digits each.
pub open spec fn hex_of_bytes(bs: Seq<u8>) -> Seq<char>
    decreases bs.len(),
{
    if bs.len() == 0 {
        Seq::empty()
    } else {
        hex_of_bytes(bs.drop_last()) + seq![hex_digit((bs.last() / 16) as nat), hex_digit((bs.last() % 16) as nat)]
    }
}

/// Why a model could not be downloaded.
#[derive(Debug, Clone, PartialEq, Eq)]
pub enum DownloadError {
    /// No built-in model has that id.
    UnknownModel(String),
    /// The downloaded archive does not have the listed checksum.
    ChecksumMismatch,
}

impl DownloadError {
    /// The message shown for the error.
    pub fn message(&self) -> (r: String)
        ensures
            r@ == match self {
                DownloadError::UnknownModel(id) => "未知模型: "@ + id@,
                DownloadError::ChecksumMismatch => "模型校验和不匹配（下载可能损坏），请重试"@,
            },
    {
        match self {
            DownloadError::UnknownModel(id) => {
                let mut v = crate::text::chars_of("未知模型: ");
                crate::text::extend_chars(&mut v, &crate::text::chars_of(id.as_str()));
                crate::text::string_from(&v)
            },
            DownloadError::ChecksumMismatch => owned("模型校验和不匹配（下载可能损坏），请重试"),
        }
    }
}

/// The hexadecimal SHA-256 of `bytes`.
pub fn sha256_hex(bytes: &[u8]) -> (r: String)
    ensures
        r@ == hex_of_bytes(sha256_digest(bytes@)),
{
    let d = sha256_of(bytes);
    let mut out: Vec<char> = Vec::new();
    let mut i: usize = 0;
    while i < d.len()
        invariant
            i <= d@.len(),
            out@ == hex_of_bytes(d@.take(i as int)),
        decreases d@.len() - i,
    {
        assert(d@.take(i + 1).drop_last() =~= d@.take(i as int));
        let b = d[i];
        out.push(hex_digit_of((b / 16) as u64));
        out.push(hex_digit_of((b % 16) as u64));
        i += 1;
    }
    assert(d@.take(d@.len() as int) =~= d@);
    crate::text::string_from(&out)
}

/// Checks a downloaded archive against the catalogue's checksum (none to
/// check when the catalogue lists none).
pub fn verify_download(bytes: &[u8], expected_sha256: &str) -> (r: Result<(), DownloadError>)
    ensures
        r is Ok <==> (expected_sha256@.len() == 0 || hex_of_bytes(sha256_digest(bytes@)) == expected_sha256@),
        r is Err ==> r == Err::<(), DownloadError>(DownloadError::ChecksumMismatch),
{
    if expected_sha256.is_empty() {
        return Ok(());
    }
    let actual = sha256_hex(bytes);
    if str_eq(actual.as_str(), expected_sha256) {
        Ok(())
    } else {
        Err(DownloadError::ChecksumMismatch)
    }
}

/// The position of the built-in entry with the given id, or -1.
pub open spec fn builtin_index(model_id: Seq<char>) -> int {
    find_id(builtin_catalog_spec().map_values(|e: CatalogEntry| (e, Seq::<char>::empty(), false)), model_id, 0)
}

/// The catalogue entry of a model to download.
pub fn download_entry(model_id: &str) -> (r: Result<AsrModelInfo, DownloadError>)
    ensures
        match r {
            Ok(m) => builtin_index(model_id@) >= 0 && entry_of(m) == builtin_catalog_spec()[builtin_index(model_id@)]
                && m.sha256@.len() == 0 && !m.user_placed,
            Err(e) => builtin_index(model_id@) == -1 && (e matches DownloadError::UnknownModel(id) && id@ == model_id@),
        },
{
    match builtin_model(model_id) {
        Some(m) => Ok(m),
        None => Err(DownloadError::UnknownModel(owned(model_id))),
    }
}

} // verus!
