//! Recognition backends: their settings, readiness checks, endpoint
//! addresses, and the handling of the events their servers stream back.
//!
//! Connections, audio streaming and model inference are run by the caller,
//! which hands each text frame a server sends to the frame decoders here;
//! the decoded event then goes to the step functions, which say what
//! segment (if any) to report and how the session moves on.
use vstd::prelude::*;

use crate::asr::{kind_display, kind_languages, AsrError, AsrKind};
use crate::json::{
    bool_at, flag_at, is_json, is_object_at, json_at, number_at, str_at, string_at, u64_at, JsonFieldView,
};
use crate::text::{
    chars_of, contains_str, contains_sub, extend_chars, join_with, owned, replace_all,
    replace_str, string_from, string_views, parse_unsigned, parsed_unsigned,
};

verus! {

/// Settings of a backend (from the stored recogniser configuration).
#[derive(Debug, Clone)]
pub struct AsrBackendConfig {
    /// Built-in kind, or `Custom` for any other name.
    pub kind: AsrKind,
    /// The kind as the user wrote it (matched exactly against registrations).
    pub kind_raw: String,
    pub base_url: Option<String>,
    pub api_key: Option<String>,
    pub model: Option<String>,
    pub lang: Option<String>,
    /// Local model directory (for on-device backends).
    pub model_path: Option<String>,
}

/// The text of an optional setting, or the default.
pub open spec fn setting_or(o: Option<String>, d: Seq<char>) -> Seq<char> {
    match o {
        Some(s) => s@,
        None => d,
    }
}

/// The configured language alone, or the kind's languages.
pub open spec fn langs_or(lang: Option<String>, k: AsrKind) -> Seq<Seq<char>> {
    match lang {
        Some(l) => seq![l@],
        None => kind_languages(k),
    }
}

/// An optional setting, or the default.
fn setting(o: &Option<String>, d: &str) -> (r: String)
    ensures
        r@ == setting_or(*o, d@),
{
    proof {
        reveal_strlit("");
    }
    match o {
        Some(s) => s.clone(),
        None => owned(d),
    }
}

/// The configured language alone, or the kind's languages.
fn languages_for(lang: &Option<String>, k: AsrKind) -> (r: Vec<String>)
    ensures
        string_views(r@) == langs_or(*lang, k),
{
    match lang {
        Some(l) => {
            let mut v: Vec<String> = Vec::new();
            v.push(l.clone());
            assert(string_views(v@) =~= seq![l@]);
            v
        },
        None => k.languages(),
    }
}

/// OpenAI-compatible chat endpoint with inline audio (MiMo or custom).
#[derive(Debug, Clone)]
pub struct OpenAiCompatibleBackend {
    pub base_url: String,
    pub api_key: String,
    pub model: String,
    /// Send the key in an `api-key` header (MiMo's own endpoint) rather than
    /// as a bearer token.
    pub use_api_key_header: bool,
    pub langs: Vec<String>,
}

impl OpenAiCompatibleBackend {
    /// Settings with defaults: MiMo's endpoint and model, MiMo's languages.
    pub fn new(cfg: &AsrBackendConfig) -> (r: Self)
        ensures
            r.base_url@ == setting_or(cfg.base_url, "https://api.xiaomimimo.com/v1"@),
            r.api_key@ == setting_or(cfg.api_key, seq![]),
            r.model@ == setting_or(cfg.model, "mimo-v2.5-asr"@),
            r.use_api_key_header == match cfg.base_url {
                Some(u) => contains_sub(u@, "xiaomi"@),
                None => false,
            },
            string_views(r.langs@) == langs_or(cfg.lang, AsrKind::MiMoHttp),
    {
        proof {
            reveal_strlit("");
        }
        let use_api_key_header = match &cfg.base_url {
            Some(u) => contains_str(u.as_str(), "xiaomi"),
            None => false,
        };
        OpenAiCompatibleBackend {
            base_url: setting(&cfg.base_url, "https://api.xiaomimimo.com/v1"),
            api_key: setting(&cfg.api_key, ""),
            model: setting(&cfg.model, "mimo-v2.5-asr"),
            use_api_key_header,
            langs: languages_for(&cfg.lang, AsrKind::MiMoHttp),
        }
    }

    /// The kind this backend reports.
    pub fn kind(&self) -> (k: AsrKind)
        ensures
            k == AsrKind::MiMoHttp,
    {
        AsrKind::MiMoHttp
    }
}

/// OpenAI Whisper transcription endpoint (multipart upload).
#[derive(Debug, Clone)]
pub struct WhisperApiBackend {
    pub base_url: String,
    pub api_key: String,
    pub model: String,
    pub langs: Vec<String>,
}

impl WhisperApiBackend {
    /// Settings with defaults: OpenAI's endpoint, `whisper-1`.
    pub fn new(cfg: &AsrBackendConfig) -> (r: Self)
        ensures
            r.base_url@ == setting_or(cfg.base_url, "https://api.openai.com/v1"@),
            r.api_key@ == setting_or(cfg.api_key, seq![]),
            r.model@ == setting_or(cfg.model, "whisper-1"@),
            string_views(r.langs@) == langs_or(cfg.lang, AsrKind::WhisperApi),
    {
        proof {
            reveal_strlit("");
        }
        WhisperApiBackend {
            base_url: setting(&cfg.base_url, "https://api.openai.com/v1"),
            api_key: setting(&cfg.api_key, ""),
            model: setting(&cfg.model, "whisper-1"),
            langs: languages_for(&cfg.lang, AsrKind::WhisperApi),
        }
    }

    /// The kind this backend reports.
    pub fn kind(&self) -> (k: AsrKind)
        ensures
            k == AsrKind::WhisperApi,
    {
        AsrKind::WhisperApi
    }
}

/// DashScope FunASR real-time recognition over a duplex WebSocket.
#[derive(Debug, Clone)]
pub struct DashScopeFunasrBackend {
    pub api_key: String,
    pub model: String,
    pub langs: Vec<String>,
}

impl DashScopeFunasrBackend {
    /// Settings with defaults: `fun-asr-realtime`, Chinese.
    pub fn new(cfg: &AsrBackendConfig) -> (r: Self)
        ensures
            r.api_key@ == setting_or(cfg.api_key, seq![]),
            r.model@ == setting_or(cfg.model, "fun-asr-realtime"@),
            string_views(r.langs@) == seq!["zh"@],
    {
        proof {
            reveal_strlit("");
        }
        let mut langs: Vec<String> = Vec::new();
        langs.push(owned("zh"));
        assert(string_views(langs@) =~= seq!["zh"@]);
        DashScopeFunasrBackend {
            api_key: setting(&cfg.api_key, ""),
            model: setting(&cfg.model, "fun-asr-realtime"),
            langs,
        }
    }

    /// The kind this backend reports.
    pub fn kind(&self) -> (k: AsrKind)
        ensures
            k == AsrKind::DashScopeFunasr,
    {
        AsrKind::DashScopeFunasr
    }

    /// Readiness: a key must be configured (the socket cannot be probed).
    pub fn health_check(&self) -> (r: Result<(), AsrError>)
        ensures
            r is Ok <==> self.api_key@.len() > 0,
            r is Err ==> r matches Err(AsrError::Unauthorized),
    {
        if self.api_key.as_str().is_empty() {
            Err(AsrError::Unauthorized)
        } else {
            Ok(())
        }
    }
}

/// A local FunASR server over WebSocket.
#[derive(Debug, Clone)]
pub struct LocalFunasrWsBackend {
    pub base_url: String,
    pub langs: Vec<String>,
}

impl LocalFunasrWsBackend {
    /// Settings with defaults: `ws://localhost:10095`, Chinese.
    pub fn new(cfg: &AsrBackendConfig) -> (r: Self)
        ensures
            r.base_url@ == setting_or(cfg.base_url, "ws://localhost:10095"@),
            string_views(r.langs@) == seq!["zh"@],
    {
        let mut langs: Vec<String> = Vec::new();
        langs.push(owned("zh"));
        assert(string_views(langs@) =~= seq!["zh"@]);
        LocalFunasrWsBackend { base_url: setting(&cfg.base_url, "ws://localhost:10095"), langs }
    }

    /// The kind this backend reports.
    pub fn kind(&self) -> (k: AsrKind)
        ensures
            k == AsrKind::LocalFunasrWs,
    {
        AsrKind::LocalFunasrWs
    }
}

/// On-device SenseVoice recognition (with optional Silero VAD).
#[derive(Debug, Clone)]
pub struct SherpaOnnxBackend {
    pub model_path: Option<String>,
    pub langs: Vec<String>,
}

/// The file names looked for as the recognition model.
pub open spec fn sherpa_model_names() -> Seq<Seq<char>> {
    seq!["model.int8.onnx"@, "model.onnx"@, "model_quant.onnx"@]
}

/// The file names looked for as the token table.
pub open spec fn sherpa_token_names() -> Seq<Seq<char>> {
    seq!["tokens.txt"@, "tokens.json"@]
}

/// The outcome of resolving a SenseVoice model directory, given whether it
/// exists and which model, token and VAD files were found in it.
pub open spec fn sherpa_resolution(
    model_path: Option<String>,
    dir_exists: bool,
    model: Option<Seq<char>>,
    tokens: Option<Seq<char>>,
    vad: Option<Seq<char>>,
) -> Result<(Seq<char>, Seq<char>, Option<Seq<char>>), Seq<char>> {
    match model_path {
        None => Err("SherpaOnnx 未配置模型路径（model_path）"@),
        Some(p) => if !dir_exists {
            Err("模型目录不存在: "@ + p@)
        } else {
            match model {
                None => Err("模型目录中未找到 model.onnx/model.int8.onnx（"@ + p@ + "）"@),
                Some(m) => match tokens {
                    None => Err("模型目录中未找到 tokens.txt/tokens.json（"@ + p@ + "）"@),
                    Some(t) => Ok((m, t, vad)),
                },
            }
        },
    }
}

impl SherpaOnnxBackend {
    /// Settings: the configured model directory, languages or the kind's.
    pub fn new(cfg: &AsrBackendConfig) -> (r: Self)
        ensures
            r.model_path == cfg.model_path,
            string_views(r.langs@) == langs_or(cfg.lang, AsrKind::SherpaOnnx),
    {
        SherpaOnnxBackend {
            model_path: cfg.model_path.clone(),
            langs: languages_for(&cfg.lang, AsrKind::SherpaOnnx),
        }
    }

    /// The kind this backend reports.
    pub fn kind(&self) -> (k: AsrKind)
        ensures
            k == AsrKind::SherpaOnnx,
    {
        AsrKind::SherpaOnnx
    }

    /// Resolves the model, token and VAD files, given whether the configured
    /// directory exists and what the search of it found (first match of
    /// [`sherpa_model_names`], of [`sherpa_token_names`], and of
    /// `silero_vad.onnx`); refuses with a missing-model error otherwise.
    pub fn resolve(
        &self,
        dir_exists: bool,
        model: Option<String>,
        tokens: Option<String>,
        vad: Option<String>,
    ) -> (r: Result<(String, String, Option<String>), AsrError>)
        ensures
            match sherpa_resolution(
                self.model_path,
                dir_exists,
                match model {
                    Some(m) => Some(m@),
                    None => None,
                },
                match tokens {
                    Some(t) => Some(t@),
                    None => None,
                },
                match vad {
                    Some(v) => Some(v@),
                    None => None,
                },
            ) {
                Ok(found) => r matches Ok(f) && f.0@ == found.0 && f.1@ == found.1 && match f.2 {
                    Some(v) => found.2 == Some(v@),
                    None => found.2 is None,
                },
                Err(msg) => r matches Err(AsrError::ModelNotFound(m)) && m@ == msg,
            },
    {
        match &self.model_path {
            None => Err(AsrError::ModelNotFound(owned("SherpaOnnx 未配置模型路径（model_path）"))),
            Some(p) => {
                if !dir_exists {
                    let mut out = chars_of("模型目录不存在: ");
                    extend_chars(&mut out, &chars_of(p.as_str()));
                    return Err(AsrError::ModelNotFound(string_from(&out)));
                }
                match model {
                    None => {
                        let mut out = chars_of("模型目录中未找到 model.onnx/model.int8.onnx（");
                        extend_chars(&mut out, &chars_of(p.as_str()));
                        extend_chars(&mut out, &chars_of("）"));
                        Err(AsrError::ModelNotFound(string_from(&out)))
                    },
                    Some(m) => match tokens {
                        None => {
                            let mut out = chars_of("模型目录中未找到 tokens.txt/tokens.json（");
                            extend_chars(&mut out, &chars_of(p.as_str()));
                            extend_chars(&mut out, &chars_of("）"));
                            Err(AsrError::ModelNotFound(string_from(&out)))
                        },
                        Some(t) => Ok((m, t, vad)),
                    },
                }
            },
        }
    }
}

/// Skeleton for on-device engines that are not linked in (Sherpa, Vosk):
/// it checks the model directory and then reports that inference is missing.
#[derive(Debug, Clone)]
pub struct LocalNativeBackend {
    pub kind: AsrKind,
    pub model_path: Option<String>,
    pub langs: Vec<String>,
    /// Files of which at least one must be present under the model directory.
    pub expected: Vec<String>,
}

/// The readiness verdict of a local engine, given whether its directory
/// exists and whether one of the expected files was found under it.
pub open spec fn native_readiness(
    kind: AsrKind,
    model_path: Option<String>,
    expected: Seq<Seq<char>>,
    dir_exists: bool,
    found: bool,
) -> Option<Seq<char>> {
    match model_path {
        None => Some(kind_display(kind) + " 未配置模型路径，请在配置中指定 model_path（或先下载模型）"@),
        Some(p) => if !dir_exists {
            Some("模型目录不存在: "@ + p@)
        } else if !found {
            Some(kind_display(kind) + " 目录中未找到模型文件（期望: "@ + join_with(expected, " / "@)
                + "），可能下载不完整"@)
        } else {
            None
        },
    }
}

impl LocalNativeBackend {
    /// A SenseVoice skeleton expecting a model or token file.
    pub fn sherpa(cfg: &AsrBackendConfig) -> (r: Self)
        ensures
            r.kind == AsrKind::SherpaOnnx,
            r.model_path == cfg.model_path,
            string_views(r.langs@) == langs_or(cfg.lang, AsrKind::SherpaOnnx),
            string_views(r.expected@) == seq!["model.int8.onnx"@, "model.onnx"@, "model_quant.onnx"@, "tokens.txt"@],
    {
        let expected = crate::asr::strings_of_strs(&["model.int8.onnx", "model.onnx", "model_quant.onnx", "tokens.txt"]);
        LocalNativeBackend {
            kind: AsrKind::SherpaOnnx,
            model_path: cfg.model_path.clone(),
            langs: languages_for(&cfg.lang, AsrKind::SherpaOnnx),
            expected,
        }
    }

    /// A Vosk skeleton expecting its model configuration or acoustic model.
    pub fn vosk(cfg: &AsrBackendConfig) -> (r: Self)
        ensures
            r.kind == AsrKind::Vosk,
            r.model_path == cfg.model_path,
            string_views(r.langs@) == langs_or(cfg.lang, AsrKind::Vosk),
            string_views(r.expected@) == seq!["conf/model.conf"@, "am/final.mdl"@],
    {
        let expected = crate::asr::strings_of_strs(&["conf/model.conf", "am/final.mdl"]);
        LocalNativeBackend {
            kind: AsrKind::Vosk,
            model_path: cfg.model_path.clone(),
            langs: languages_for(&cfg.lang, AsrKind::Vosk),
            expected,
        }
    }

    /// Checks the model directory, given whether it exists and whether one of
    /// the expected files was found under it.
    pub fn check_ready(&self, dir_exists: bool, found: bool) -> (r: Result<(), AsrError>)
        ensures
            match native_readiness(self.kind, self.model_path, string_views(self.expected@), dir_exists, found) {
                None => r is Ok,
                Some(msg) => r matches Err(AsrError::ModelNotFound(m)) && m@ == msg,
            },
    {
        match &self.model_path {
            None => {
                let mut out = chars_of(self.kind.display_name());
                extend_chars(&mut out, &chars_of(" 未配置模型路径，请在配置中指定 model_path（或先下载模型）"));
                Err(AsrError::ModelNotFound(string_from(&out)))
            },
            Some(p) => {
                if !dir_exists {
                    let mut out = chars_of("模型目录不存在: ");
                    extend_chars(&mut out, &chars_of(p.as_str()));
                    Err(AsrError::ModelNotFound(string_from(&out)))
                } else if !found {
                    let mut out = chars_of(self.kind.display_name());
                    extend_chars(&mut out, &chars_of(" 目录中未找到模型文件（期望: "));
                    extend_chars(&mut out, &crate::text::join_strings(&self.expected, " / "));
                    extend_chars(&mut out, &chars_of("），可能下载不完整"));
                    Err(AsrError::ModelNotFound(string_from(&out)))
                } else {
                    Ok(())
                }
            },
        }
    }
}

/// Azure Speech conversation transcription over WebSocket (with speaker
/// identification).
#[derive(Debug, Clone)]
pub struct AzureSpeechBackend {
    pub base_url: String,
    pub api_key: String,
    pub langs: Vec<String>,
}

/// `s` without trailing `/` characters.
pub open spec fn trim_end_slashes(s: Seq<char>) -> Seq<char>
    decreases s.len(),
{
    if s.len() > 0 && s.last() == '/' {
        trim_end_slashes(s.drop_last())
    } else {
        s
    }
}

/// The recognition socket address for a base URL and language.
pub open spec fn azure_socket_url(base_url: Seq<char>, lang: Seq<char>) -> Seq<char> {
    replace_all(trim_end_slashes(base_url), "https://"@, "wss://"@)
        + "/speech/recognition/conversation/cognitiveservices/v1?language="@ + lang
        + "&format=detailed&profanity=raw"@
}

/// The verdict of the Azure readiness check.
pub open spec fn azure_health(api_key: Seq<char>, base_url: Seq<char>) -> Result<(), Option<Seq<char>>> {
    if api_key.len() == 0 {
        Err(None)
    } else if !contains_sub(base_url, ".stt.speech.microsoft.com"@) {
        Err(Some("base_url 应为 https://{region}.stt.speech.microsoft.com"@))
    } else {
        Ok(())
    }
}

impl AzureSpeechBackend {
    /// Settings with defaults: the East Asia endpoint, Azure's languages.
    pub fn new(cfg: &AsrBackendConfig) -> (r: Self)
        ensures
            r.base_url@ == setting_or(cfg.base_url, "https://eastasia.stt.speech.microsoft.com"@),
            r.api_key@ == setting_or(cfg.api_key, seq![]),
            string_views(r.langs@) == langs_or(cfg.lang, AsrKind::AzureSpeech),
    {
        proof {
            reveal_strlit("");
        }
        AzureSpeechBackend {
            base_url: setting(&cfg.base_url, "https://eastasia.stt.speech.microsoft.com"),
            api_key: setting(&cfg.api_key, ""),
            langs: languages_for(&cfg.lang, AsrKind::AzureSpeech),
        }
    }

    /// The kind this backend reports.
    pub fn kind(&self) -> (k: AsrKind)
        ensures
            k == AsrKind::AzureSpeech,
    {
        AsrKind::AzureSpeech
    }

    /// Readiness: a key is set and the address is a regional speech endpoint.
    pub fn health_check(&self) -> (r: Result<(), AsrError>)
        ensures
            match azure_health(self.api_key@, self.base_url@) {
                Ok(()) => r is Ok,
                Err(None) => r matches Err(AsrError::Unauthorized),
                Err(Some(msg)) => r matches Err(AsrError::Protocol(m)) && m@ == msg,
            },
    {
        if self.api_key.as_str().is_empty() {
            return Err(AsrError::Unauthorized);
        }
        if !contains_str(self.base_url.as_str(), ".stt.speech.microsoft.com") {
            return Err(AsrError::Protocol(owned("base_url 应为 https://{region}.stt.speech.microsoft.com")));
        }
        Ok(())
    }

    /// The language recognised: the first configured one, else `zh-CN`.
    pub fn session_language(&self) -> (r: String)
        ensures
            r@ == if self.langs@.len() > 0 { self.langs@[0]@ } else { "zh-CN"@ },
    {
        if self.langs.len() > 0 {
            self.langs[0].clone()
        } else {
            owned("zh-CN")
        }
    }

    /// The socket address for recognising `lang`.
    pub fn socket_url(&self, lang: &str) -> (r: String)
        ensures
            r@ == azure_socket_url(self.base_url@, lang@),
    {
        let cs = chars_of(self.base_url.as_str());
        let mut hi = cs.len();
        assert(cs@.take(cs@.len() as int) =~= cs@);
        while hi > 0 && cs[hi - 1] == '/'
            invariant
                hi <= cs@.len(),
                trim_end_slashes(cs@) == trim_end_slashes(cs@.take(hi as int)),
            decreases hi,
        {
            assert(cs@.take(hi as int).drop_last() =~= cs@.take(hi - 1));
            hi -= 1;
        }
        assert(cs@.take(cs@.len() as int) =~= cs@);
        let trimmed_url = crate::text::string_of(&cs, 0, hi);
        assert(cs@.subrange(0, hi as int) =~= cs@.take(hi as int));
        proof {
            reveal_strlit("https://");
        }
        let swapped = replace_str(trimmed_url.as_str(), "https://", "wss://");
        let mut out = chars_of(swapped.as_str());
        extend_chars(&mut out, &chars_of("/speech/recognition/conversation/cognitiveservices/v1?language="));
        extend_chars(&mut out, &chars_of(lang));
        extend_chars(&mut out, &chars_of("&format=detailed&profanity=raw"));
        string_from(&out)
    }
}

/// A recognised segment, as the backends report it (the caller adds the
/// language and confidence fields).
#[derive(Debug, Clone, PartialEq, Eq)]
pub struct RecognizedSegment {
    pub index: u64,
    pub text: String,
    /// `false` for an interim result that will still be revised.
    pub is_final: bool,
    pub start_ms: u64,
    pub end_ms: u64,
    pub speaker_id: Option<u32>,
}

/// One decoded Azure event: its type, text, offset and duration (in 100 ns
/// ticks), speaker and, for phrase results, the display text.
#[derive(Debug, Clone)]
pub struct AzureEvent {
    pub event_type: String,
    pub text: Option<String>,
    pub offset: Option<u64>,
    pub duration: Option<u64>,
    pub speaker_id: Option<u32>,
    pub display_text: Option<String>,
}

/// What an Azure event yields: the segment to report (if any), the next
/// segment index, and whether the session ends.
pub open spec fn azure_step(index: u64, e: AzureEvent) -> (Option<(u64, Seq<char>, bool, u64, u64, Option<u32>)>, u64, bool) {
    let t = setting_or(e.text, seq![]);
    let offset_ms = match e.offset {
        Some(o) => o / 10000,
        None => 0,
    };
    if e.event_type@ == "speechHypothesis"@ {
        if t.len() > 0 {
            (Some((index, t, false, offset_ms, 0u64, None)), index, false)
        } else {
            (None, index, false)
        }
    } else if e.event_type@ == "speechFragment"@ {
        if t.len() > 0 {
            let dur_ms = match e.duration {
                Some(d) => d / 10000,
                None => 0,
            };
            (Some((index, t, true, offset_ms, dur_ms, e.speaker_id)), (index + 1) as u64, false)
        } else {
            (None, index, false)
        }
    } else if e.event_type@ == "speech.endDetected"@ || e.event_type@ == "turn.end"@ {
        (None, index, true)
    } else if e.event_type@ == "speech.phrase"@ {
        let d = setting_or(e.display_text, seq![]);
        if d.len() > 0 {
            (Some((index, d, true, 0u64, 0u64, None)), (index + 1) as u64, true)
        } else {
            (None, index, true)
        }
    } else {
        (None, index, false)
    }
}

/// The plain values of a segment.
pub open spec fn segment_view(s: RecognizedSegment) -> (u64, Seq<char>, bool, u64, u64, Option<u32>) {
    (s.index, s.text@, s.is_final, s.start_ms, s.end_ms, s.speaker_id)
}

/// Handles one Azure event: interim hypotheses and final fragments (with
/// speaker) become segments, a phrase result becomes a final segment and
/// ends the session, end-of-speech ends it.
pub fn azure_event(index: u64, event: &AzureEvent) -> (r: (Option<RecognizedSegment>, u64, bool))
    requires
        index < u64::MAX,
    ensures
        ({
            let (seg, next, done) = azure_step(index, *event);
            &&& r.1 == next
            &&& r.2 == done
            &&& match seg {
                Some(s) => r.0 matches Some(x) && segment_view(x) == s,
                None => r.0 is None,
            }
        }),
{
    proof {
        reveal_strlit("");
    }
    let t = setting(&event.text, "");
    let offset_ms = match event.offset {
        Some(o) => o / 10000,
        None => 0,
    };
    let ty = event.event_type.as_str();
    if crate::text::str_eq(ty, "speechHypothesis") {
        if !t.as_str().is_empty() {
            return (
                Some(RecognizedSegment { index, text: t, is_final: false, start_ms: offset_ms, end_ms: 0, speaker_id: None }),
                index,
                false,
            );
        }
        return (None, index, false);
    }
    if crate::text::str_eq(ty, "speechFragment") {
        if !t.as_str().is_empty() {
            let dur_ms = match event.duration {
                Some(d) => d / 10000,
                None => 0,
            };
            return (
                Some(RecognizedSegment {
                    index,
                    text: t,
                    is_final: true,
                    start_ms: offset_ms,
                    end_ms: dur_ms,
                    speaker_id: event.speaker_id,
                }),
                index + 1,
                false,
            );
        }
        return (None, index, false);
    }
    if crate::text::str_eq(ty, "speech.endDetected") || crate::text::str_eq(ty, "turn.end") {
        return (None, index, true);
    }
    if crate::text::str_eq(ty, "speech.phrase") {
        let d = setting(&event.display_text, "");
        if !d.as_str().is_empty() {
            return (
                Some(RecognizedSegment { index, text: d, is_final: true, start_ms: 0, end_ms: 0, speaker_id: None }),
                index + 1,
                true,
            );
        }
        return (None, index, true);
    }
    (None, index, false)
}

/// One decoded DashScope event: its name and, for results, the sentence
/// text, whether the sentence ended, and the speaker number (the label as
/// sent, read as a number).
#[derive(Debug, Clone)]
pub struct DashScopeEvent {
    pub event: String,
    pub text: String,
    pub sentence_end: bool,
    pub speaker_id: Option<u32>,
}

/// Progress of a DashScope session: next segment index, whether the task
/// has started (audio may be sent), whether it has finished.
#[derive(Debug, Clone, Copy, PartialEq, Eq, Structural)]
pub struct DashScopeSession {
    pub index: u64,
    pub started: bool,
    pub finished: bool,
}

/// What a DashScope event does: the new session state, the segment to
/// report (if any), and the status to show (if any; `None` inside
/// `Some(None)` stands for the raw event text after `ASR 错误: `).
pub open spec fn dashscope_step(s: DashScopeSession, e: DashScopeEvent) -> (DashScopeSession, Option<(u64, Seq<char>, bool, u64, u64, Option<u32>)>, Option<Seq<char>>) {
    if e.event@ == "task-started"@ {
        (DashScopeSession { started: true, ..s }, None, Some("recognizing"@))
    } else if e.event@ == "result-generated"@ {
        if e.text@.len() > 0 {
            (
                DashScopeSession {
                    index: if e.sentence_end {
                        (s.index + 1) as u64
                    } else {
                        s.index
                    },
                    ..s
                },
                Some((s.index, e.text@, e.sentence_end, 0u64, 0u64, e.speaker_id)),
                None,
            )
        } else {
            (s, None, None)
        }
    } else if e.event@ == "task-finished"@ {
        (DashScopeSession { finished: true, ..s }, None, Some("stopped"@))
    } else {
        (s, None, None)
    }
}

/// Whether a DashScope event reports a failure (the caller shows the raw
/// event text after `ASR 错误: `).
pub open spec fn dashscope_failed(e: DashScopeEvent) -> bool {
    e.event@ == "task-failed"@ || e.event@ == "failed"@ || e.event@ == "error"@
}

/// Handles one DashScope event: the task starting, a recognised sentence
/// (final ones advance the index), the task finishing.  Returns the segment
/// to report, the status to show, and whether the event is a failure.
pub fn dashscope_event(session: &mut DashScopeSession, event: &DashScopeEvent) -> (r: (Option<RecognizedSegment>, Option<String>, bool))
    requires
        old(session).index < u64::MAX,
    ensures
        ({
            let (next, seg, status) = dashscope_step(*old(session), *event);
            &&& *final(session) == next
            &&& match seg {
                Some(sg) => r.0 matches Some(x) && segment_view(x) == sg,
                None => r.0 is None,
            }
            &&& match status {
                Some(m) => r.1 matches Some(x) && x@ == m,
                None => r.1 is None,
            }
            &&& r.2 == dashscope_failed(*event)
        }),
{
    let ev = event.event.as_str();
    let failed = crate::text::str_eq(ev, "task-failed") || crate::text::str_eq(ev, "failed")
        || crate::text::str_eq(ev, "error");
    if crate::text::str_eq(ev, "task-started") {
        session.started = true;
        return (None, Some(owned("recognizing")), failed);
    }
    if crate::text::str_eq(ev, "result-generated") {
        if !event.text.as_str().is_empty() {
            let seg = RecognizedSegment {
                index: session.index,
                text: event.text.clone(),
                is_final: event.sentence_end,
                start_ms: 0,
                end_ms: 0,
                speaker_id: event.speaker_id,
            };
            if event.sentence_end {
                session.index = session.index + 1;
            }
            return (Some(seg), None, failed);
        }
        return (None, None, failed);
    }
    if crate::text::str_eq(ev, "task-finished") {
        session.finished = true;
        return (None, Some(owned("stopped")), failed);
    }
    (None, None, failed)
}

/// A decoded Azure event as plain values.
pub open spec fn azure_view(e: AzureEvent) -> (Seq<char>, Option<Seq<char>>, Option<u64>, Option<u64>, Option<u32>, Option<Seq<char>>) {
    (
        e.event_type@,
        crate::market::opt_view(e.text),
        e.offset,
        e.duration,
        e.speaker_id,
        crate::market::opt_view(e.display_text),
    )
}

/// A whole number cut to its low 32 bits (`as u32`).
pub open spec fn low_u32(n: nat) -> u32 {
    (n % 0x1_0000_0000) as u32
}

/// The speaker of an Azure frame: `speakerId` as a number, or else as a
/// string of digits; either cut to 32 bits.
pub open spec fn azure_speaker_of(text: Seq<char>) -> Option<u32> {
    match u64_at(text, "/speakerId"@) {
        Some(n) => Some(low_u32(n as nat)),
        None => match str_at(text, "/speakerId"@) {
            Some(s) => match parsed_unsigned(s, u64::MAX as nat) {
                Some(n) => Some(low_u32(n)),
                None => None,
            },
            None => None,
        },
    }
}

/// The event an Azure text frame carries: its `type` (empty when there is
/// none), `text`, `offset`, `duration`, speaker and `result.DisplayText`.
pub open spec fn azure_event_of(text: Seq<char>) -> (Seq<char>, Option<Seq<char>>, Option<u64>, Option<u64>, Option<u32>, Option<Seq<char>>) {
    (
        match str_at(text, "/type"@) {
            Some(t) => t,
            None => seq![],
        },
        str_at(text, "/text"@),
        u64_at(text, "/offset"@),
        u64_at(text, "/duration"@),
        azure_speaker_of(text),
        str_at(text, "/result/DisplayText"@),
    )
}

/// Decodes an Azure text frame; none when the frame is not JSON.
pub fn azure_frame_event(text: &str) -> (r: Option<AzureEvent>)
    ensures
        match json_at(text@, seq![]) {
            None => r is None,
            Some(_) => r matches Some(e) && azure_view(e) == azure_event_of(text@),
        },
{
    if !is_json(text) {
        return None;
    }
    proof {
        reveal_strlit("");
    }
    let event_type = match string_at(text, "/type") {
        Some(t) => t,
        None => owned(""),
    };
    let speaker_id = match number_at(text, "/speakerId") {
        Some(n) => Some((n % 0x1_0000_0000) as u32),
        None => match string_at(text, "/speakerId") {
            Some(s) => match parse_unsigned(s.as_str(), u64::MAX) {
                Some(n) => Some((n % 0x1_0000_0000) as u32),
                None => None,
            },
            None => None,
        },
    };
    Some(AzureEvent {
        event_type,
        text: string_at(text, "/text"),
        offset: number_at(text, "/offset"),
        duration: number_at(text, "/duration"),
        speaker_id,
        display_text: string_at(text, "/result/DisplayText"),
    })
}

/// A decoded DashScope event as plain values.
pub open spec fn dashscope_view(e: DashScopeEvent) -> (Seq<char>, Seq<char>, bool, Option<u32>) {
    (e.event@, e.text@, e.sentence_end, e.speaker_id)
}

/// Where a DashScope result keeps its sentence: `output.sentence` when that
/// is an object, else `output` itself.
pub open spec fn dashscope_base(text: Seq<char>) -> Seq<char> {
    if json_at(text, "/payload/output/sentence"@) matches Some(JsonFieldView::Object(_)) {
        "/payload/output/sentence"@
    } else {
        "/payload/output"@
    }
}

/// The event a DashScope text frame carries: the name from
/// `header.action`, else `header.event` (empty when neither is a string);
/// and from the sentence (see [`dashscope_base`]) its `text` (empty when
/// none), `sentence_end` (false when none), and `speaker_id` given as a
/// string and read as a 32-bit number.
pub open spec fn dashscope_event_of(text: Seq<char>) -> (Seq<char>, Seq<char>, bool, Option<u32>) {
    let b = dashscope_base(text);
    (
        match str_at(text, "/header/action"@) {
            Some(a) => a,
            None => match str_at(text, "/header/event"@) {
                Some(e) => e,
                None => seq![],
            },
        },
        match str_at(text, b + "/text"@) {
            Some(t) => t,
            None => seq![],
        },
        match bool_at(text, b + "/sentence_end"@) {
            Some(e) => e,
            None => false,
        },
        match str_at(text, b + "/speaker_id"@) {
            Some(s) => match parsed_unsigned(s, u32::MAX as nat) {
                Some(n) => Some(n as u32),
                None => None,
            },
            None => None,
        },
    )
}

/// Decodes a DashScope text frame; none when the frame is not JSON.
pub fn dashscope_frame_event(text: &str) -> (r: Option<DashScopeEvent>)
    ensures
        match json_at(text@, seq![]) {
            None => r is None,
            Some(_) => r matches Some(e) && dashscope_view(e) == dashscope_event_of(text@),
        },
{
    if !is_json(text) {
        return None;
    }
    proof {
        reveal_strlit("");
    }
    let event = match string_at(text, "/header/action") {
        Some(a) => a,
        None => match string_at(text, "/header/event") {
            Some(e) => e,
            None => owned(""),
        },
    };
    let base = if is_object_at(text, "/payload/output/sentence") {
        "/payload/output/sentence"
    } else {
        "/payload/output"
    };
    let mut p = chars_of(base);
    extend_chars(&mut p, &chars_of("/text"));
    let text_ptr = string_from(&p);
    let mut p = chars_of(base);
    extend_chars(&mut p, &chars_of("/sentence_end"));
    let end_ptr = string_from(&p);
    let mut p = chars_of(base);
    extend_chars(&mut p, &chars_of("/speaker_id"));
    let speaker_ptr = string_from(&p);
    let seg_text = match string_at(text, text_ptr.as_str()) {
        Some(t) => t,
        None => owned(""),
    };
    let sentence_end = match flag_at(text, end_ptr.as_str()) {
        Some(e) => e,
        None => false,
    };
    let speaker_id = match string_at(text, speaker_ptr.as_str()) {
        Some(s) => match parse_unsigned(s.as_str(), 0xffff_ffff) {
            Some(n) => Some(n as u32),
            None => None,
        },
        None => None,
    };
    Some(DashScopeEvent { event, text: seg_text, sentence_end, speaker_id })
}

} // verus!
