//! Speech recognition: backend kinds, model catalogue entries, and the
//! audio/text helpers the backends share.
use vstd::prelude::*;

use crate::text::{chars_of, owned, string_views, starts_with_chars, str_eq, string_from, trim_start, trim_start_index, slice_chars};

verus! {

/// Errors reported by a recognition backend.
#[derive(Debug)]
pub enum AsrError {
    Unauthorized,
    QuotaExceeded,
    Network(String),
    ModelNotFound(String),
    Protocol(String),
    NotImplemented(String),
}

/// The text of a recognition error.
pub open spec fn asr_error_text(e: AsrError) -> Seq<char> {
    match e {
        AsrError::Unauthorized => "未授权：API Key 无效"@,
        AsrError::QuotaExceeded => "配额不足或限流"@,
        AsrError::Network(s) => "网络错误: "@ + s@,
        AsrError::ModelNotFound(s) => "模型文件缺失: "@ + s@,
        AsrError::Protocol(s) => "协议错误: "@ + s@,
        AsrError::NotImplemented(s) => "后端未实现: "@ + s@,
    }
}

impl AsrError {
    /// The text shown for the error.
    pub fn message(&self) -> (r: String)
        ensures
            r@ == asr_error_text(*self),
    {
        let (head, tail): (&str, Option<&String>) = match self {
            AsrError::Unauthorized => ("未授权：API Key 无效", None),
            AsrError::QuotaExceeded => ("配额不足或限流", None),
            AsrError::Network(s) => ("网络错误: ", Some(s)),
            AsrError::ModelNotFound(s) => ("模型文件缺失: ", Some(s)),
            AsrError::Protocol(s) => ("协议错误: ", Some(s)),
            AsrError::NotImplemented(s) => ("后端未实现: ", Some(s)),
        };
        let mut out = chars_of(head);
        match tail {
            Some(t) => crate::text::extend_chars(&mut out, &chars_of(t.as_str())),
            None => {},
        }
        string_from(&out)
    }
}

/// Built-in backend kinds; any other kind string reads as `Custom`.
#[derive(Debug, Clone, Copy, PartialEq, Eq, Structural)]
pub enum AsrKind {
    DashScopeFunasr,
    MiMoHttp,
    SherpaOnnx,
    LocalFunasrWs,
    WhisperApi,
    Vosk,
    AzureSpeech,
    Custom,
}

/// The name under which a kind is stored and registered.
pub open spec fn kind_name(k: AsrKind) -> Seq<char> {
    match k {
        AsrKind::DashScopeFunasr => "DashScopeFunasr"@,
        AsrKind::MiMoHttp => "MiMoHttp"@,
        AsrKind::SherpaOnnx => "SherpaOnnx"@,
        AsrKind::LocalFunasrWs => "LocalFunasrWs"@,
        AsrKind::WhisperApi => "WhisperApi"@,
        AsrKind::Vosk => "Vosk"@,
        AsrKind::AzureSpeech => "AzureSpeech"@,
        AsrKind::Custom => "Custom"@,
    }
}

/// The kind a stored name reads as.
pub open spec fn kind_of_name(s: Seq<char>) -> AsrKind {
    if s == "DashScopeFunasr"@ {
        AsrKind::DashScopeFunasr
    } else if s == "MiMoHttp"@ {
        AsrKind::MiMoHttp
    } else if s == "SherpaOnnx"@ {
        AsrKind::SherpaOnnx
    } else if s == "LocalFunasrWs"@ {
        AsrKind::LocalFunasrWs
    } else if s == "WhisperApi"@ {
        AsrKind::WhisperApi
    } else if s == "Vosk"@ {
        AsrKind::Vosk
    } else if s == "AzureSpeech"@ {
        AsrKind::AzureSpeech
    } else {
        AsrKind::Custom
    }
}

/// The name shown to users.
pub open spec fn kind_display(k: AsrKind) -> Seq<char> {
    match k {
        AsrKind::DashScopeFunasr => "DashScope FunASR"@,
        AsrKind::MiMoHttp => "MiMo ASR"@,
        AsrKind::SherpaOnnx => "Sherpa ONNX"@,
        AsrKind::LocalFunasrWs => "本地 FunASR WS"@,
        AsrKind::WhisperApi => "Whisper API"@,
        AsrKind::Vosk => "Vosk"@,
        AsrKind::AzureSpeech => "Azure Speech"@,
        AsrKind::Custom => "自定义兼容端点"@,
    }
}

/// The language codes a kind supports.
pub open spec fn kind_languages(k: AsrKind) -> Seq<Seq<char>> {
    match k {
        AsrKind::DashScopeFunasr => seq!["zh"@],
        AsrKind::SherpaOnnx => seq!["zh"@, "en"@, "ja"@, "ko"@],
        AsrKind::LocalFunasrWs => seq!["zh"@],
        AsrKind::WhisperApi => seq!["zh"@, "en"@, "ja"@, "ko"@],
        _ => seq!["zh"@, "en"@],
    }
}

/// Strings for the given literals.
pub(crate) fn strings_of_strs(v: &[&str]) -> (r: Vec<String>)
    ensures
        string_views(r@) == v@.map_values(|s: &str| s@),
{
    let mut r: Vec<String> = Vec::new();
    let mut i: usize = 0;
    while i < v.len()
        invariant
            i <= v@.len(),
            string_views(r@) == v@.take(i as int).map_values(|s: &str| s@),
        decreases v@.len() - i,
    {
        let ghost old_r = r@;
        let o = owned(v[i]);
        r.push(o);
        proof {
            assert(v@.take(i + 1) =~= v@.take(i as int).push(v@[i as int]));
            assert(string_views(r@) =~= string_views(old_r).push(o@));
            assert(string_views(r@) =~= v@.take(i + 1).map_values(|s: &str| s@));
        }
        i += 1;
    }
    assert(v@.take(v@.len() as int) =~= v@);
    r
}

impl AsrKind {
    /// The name under which the kind is stored and registered.
    pub fn as_str(&self) -> (s: &'static str)
        ensures
            s@ == kind_name(*self),
    {
        match self {
            AsrKind::DashScopeFunasr => "DashScopeFunasr",
            AsrKind::MiMoHttp => "MiMoHttp",
            AsrKind::SherpaOnnx => "SherpaOnnx",
            AsrKind::LocalFunasrWs => "LocalFunasrWs",
            AsrKind::WhisperApi => "WhisperApi",
            AsrKind::Vosk => "Vosk",
            AsrKind::AzureSpeech => "AzureSpeech",
            AsrKind::Custom => "Custom",
        }
    }

    /// Lenient parse: a known name gives its kind, anything else `Custom`.
    pub fn from_str(s: &str) -> (k: Self)
        ensures
            k == kind_of_name(s@),
    {
        if str_eq(s, "DashScopeFunasr") {
            AsrKind::DashScopeFunasr
        } else if str_eq(s, "MiMoHttp") {
            AsrKind::MiMoHttp
        } else if str_eq(s, "SherpaOnnx") {
            AsrKind::SherpaOnnx
        } else if str_eq(s, "LocalFunasrWs") {
            AsrKind::LocalFunasrWs
        } else if str_eq(s, "WhisperApi") {
            AsrKind::WhisperApi
        } else if str_eq(s, "Vosk") {
            AsrKind::Vosk
        } else if str_eq(s, "AzureSpeech") {
            AsrKind::AzureSpeech
        } else {
            AsrKind::Custom
        }
    }

    /// The name shown to users.
    pub fn display_name(&self) -> (s: &'static str)
        ensures
            s@ == kind_display(*self),
    {
        match self {
            AsrKind::DashScopeFunasr => "DashScope FunASR",
            AsrKind::MiMoHttp => "MiMo ASR",
            AsrKind::SherpaOnnx => "Sherpa ONNX",
            AsrKind::LocalFunasrWs => "本地 FunASR WS",
            AsrKind::WhisperApi => "Whisper API",
            AsrKind::Vosk => "Vosk",
            AsrKind::AzureSpeech => "Azure Speech",
            AsrKind::Custom => "自定义兼容端点",
        }
    }

    /// The language codes the kind supports.
    pub fn languages(&self) -> (r: Vec<String>)
        ensures
            string_views(r@) == kind_languages(*self),
    {
        let r = match self {
            AsrKind::DashScopeFunasr => strings_of_strs(&["zh"]),
            AsrKind::SherpaOnnx => strings_of_strs(&["zh", "en", "ja", "ko"]),
            AsrKind::LocalFunasrWs => strings_of_strs(&["zh"]),
            AsrKind::WhisperApi => strings_of_strs(&["zh", "en", "ja", "ko"]),
            _ => strings_of_strs(&["zh", "en"]),
        };
        r
    }
}

/// Law: reading back the stored name of a kind gives the kind.
pub proof fn law_kind_name_roundtrip(k: AsrKind)
    ensures
        kind_of_name(kind_name(k)) == k,
{
    reveal_strlit("DashScopeFunasr");
    reveal_strlit("MiMoHttp");
    reveal_strlit("SherpaOnnx");
    reveal_strlit("LocalFunasrWs");
    reveal_strlit("WhisperApi");
    reveal_strlit("Vosk");
    reveal_strlit("AzureSpeech");
    reveal_strlit("Custom");
    let d = "DashScopeFunasr"@;
    let m = "MiMoHttp"@;
    let sh = "SherpaOnnx"@;
    let l = "LocalFunasrWs"@;
    let w = "WhisperApi"@;
    let v = "Vosk"@;
    let a = "AzureSpeech"@;
    let c = "Custom"@;
    assert(d.len() == 15 && m.len() == 8 && sh.len() == 10 && l.len() == 13 && w.len() == 10
        && v.len() == 4 && a.len() == 11 && c.len() == 6);
    assert(sh[0] != w[0]);
    assert(c[0] != d[0] && c[0] != m[0] && c[0] != sh[0] && c[0] != l[0] && c[0] != w[0]
        && c[0] != v[0] && c[0] != a[0]);
}

/// The languages assumed for a model directory found on disk.
pub open spec fn backend_default_langs(backend: Seq<char>) -> Seq<Seq<char>> {
    if backend == "SherpaOnnx"@ || backend == "Vosk"@ {
        seq!["zh"@, "en"@]
    } else {
        seq!["zh"@]
    }
}

/// The languages assumed for a model directory of the given backend.
pub fn default_langs(backend: &str) -> (r: Vec<String>)
    ensures
        string_views(r@) == backend_default_langs(backend@),
{
    if str_eq(backend, "SherpaOnnx") || str_eq(backend, "Vosk") {
        strings_of_strs(&["zh", "en"])
    } else {
        strings_of_strs(&["zh"])
    }
}

/// Little-endian bytes of a 32-bit value.
pub open spec fn le32(x: u32) -> Seq<u8> {
    seq![(x & 0xff) as u8, ((x >> 8) & 0xff) as u8, ((x >> 16) & 0xff) as u8, ((x >> 24) & 0xff) as u8]
}

/// Little-endian bytes of a 16-bit value.
pub open spec fn le16(x: u16) -> Seq<u8> {
    seq![(x & 0xff) as u8, ((x >> 8) & 0xff) as u8]
}

/// The 32-bit value of four little-endian bytes.
pub open spec fn read_le32(b: Seq<u8>) -> u32 {
    (b[0] as u32) | ((b[1] as u32) << 8) | ((b[2] as u32) << 16) | ((b[3] as u32) << 24)
}

/// The WAV file (16 kHz, 16-bit, mono PCM) holding `pcm`.
pub open spec fn wav_of(pcm: Seq<u8>) -> Seq<u8> {
    let data_len = pcm.len() as u32;
    seq![0x52u8, 0x49, 0x46, 0x46] + le32((36 + data_len) as u32) + seq![0x57u8, 0x41, 0x56, 0x45]
        + seq![0x66u8, 0x6d, 0x74, 0x20] + le32(16) + le16(1) + le16(1) + le32(16000) + le32(32000)
        + le16(2) + le16(16) + seq![0x64u8, 0x61, 0x74, 0x61] + le32(data_len) + pcm
}

fn push_le32(v: &mut Vec<u8>, x: u32)
    ensures
        final(v)@ == old(v)@ + le32(x),
{
    v.push((x & 0xff) as u8);
    v.push(((x >> 8) & 0xff) as u8);
    v.push(((x >> 16) & 0xff) as u8);
    v.push(((x >> 24) & 0xff) as u8);
    assert(final(v)@ =~= old(v)@ + le32(x));
}

fn push_le16(v: &mut Vec<u8>, x: u16)
    ensures
        final(v)@ == old(v)@ + le16(x),
{
    v.push((x & 0xff) as u8);
    v.push(((x >> 8) & 0xff) as u8);
    assert(final(v)@ =~= old(v)@ + le16(x));
}

fn push_tag(v: &mut Vec<u8>, a: u8, b: u8, c: u8, d: u8)
    ensures
        final(v)@ == old(v)@ + seq![a, b, c, d],
{
    v.push(a);
    v.push(b);
    v.push(c);
    v.push(d);
    assert(final(v)@ =~= old(v)@ + seq![a, b, c, d]);
}

/// 16 kHz 16-bit mono little-endian PCM wrapped in a WAV file (44-byte header).
pub fn pcm_to_wav(pcm: &[u8]) -> (wav: Vec<u8>)
    requires
        (pcm@.len() as u32) + 36 <= u32::MAX,
    ensures
        wav@ == wav_of(pcm@),
{
    let sample_rate: u32 = 16000;
    let channels: u16 = 1;
    let bits_per_sample: u16 = 16;
    let byte_rate: u32 = sample_rate * (channels as u32) * ((bits_per_sample / 8) as u32);
    let block_align: u16 = channels * (bits_per_sample / 8);
    let data_len = pcm.len() as u32;
    let mut wav: Vec<u8> = Vec::new();
    push_tag(&mut wav, 0x52, 0x49, 0x46, 0x46);
    push_le32(&mut wav, 36 + data_len);
    push_tag(&mut wav, 0x57, 0x41, 0x56, 0x45);
    push_tag(&mut wav, 0x66, 0x6d, 0x74, 0x20);
    push_le32(&mut wav, 16);
    push_le16(&mut wav, 1);
    push_le16(&mut wav, channels);
    push_le32(&mut wav, sample_rate);
    push_le32(&mut wav, byte_rate);
    push_le16(&mut wav, block_align);
    push_le16(&mut wav, bits_per_sample);
    push_tag(&mut wav, 0x64, 0x61, 0x74, 0x61);
    push_le32(&mut wav, data_len);
    let mut i: usize = 0;
    let ghost head = wav@;
    while i < pcm.len()
        invariant
            i <= pcm@.len(),
            wav@ == head + pcm@.take(i as int),
        decreases pcm@.len() - i,
    {
        wav.push(pcm[i]);
        assert(pcm@.take(i + 1) =~= pcm@.take(i as int).push(pcm@[i as int]));
        i += 1;
    }
    assert(pcm@.take(pcm@.len() as int) =~= pcm@);
    wav
}

proof fn lemma_le32_roundtrip(x: u32)
    ensures
        read_le32(le32(x)) == x,
{
    let b0 = (x & 0xff) as u8;
    let b1 = ((x >> 8) & 0xff) as u8;
    let b2 = ((x >> 16) & 0xff) as u8;
    let b3 = ((x >> 24) & 0xff) as u8;
    assert(((x & 0xff) as u8) as u32 | ((((x >> 8) & 0xff) as u8) as u32) << 8 | ((((x >> 16)
        & 0xff) as u8) as u32) << 16 | ((((x >> 24) & 0xff) as u8) as u32) << 24 == x)
        by (bit_vector);
    assert(le32(x)[0] == b0 && le32(x)[1] == b1 && le32(x)[2] == b2 && le32(x)[3] == b3);
}

/// Law: the WAV header is 44 bytes, the samples follow it unchanged, and the
/// RIFF size and data size fields read back as the file and sample sizes.
pub proof fn law_wav_layout(pcm: Seq<u8>)
    requires
        pcm.len() + 36 <= u32::MAX,
    ensures
        wav_of(pcm).len() == 44 + pcm.len(),
        wav_of(pcm).skip(44) == pcm,
        read_le32(wav_of(pcm).subrange(4, 8)) + 8 == wav_of(pcm).len(),
        read_le32(wav_of(pcm).subrange(40, 44)) == pcm.len(),
{
    let w = wav_of(pcm);
    let data_len = pcm.len() as u32;
    assert(w.skip(44) =~= pcm);
    assert(w.subrange(4, 8) =~= le32((36 + data_len) as u32));
    assert(w.subrange(40, 44) =~= le32(data_len));
    lemma_le32_roundtrip((36 + data_len) as u32);
    lemma_le32_roundtrip(data_len);
}

/// The new part of a growing transcript.
pub open spec fn text_increment(full: Seq<char>, prev: Seq<char>) -> Seq<char> {
    if prev.len() == 0 {
        full
    } else if full.len() > prev.len() && full.take(prev.len() as int) == prev {
        trim_start(full.skip(prev.len() as int))
    } else {
        full
    }
}

/// `full` minus the already-seen prefix `prev` (left-trimmed); all of `full`
/// when it does not extend `prev`.
pub fn diff_text(full: &str, prev: &str) -> (r: String)
    ensures
        r@ == text_increment(full@, prev@),
{
    let f = chars_of(full);
    let p = chars_of(prev);
    if p.len() == 0 {
        return string_from(&f);
    }
    if f.len() > p.len() && starts_with_chars(&f, &p) {
        let rest = slice_chars(&f, p.len(), f.len());
        let k = trim_start_index(&rest);
        assert(f@.skip(p@.len() as int) =~= rest@);
        let r = crate::text::string_of(&rest, k, rest.len());
        assert(rest@.skip(k as int) =~= rest@.subrange(k as int, rest@.len() as int));
        r
    } else {
        string_from(&f)
    }
}

/// Whether a catalogue model is called online or downloaded and run locally.
#[derive(Debug, Clone, Copy, PartialEq, Eq, Structural)]
pub enum AsrModelCategory {
    Online,
    Local,
}

/// A recognition model known to the catalogue.
#[derive(Debug, Clone)]
pub struct AsrModelInfo {
    pub id: String,
    pub name: String,
    pub backend: String,
    pub category: AsrModelCategory,
    pub size_mb: u64,
    pub lang: Vec<String>,
    /// Online: the API address; local: the download URL.
    pub url: String,
    pub sha256: String,
    pub requires_vad: bool,
    /// Found on disk rather than listed in the built-in catalogue.
    pub user_placed: bool,
    pub default_model_id: Option<String>,
    pub requires_api_key: bool,
}

/// A model directory present on disk.
#[derive(Debug, Clone)]
pub struct InstalledAsrModel {
    pub id: String,
    pub path: String,
    pub size_mb: u64,
    pub backend: String,
    pub lang: Vec<String>,
}

} // verus!
