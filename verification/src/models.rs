//! Rows read from the database and the objects handed to the front end.
use vstd::prelude::*;

verus! {

#[derive(Debug, Clone)]
pub struct ProviderRow {
    pub id: String,
    pub name: String,
    pub kind: String,
    pub base_url: Option<String>,
    pub api_key_enc: Option<String>,
    pub is_enabled: i32,
    pub created_at: i64,
    pub updated_at: i64,
    pub avatar: Option<String>,
}

#[derive(Debug, Clone)]
pub struct ProviderDto {
    pub id: String,
    pub name: String,
    pub kind: String,
    pub base_url: Option<String>,
    pub is_enabled: bool,
    pub has_key: bool,
    pub avatar: Option<String>,
}

#[derive(Debug, Clone)]
pub struct ModelRow {
    pub id: String,
    pub provider_id: String,
    pub model_id: String,
    pub display_name: Option<String>,
    pub kind: String,
    pub max_tokens: Option<i32>,
    pub is_default: i32,
    pub created_at: i64,
}

#[derive(Debug, Clone)]
pub struct ModelDto {
    pub id: String,
    pub provider_id: String,
    pub model_id: String,
    pub display_name: Option<String>,
    pub kind: String,
    pub max_tokens: Option<i32>,
    pub is_default: bool,
}

#[derive(Debug, Clone)]
pub struct SessionRow {
    pub id: String,
    pub agent_id: String,
    pub title: Option<String>,
    pub pinned: i32,
    pub created_at: i64,
    pub updated_at: i64,
}

#[derive(Debug, Clone)]
pub struct SessionDto {
    pub id: String,
    pub agent_id: String,
    pub title: Option<String>,
    pub pinned: bool,
    pub created_at: i64,
    pub updated_at: i64,
}

#[derive(Debug, Clone)]
pub struct MessageRow {
    pub id: String,
    pub session_id: String,
    pub role: String,
    pub content: String,
    pub tool_calls: Option<String>,
    pub tool_call_id: Option<String>,
    pub model_id: Option<String>,
    pub usage: Option<String>,
    pub created_at: i64,
}

#[derive(Debug, Clone)]
pub struct McpServerRow {
    pub id: String,
    pub name: String,
    pub server_type: String,
    pub command: Option<String>,
    pub args: String,
    pub env: String,
    pub base_url: Option<String>,
    pub headers: String,
    pub is_active: i32,
    pub timeout_ms: Option<i32>,
    pub created_at: i64,
    pub updated_at: i64,
}

#[derive(Debug, Clone)]
pub struct McpServerDto {
    pub id: String,
    pub name: String,
    pub server_type: String,
    pub command: Option<String>,
    pub args: Vec<String>,
    pub base_url: Option<String>,
    pub is_active: bool,
    pub timeout_ms: Option<i32>,
}

#[derive(Debug, Clone)]
pub struct SkillRow {
    pub id: String,
    pub name: String,
    pub description: Option<String>,
    pub folder_name: String,
    pub source: String,
    pub source_url: Option<String>,
    pub namespace: Option<String>,
    pub author: Option<String>,
    pub tags: String,
    pub content_hash: String,
    pub is_enabled: i32,
    pub created_at: i64,
    pub updated_at: i64,
}

#[derive(Debug, Clone)]
pub struct SkillDto {
    pub id: String,
    pub name: String,
    pub description: Option<String>,
    pub folder_name: String,
    pub source: String,
    pub is_enabled: bool,
}

#[derive(Debug, Clone)]
pub struct WorkspaceInfo {
    pub current_dir: String,
    pub recent_dirs: Vec<String>,
    pub bound_agent_id: Option<String>,
}

#[derive(Debug, Clone)]
pub struct InstructionFile {
    pub path: String,
    pub name: String,
    pub lines: usize,
    pub injected: bool,
    pub priority: u8,
}

#[derive(Debug, Clone)]
pub struct LspServerInfo {
    pub id: String,
    pub cmd: String,
    pub status: String,
    pub langs: Vec<String>,
    pub index_file_count: Option<u64>,
    pub last_error: Option<String>,
    pub install_hint: Option<String>,
}

#[derive(Debug)]
pub struct DirTree {
    pub name: String,
    pub path: String,
    pub is_dir: bool,
    pub children: Option<Vec<DirTree>>,
    pub language: Option<String>,
    pub line_count: Option<u64>,
}

#[derive(Debug, Clone)]
pub struct FileEntry {
    pub path: String,
    pub name: String,
    pub is_dir: bool,
    pub size: u64,
}

#[derive(Debug, Clone)]
pub struct SkillOverview {
    pub enabled: usize,
    pub total: usize,
    pub popular: Vec<String>,
}

#[derive(Debug, Clone)]
pub struct McpServerStatus {
    pub id: String,
    pub name: String,
    pub status: String,
    pub tools_count: usize,
    pub last_error: Option<String>,
}

#[derive(Debug, Clone)]
pub struct SessionSummary {
    pub id: String,
    pub title: String,
    pub agent_name: String,
    pub updated_at: String,
    pub message_count: i64,
}

#[derive(Debug, Clone)]
pub struct ModelStatus {
    pub provider_name: String,
    pub model_id: String,
    pub display_name: String,
    pub status: String,
}

#[derive(Debug, Clone)]
pub struct AgentSummary {
    pub id: String,
    pub name: String,
    pub description: String,
    pub avatar: Option<String>,
    pub model_name: Option<String>,
    pub skill_count: usize,
    pub mcp_count: usize,
    pub last_used: Option<String>,
    pub order_key: i32,
}

#[derive(Debug, Clone)]
pub struct KanbanCard {
    pub agent_id: String,
    pub agent_name: String,
    pub agent_avatar: Option<String>,
    pub model_name: Option<String>,
    pub session_id: Option<String>,
    pub session_title: Option<String>,
    pub session_updated_at: Option<i64>,
    pub lifecycle: String,
    pub message_count: i64,
}

#[derive(Debug, Clone)]
pub struct KanbanData {
    pub idle: Vec<KanbanCard>,
    pub running: Vec<KanbanCard>,
    pub done: Vec<KanbanCard>,
    pub failed: Vec<KanbanCard>,
}

#[derive(Debug, Clone)]
pub struct RagDocumentRow {
    pub id: String,
    pub wiki_id: String,
    pub name: String,
    pub mime_type: String,
    pub size: i64,
    pub chunk_count: i32,
    pub status: String,
    pub error_msg: Option<String>,
    pub file_path: Option<String>,
    pub fingerprint: Option<String>,
    pub created_at: i64,
    pub updated_at: i64,
}

#[derive(Debug, Clone)]
pub struct ProjectIndexStatus {
    pub enabled: bool,
    pub workdir: Option<String>,
    pub indexed_files: i64,
    pub in_progress: bool,
    pub last_indexed_at: Option<i64>,
}

#[derive(Debug, Clone)]
pub struct RagDocumentDto {
    pub id: String,
    pub name: String,
    pub mime_type: String,
    pub size: i64,
    pub chunk_count: i32,
    pub status: String,
}

#[derive(Debug, Clone)]
pub struct RagChunkRow {
    pub id: String,
    pub document_id: String,
    pub wiki_id: String,
    pub index: i32,
    pub content: String,
    pub embedding: Option<Vec<u8>>,
    pub context: Option<String>,
    pub page_start: Option<i32>,
    pub page_end: Option<i32>,
    pub section: Option<String>,
    pub block_type: String,
    pub created_at: i64,
}

#[derive(Debug, Clone)]
pub struct IngestResult {
    pub document_id: String,
    pub chunk_count: usize,
    pub status: String,
}

#[derive(Debug, Clone)]
pub struct IngestResultDto {
    pub document_id: String,
    pub chunk_count: usize,
    pub status: String,
}

#[derive(Debug, Clone)]
pub struct TranslateResult {
    pub translated: String,
    pub source_lang: String,
    pub from_cache: bool,
}

#[derive(Debug, Clone)]
pub struct TranslateResultDto {
    pub translated: String,
    pub source_lang: String,
    pub from_cache: bool,
}

#[derive(Debug, Clone)]
pub struct TranslateHistoryRow {
    pub id: String,
    pub source_text: String,
    pub source_lang: String,
    pub target_lang: String,
    pub translated: String,
    pub created_at: i64,
}

#[derive(Debug, Clone)]
pub struct TranslateHistoryDto {
    pub id: String,
    pub source_text: String,
    pub source_lang: String,
    pub target_lang: String,
    pub translated: String,
    pub created_at: i64,
}

#[derive(Debug, Clone)]
pub struct TranslateHistoryResult {
    pub items: Vec<TranslateHistoryDto>,
    pub total: i64,
}

#[derive(Debug, Clone)]
pub struct TranslateHistoryResultDto {
    pub items: Vec<TranslateHistoryDto>,
    pub total: i64,
}

#[derive(Debug, Clone)]
pub struct GlossaryTermRow {
    pub id: String,
    pub source_lang: String,
    pub target_lang: String,
    pub source_term: String,
    pub target_term: String,
    pub category: Option<String>,
    pub enabled: i32,
    pub created_at: i64,
}

#[derive(Debug, Clone)]
pub struct GlossaryTerm {
    pub id: String,
    pub source_lang: String,
    pub target_lang: String,
    pub source_term: String,
    pub target_term: String,
    pub category: Option<String>,
    pub enabled: bool,
}

#[derive(Debug, Clone)]
pub struct GlossaryTermDto {
    pub id: String,
    pub source_lang: String,
    pub target_lang: String,
    pub source_term: String,
    pub target_term: String,
    pub category: Option<String>,
    pub enabled: bool,
}

#[derive(Debug, Clone)]
pub struct GlossaryTermInput {
    pub source_lang: String,
    pub target_lang: String,
    pub source_term: String,
    pub target_term: String,
    pub category: Option<String>,
}

#[derive(Debug, Clone)]
pub struct ImportResult {
    pub imported: usize,
    pub failed: usize,
}

#[derive(Debug, Clone)]
pub struct ImportResultDto {
    pub imported: usize,
    pub failed: usize,
}

#[derive(Debug, Clone)]
pub struct BuiltinGlossaryDto {
    pub file: String,
    pub label: String,
    pub description: String,
}

#[derive(Debug, Clone)]
pub struct OcrProviderInfo {
    pub name: String,
    pub kind: String,
    pub available: bool,
}

#[derive(Debug, Clone)]
pub struct OcrProviderInfoDto {
    pub name: String,
    pub kind: String,
    pub available: bool,
}

#[derive(Debug, Clone)]
pub struct WikiRow {
    pub id: String,
    pub name: String,
    pub description: Option<String>,
    pub schema: Option<String>,
    pub created_at: i64,
    pub updated_at: i64,
}

#[derive(Debug, Clone)]
pub struct WikiDto {
    pub id: String,
    pub name: String,
    pub description: Option<String>,
    pub created_at: i64,
    pub updated_at: i64,
}

#[derive(Debug, Clone)]
pub struct WikiPage {
    pub path: String,
    pub title: String,
    pub size: usize,
}

#[derive(Debug, Clone)]
pub struct WikiPageDto {
    pub path: String,
    pub title: String,
    pub size: usize,
}

#[derive(Debug, Clone)]
pub struct WikiWritePlan {
    pub operations: Vec<WikiOp>,
}

#[derive(Debug, Clone)]
pub enum WikiOp {
    CreatePage {
        path: String,
        title: String,
        content: String,
    },
    UpdatePage {
        path: String,
        content: String,
        summary: String,
    },
    DeletePage { path: String, reason: String },
    UpdateIndex { entries: Vec<String> },
    Noop { reason: String },
}

#[derive(Debug, Clone)]
pub struct WikiWriteResult {
    pub applied: usize,
    pub noop: usize,
    pub summary: String,
    pub log_appended: bool,
}

#[derive(Debug, Clone)]
pub struct MeetingRow {
    pub id: String,
    pub title: String,
    pub date: String,
    pub transcript: String,
    pub summary: String,
    pub participants: String,
    pub recording_duration: i32,
    pub audio_path: Option<String>,
    pub folder_path: Option<String>,
    pub source_lang: Option<String>,
    pub target_lang: Option<String>,
    pub asr_kind: Option<String>,
    pub asr_model: Option<String>,
    pub retranscribed_at: Option<i64>,
    pub status: String,
    pub created_at: i64,
    pub updated_at: i64,
}

#[derive(Debug, Clone)]
pub struct Meeting {
    pub id: String,
    pub title: String,
    pub date: String,
    pub transcript: String,
    pub summary: String,
    pub participants: Vec<String>,
    pub recording_duration: i32,
    pub status: String,
    pub created_at: i64,
    pub updated_at: i64,
}

#[derive(Debug, Clone)]
pub struct MeetingDto {
    pub id: String,
    pub title: String,
    pub date: String,
    pub transcript: String,
    pub summary: String,
    pub participants: Vec<String>,
    pub recording_duration: i32,
    pub status: String,
    pub created_at: i64,
    pub updated_at: i64,
}

#[derive(Debug, Clone)]
pub struct TranscriptSegmentRow {
    pub id: String,
    pub meeting_id: String,
    pub index: i32,
    pub text: String,
    pub is_final: i32,
    pub translated: Option<String>,
    pub speaker_id: Option<i64>,
    pub created_at: i64,
}

#[derive(Debug, Clone)]
pub struct TranscriptSegment {
    pub index: i32,
    pub text: String,
    pub is_final: bool,
    pub translated: Option<String>,
    pub speaker_id: Option<u32>,
}

#[derive(Debug, Clone)]
pub struct TranscriptSegmentDto {
    pub index: i32,
    pub text: String,
    pub is_final: bool,
    pub translated: Option<String>,
    pub speaker_id: Option<u32>,
}

#[derive(Debug, Clone)]
pub struct AsrConfigRow {
    pub id: String,
    pub name: String,
    pub kind: String,
    pub base_url: Option<String>,
    pub api_key_enc: Option<String>,
    pub model: Option<String>,
    pub lang: Option<String>,
    pub is_default: i32,
    pub model_path: Option<String>,
    pub extra: Option<String>,
    pub created_at: i64,
    pub updated_at: i64,
}

#[derive(Debug, Clone)]
pub struct AsrBackendInfo {
    pub kind: String,
    pub name: String,
    pub description: String,
    pub languages: Vec<String>,
}

#[derive(Debug, Clone)]
pub struct AsrBackendInfoDto {
    pub kind: String,
    pub name: String,
    pub description: String,
    pub languages: Vec<String>,
}

impl From<ModelRow> for ModelDto {
    fn from(r: ModelRow) -> (d: Self) {
        ModelDto {
            id: r.id,
            provider_id: r.provider_id,
            model_id: r.model_id,
            display_name: r.display_name,
            kind: r.kind,
            max_tokens: r.max_tokens,
            is_default: r.is_default != 0,
        }
    }
}

impl vstd::std_specs::convert::FromSpecImpl<ModelRow> for ModelDto {
    open spec fn obeys_from_spec() -> bool {
        true
    }

    open spec fn from_spec(r: ModelRow) -> Self {
        ModelDto {
            id: r.id,
            provider_id: r.provider_id,
            model_id: r.model_id,
            display_name: r.display_name,
            kind: r.kind,
            max_tokens: r.max_tokens,
            is_default: r.is_default != 0,
        }
    }
}

impl From<SessionRow> for SessionDto {
    fn from(r: SessionRow) -> (d: Self) {
        SessionDto {
            id: r.id,
            agent_id: r.agent_id,
            title: r.title,
            pinned: r.pinned != 0,
            created_at: r.created_at,
            updated_at: r.updated_at,
        }
    }
}

impl vstd::std_specs::convert::FromSpecImpl<SessionRow> for SessionDto {
    open spec fn obeys_from_spec() -> bool {
        true
    }

    open spec fn from_spec(r: SessionRow) -> Self {
        SessionDto {
            id: r.id,
            agent_id: r.agent_id,
            title: r.title,
            pinned: r.pinned != 0,
            created_at: r.created_at,
            updated_at: r.updated_at,
        }
    }
}

} // verus!
