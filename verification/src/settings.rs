//! Groups and value kinds of the settings registry.
use vstd::prelude::*;

verus! {

/// The group a setting is shown under.
#[derive(Debug, Clone, Copy, PartialEq, Eq, Hash, Structural)]
pub enum SettingGroup {
    /// Providers, models, translation model, TTS.
    ModelService,
    /// Agent defaults, reflection, goal monitoring.
    Agent,
    /// Memory and its index.
    Memory,
    /// MCP servers and skills.
    Tools,
    /// Chunking, retrieval and hybrid weights.
    Rag,
    /// Speech recognition and synthesis.
    Meeting,
    /// Guard rails.
    Security,
    /// Token budget, retention, workspace.
    Advanced,
}

/// The label shown for each group.
pub open spec fn group_label(g: SettingGroup) -> Seq<char> {
    match g {
        SettingGroup::ModelService => "模型服务"@,
        SettingGroup::Agent => "Agent"@,
        SettingGroup::Memory => "记忆"@,
        SettingGroup::Tools => "工具"@,
        SettingGroup::Rag => "RAG"@,
        SettingGroup::Meeting => "会议"@,
        SettingGroup::Security => "安全"@,
        SettingGroup::Advanced => "高级"@,
    }
}

impl SettingGroup {
    /// The label of the group.
    pub fn label(&self) -> (s: &'static str)
        ensures
            s@ == group_label(*self),
    {
        match self {
            SettingGroup::ModelService => "模型服务",
            SettingGroup::Agent => "Agent",
            SettingGroup::Memory => "记忆",
            SettingGroup::Tools => "工具",
            SettingGroup::Rag => "RAG",
            SettingGroup::Meeting => "会议",
            SettingGroup::Security => "安全",
            SettingGroup::Advanced => "高级",
        }
    }
}

/// The type of value a setting takes.
#[derive(Debug, Clone, Copy, PartialEq, Eq, Structural)]
pub enum SettingKind {
    Bool,
    Int,
    Float,
    String,
    Select,
}

} // verus!
