//! Configuration and record types shared across the application.
use vstd::prelude::*;
use vstd::string::StringExecFns;

verus! {

/// Run mode of the application.
#[derive(Debug, Clone, Copy, PartialEq, Eq, Structural)]
pub enum AppMode {
    Hybrid,
    StrictLocal,
}

impl Default for AppMode {
    fn default() -> (r: Self)
        ensures
            r == AppMode::Hybrid,
    {
        AppMode::Hybrid
    }
}

/// Decision of the shell policy for one class of commands.
#[derive(Debug, Clone, Copy, PartialEq, Eq, Structural)]
pub enum ShellPolicyDecision {
    AutoAllow,
    RequireApproval,
    Deny,
}

/// Wire name of a decision.
pub open spec fn decision_name(d: ShellPolicyDecision) -> Seq<char> {
    match d {
        ShellPolicyDecision::AutoAllow => "auto_allow"@,
        ShellPolicyDecision::RequireApproval => "require_approval"@,
        ShellPolicyDecision::Deny => "deny"@,
    }
}

impl ShellPolicyDecision {
    /// Wire name of the decision.
    pub fn as_str(&self) -> (r: &'static str)
        ensures
            r@ == decision_name(*self),
    {
        match self {
            ShellPolicyDecision::AutoAllow => "auto_allow",
            ShellPolicyDecision::RequireApproval => "require_approval",
            ShellPolicyDecision::Deny => "deny",
        }
    }
}

/// Shell policy: one decision per class of command and origin.
#[derive(Debug, Clone, Copy, PartialEq, Eq, Structural)]
pub struct ShellPolicyConfig {
    /// Decision for commands of unknown kind typed by the user.
    pub manual_unknown_decision: ShellPolicyDecision,
    /// Decision for writing commands typed by the user.
    pub manual_write_decision: ShellPolicyDecision,
    /// Decision for reading commands issued by the agent.
    pub agent_read_decision: ShellPolicyDecision,
    /// Decision for writing commands issued by the agent.
    pub agent_write_decision: ShellPolicyDecision,
    /// Decision for commands of unknown kind issued by the agent.
    pub agent_unknown_decision: ShellPolicyDecision,
    /// Decision for network commands, whatever their origin.
    pub network_decision: ShellPolicyDecision,
    /// Decision for script commands, whatever their origin.
    pub script_decision: ShellPolicyDecision,
}

/// Default decision for typed commands of unknown kind.
pub fn default_shell_policy_manual_unknown_decision() -> (r: ShellPolicyDecision)
    ensures
        r == ShellPolicyDecision::AutoAllow,
{
    ShellPolicyDecision::AutoAllow
}

/// Default decision for writing commands issued by the agent.
pub fn default_shell_policy_agent_write_decision() -> (r: ShellPolicyDecision)
    ensures
        r == ShellPolicyDecision::RequireApproval,
{
    ShellPolicyDecision::RequireApproval
}

/// Default decision for typed writing commands.
pub fn default_shell_policy_manual_write_decision() -> (r: ShellPolicyDecision)
    ensures
        r == ShellPolicyDecision::AutoAllow,
{
    ShellPolicyDecision::AutoAllow
}

/// Default decision for reading commands issued by the agent.
pub fn default_shell_policy_agent_read_decision() -> (r: ShellPolicyDecision)
    ensures
        r == ShellPolicyDecision::AutoAllow,
{
    ShellPolicyDecision::AutoAllow
}

/// Default decision for commands of unknown kind issued by the agent.
pub fn default_shell_policy_agent_unknown_decision() -> (r: ShellPolicyDecision)
    ensures
        r == ShellPolicyDecision::RequireApproval,
{
    ShellPolicyDecision::RequireApproval
}

/// Default decision for network commands.
pub fn default_shell_policy_network_decision() -> (r: ShellPolicyDecision)
    ensures
        r == ShellPolicyDecision::RequireApproval,
{
    ShellPolicyDecision::RequireApproval
}

/// Default decision for script commands.
pub fn default_shell_policy_script_decision() -> (r: ShellPolicyDecision)
    ensures
        r == ShellPolicyDecision::RequireApproval,
{
    ShellPolicyDecision::RequireApproval
}

/// The balanced policy, which is also the default one.
pub open spec fn balanced_policy() -> ShellPolicyConfig {
    ShellPolicyConfig {
        manual_unknown_decision: ShellPolicyDecision::AutoAllow,
        manual_write_decision: ShellPolicyDecision::AutoAllow,
        agent_read_decision: ShellPolicyDecision::AutoAllow,
        agent_write_decision: ShellPolicyDecision::RequireApproval,
        agent_unknown_decision: ShellPolicyDecision::RequireApproval,
        network_decision: ShellPolicyDecision::RequireApproval,
        script_decision: ShellPolicyDecision::RequireApproval,
    }
}

impl Default for ShellPolicyConfig {
    fn default() -> (r: Self)
        ensures
            r == balanced_policy(),
    {
        Self {
            manual_unknown_decision: default_shell_policy_manual_unknown_decision(),
            manual_write_decision: default_shell_policy_manual_write_decision(),
            agent_read_decision: default_shell_policy_agent_read_decision(),
            agent_write_decision: default_shell_policy_agent_write_decision(),
            agent_unknown_decision: default_shell_policy_agent_unknown_decision(),
            network_decision: default_shell_policy_network_decision(),
            script_decision: default_shell_policy_script_decision(),
        }
    }
}

/// Preset levels of the shell policy.
#[derive(Debug, Clone, Copy, PartialEq, Eq, Structural)]
pub enum ShellPolicyProfile {
    Strict,
    Balanced,
    PowerUser,
}

/// The policy a profile stands for.
pub open spec fn profile_policy(profile: ShellPolicyProfile) -> ShellPolicyConfig {
    match profile {
        ShellPolicyProfile::Strict => ShellPolicyConfig {
            manual_unknown_decision: ShellPolicyDecision::Deny,
            manual_write_decision: ShellPolicyDecision::RequireApproval,
            agent_read_decision: ShellPolicyDecision::RequireApproval,
            agent_write_decision: ShellPolicyDecision::Deny,
            agent_unknown_decision: ShellPolicyDecision::Deny,
            network_decision: ShellPolicyDecision::Deny,
            script_decision: ShellPolicyDecision::Deny,
        },
        ShellPolicyProfile::Balanced => balanced_policy(),
        ShellPolicyProfile::PowerUser => ShellPolicyConfig {
            manual_unknown_decision: ShellPolicyDecision::AutoAllow,
            manual_write_decision: ShellPolicyDecision::AutoAllow,
            agent_read_decision: ShellPolicyDecision::AutoAllow,
            agent_write_decision: ShellPolicyDecision::AutoAllow,
            agent_unknown_decision: ShellPolicyDecision::AutoAllow,
            network_decision: ShellPolicyDecision::AutoAllow,
            script_decision: ShellPolicyDecision::RequireApproval,
        },
    }
}

impl ShellPolicyConfig {
    /// The policy of a preset level.
    pub fn from_profile(profile: ShellPolicyProfile) -> (r: Self)
        ensures
            r == profile_policy(profile),
    {
        match profile {
            ShellPolicyProfile::Strict => Self {
                manual_unknown_decision: ShellPolicyDecision::Deny,
                manual_write_decision: ShellPolicyDecision::RequireApproval,
                agent_read_decision: ShellPolicyDecision::RequireApproval,
                agent_write_decision: ShellPolicyDecision::Deny,
                agent_unknown_decision: ShellPolicyDecision::Deny,
                network_decision: ShellPolicyDecision::Deny,
                script_decision: ShellPolicyDecision::Deny,
            },
            ShellPolicyProfile::Balanced => Self::default(),
            ShellPolicyProfile::PowerUser => Self {
                manual_unknown_decision: ShellPolicyDecision::AutoAllow,
                manual_write_decision: ShellPolicyDecision::AutoAllow,
                agent_read_decision: ShellPolicyDecision::AutoAllow,
                agent_write_decision: ShellPolicyDecision::AutoAllow,
                agent_unknown_decision: ShellPolicyDecision::AutoAllow,
                network_decision: ShellPolicyDecision::AutoAllow,
                script_decision: ShellPolicyDecision::RequireApproval,
            },
        }
    }
}

// ───────────────────────── records ─────────────────────────

/// 模式切换结果。
#[derive(Debug, Clone)]
pub struct ModeChangeResult {
    pub previous_mode: AppMode,
    pub current_mode: AppMode,
    pub strict_local_enabled: bool,
}

/// 本地配置。
#[derive(Debug, Clone)]
pub struct AppConfig {
    pub mode: AppMode,
    pub vault_path: Option<String>,
    pub query_top_k: Option<usize>,
    /// 云端 API Key（仅存本地，不入仓库）
    pub cloud_api_key: Option<String>,
    /// 云端基础地址，兼容 OpenAI / DeepSeek 等 OpenAI-compatible Provider
    pub cloud_base_url: Option<String>,
    /// 云端模型名
    pub cloud_model: Option<String>,
    /// 云端 Provider 名称
    pub cloud_provider_name: Option<String>,
    /// 当前活跃 Provider
    pub active_provider: Option<String>,
    /// 默认 OCR provider（tesseract / paddle），未设置时回退 tesseract
    pub default_ocr_provider: Option<String>,
    /// 本地 Ollama 模型名（手动指定，覆盖默认值）
    pub ollama_model: Option<String>,
    /// 本地 Ollama Base URL（手动指定，覆盖默认值）
    pub ollama_base_url: Option<String>,
    /// Embedding 专用 Ollama 模型（独立于 LLM 模型，默认 nomic-embed-text:latest）
    pub embed_ollama_model: Option<String>,
    /// Embedding 专用 Ollama Base URL（默认与 ollama_base_url 相同）
    pub embed_ollama_base_url: Option<String>,
    /// Embedding 后端（"onnx" | "ollama" | "disabled"，默认 "onnx"）
    pub embed_backend: Option<String>,
    /// ONNX 模型名（"multilingual-e5-small" / "bge-small-zh-v1.5"，默认前者）
    pub embed_onnx_model: Option<String>,
    /// Shell 策略配置（H6-S3：能力最大化与安全收敛）。
    pub shell_policy: Option<ShellPolicyConfig>,
}

/// LLM Provider 配置（Settings 页面读写接口）
#[derive(Debug, Clone)]
pub struct LlmProviderConfig {
    /// 云端 API Key（空字符串表示未配置）
    pub cloud_api_key: String,
    /// 云端基础地址，兼容 OpenAI / DeepSeek 等 OpenAI-compatible Provider
    pub cloud_base_url: String,
    /// 云端模型名，空字符串时使用默认值
    pub cloud_model: String,
    /// 云端 Provider 名称，空字符串时使用默认值
    pub cloud_provider_name: String,
    /// 当前活跃的 provider 类型（"cloud" / "ollama"）
    pub active_provider: String,
    /// 本地 Ollama 模型名（手动指定）
    pub ollama_model: String,
    /// 本地 Ollama Base URL（手动指定）
    pub ollama_base_url: String,
    /// Embedding 专用 Ollama 模型（默认 nomic-embed-text:latest）
    pub embed_ollama_model: String,
    /// Embedding 专用 Ollama Base URL（默认与 ollama_base_url 相同）
    pub embed_ollama_base_url: String,
    /// Embedding 后端（"onnx" | "ollama" | "disabled"）
    pub embed_backend: String,
    /// ONNX 模型名（"multilingual-e5-small" | "bge-small-zh-v1.5"）
    pub embed_onnx_model: String,
}

/// 应用总览。
#[derive(Debug, Clone)]
pub struct AppOverview {
    pub app_name: String,
    pub mode: AppMode,
    pub vault_path: String,
    pub recent_log_count: usize,
    pub pending_tasks: usize,
    pub supported_modes: Vec<AppMode>,
}

/// 日志级别。
#[derive(Debug, Clone, Copy, PartialEq, Eq)]
pub enum LogLevel {
    Info,
    Warn,
    Error,
}

/// 最近日志项。
#[derive(Debug, Clone)]
pub struct LogEntry {
    pub id: u64,
    pub level: LogLevel,
    pub message: String,
    pub created_at: String,
}

/// Lint 问题。
#[derive(Debug, Clone)]
pub struct LintIssue {
    pub code: String,
    pub severity: String,
    pub message: String,
    pub path: Option<String>,
    pub suggestion: String,
}

/// Lint 严重级别统计。
#[derive(Debug, Clone, Copy, Default)]
pub struct LintSeverityStats {
    pub error: usize,
    pub warning: usize,
    pub info: usize,
}

/// Lint 报告。
#[derive(Debug, Clone)]
pub struct LintReport {
    pub mode: AppMode,
    pub checked_at: String,
    pub summary: String,
    pub issues: Vec<LintIssue>,
    pub severity_stats: LintSeverityStats,
}

/// Lint 补丁建议项。
#[derive(Debug, Clone)]
pub struct LintPatchSuggestion {
    pub issue_code: String,
    pub path: Option<String>,
    pub title: String,
    pub proposed_action: String,
    pub patch_preview: String,
}

/// Lint 补丁预览结果。
#[derive(Debug, Clone)]
pub struct LintPatchPreview {
    pub generated_at: String,
    pub total: usize,
    pub suggestions: Vec<LintPatchSuggestion>,
}

/// Lint 补丁应用请求。
#[derive(Debug, Clone)]
pub struct LintPatchApplyInput {
    pub issue_code: String,
    pub path: Option<String>,
}

/// Lint 补丁应用结果。
#[derive(Debug, Clone)]
pub struct LintPatchApplyResult {
    pub issue_code: String,
    pub path: Option<String>,
    pub applied: bool,
    pub message: String,
    pub touched_paths: Vec<String>,
}

/// Lint 补丁批量应用状态。
#[derive(Debug, Clone, Copy, PartialEq, Eq)]
pub enum LintPatchBatchApplyStatus {
    Success,
    Failed,
    Skipped,
}

/// Lint 补丁批量应用项结果。
#[derive(Debug, Clone)]
pub struct LintPatchBatchApplyItemResult {
    pub issue_code: String,
    pub path: Option<String>,
    pub status: LintPatchBatchApplyStatus,
    pub applied: bool,
    pub message: String,
    pub touched_paths: Vec<String>,
    pub error: Option<String>,
}

/// Lint 补丁批量应用结果。
#[derive(Debug, Clone)]
pub struct LintPatchBatchApplyResult {
    pub total: usize,
    pub success: usize,
    pub failed: usize,
    pub skipped: usize,
    pub items: Vec<LintPatchBatchApplyItemResult>,
}

/// Lint 补丁应用事件项。
#[derive(Debug, Clone)]
pub struct LintPatchEventItem {
    pub issue_code: String,
    pub path: Option<String>,
    pub applied: bool,
    pub message: String,
    pub created_at: String,
}

/// Vault 初始化结果。
#[derive(Debug, Clone)]
pub struct VaultInitResult {
    pub vault_path: String,
    pub created_paths: Vec<String>,
    pub message: String,
}

/// Markdown 导入结果。
#[derive(Debug, Clone)]
pub struct IngestResult {
    pub source_path: String,
    pub raw_path: String,
    pub wiki_path: String,
    pub message: String,
    /// LLM 提取的关键实体列表（P1 复利机制）
    pub entities: Vec<String>,
    /// 被注入反向链接的相关 Wiki 页面路径（P1 复利机制）
    pub updated_pages: Vec<String>,
}

/// 页面快速结构检查结果（无需 LLM，仅文件系统）
#[derive(Debug, Clone)]
pub struct PageQuickLint {
    pub wiki_path: String,
    /// 内容中 [[wiki-links]] 找不到对应页面的链接列表
    pub broken_links: Vec<String>,
    /// frontmatter entities 中没有对应 wiki 页面的实体名列表
    pub missing_entity_pages: Vec<String>,
    /// 总问题数 = broken_links.len() + missing_entity_pages.len()
    pub issues_count: usize,
}

/// 摄入预览信息（仅分析，不落盘）。
#[derive(Debug, Clone)]
pub struct IngestPreview {
    pub preview_id: String,
    pub source_path: String,
    pub summary: String,
    pub entities: Vec<String>,
    pub updated_pages: Vec<String>,
}

/// 默认路径集合。
#[derive(Debug, Clone)]
pub struct DefaultPaths {
    pub vault_path: String,
    pub ingest_source_path: String,
}

/// Query 回答引用项。
#[derive(Debug, Clone)]
pub struct QueryCitation {
    pub page_path: String,
    pub display_path: Option<String>,
    pub score: usize,
    pub excerpt: String,
}

/// Query 检索路径调试项（用于解释多路召回贡献）。
#[derive(Debug, Clone)]
pub struct QuerySearchRouteDebug {
    /// 路径标识，如 fts / linked / popular / embedding。
    pub route: String,
    /// 该路径提供的候选数量。
    pub candidate_count: usize,
    /// 候选路径前若干项（用于快速诊断）。
    pub top_candidates: Vec<String>,
    /// 最终命中页中由该路径贡献的路径。
    pub contributed_paths: Vec<String>,
}

/// Query 运行参数。
#[derive(Debug, Clone, Default)]
pub struct QueryAskOptions {
    pub top_k: Option<usize>,
}

/// Query 参数配置。
#[derive(Debug, Clone)]
pub struct QuerySettings {
    pub top_k: usize,
    pub min_top_k: usize,
    pub max_top_k: usize,
}

/// Query 结果保存请求。
#[derive(Debug, Clone)]
pub struct SaveQueryAnswerInput {
    pub question: String,
    pub answer: String,
    pub citations: Vec<QueryCitation>,
    pub title: Option<String>,
}

/// Query 结果保存结果。
#[derive(Debug, Clone)]
pub struct SaveQueryAnswerResult {
    pub wiki_path: String,
    pub page_title: String,
    pub message: String,
}

/// Wiki 页面保存结果。
#[derive(Debug, Clone)]
pub struct SaveWikiPageResult {
    pub path: String,
    pub message: String,
}

/// Wiki 页面删除结果。
#[derive(Debug, Clone)]
pub struct DeleteWikiPageResult {
    pub path: String,
    pub message: String,
}

/// Wiki 页面重命名结果。
#[derive(Debug, Clone)]
pub struct RenameWikiPageResult {
    /// 重命名后的新路径
    pub new_path: String,
    pub message: String,
}

/// Wiki 页面历史列表项。
#[derive(Debug, Clone)]
pub struct WikiPageHistoryItem {
    pub id: i64,
    pub path: String,
    pub title: String,
    pub content_hash: String,
    pub checksum: String,
    pub created_at: String,
}

/// Wiki 页面历史详情，包含覆盖前正文。
#[derive(Debug, Clone)]
pub struct WikiPageHistoryDetail {
    pub id: i64,
    pub path: String,
    pub title: String,
    pub content_hash: String,
    pub checksum: String,
    pub created_at: String,
    pub content: String,
}

/// 长时间操作的进度事件载荷（Tauri emit 用）。
#[derive(Debug, Clone)]
pub struct ProgressPayload {
    /// 当前步骤标识，如 "summarizing" / "extracting_entities" / "done"
    pub step: String,
    /// 面向用户的进度描述
    pub message: String,
}

/// LLM 状态。
#[derive(Debug, Clone)]
pub struct LlmStatus {
    pub provider: String,
    pub base_url: String,
    pub model: String,
    pub healthy: bool,
    pub message: String,
    pub mode: AppMode,
}

/// Ask 历史单条记录（前端显示用）。
#[derive(Debug, Clone)]
pub struct AskHistoryItem {
    pub id: i64,
    pub question: String,
    pub created_at: String,
}

/// Ask 会话摘要（会话管理列表用）。
#[derive(Debug, Clone)]
pub struct AskSessionItem {
    pub session_id: String,
    pub title: String,
    pub created_at: String,
    pub updated_at: String,
    pub turn_count: usize,
    pub last_turn_role: Option<String>,
    pub last_turn_content: Option<String>,
}

/// Outbox 事件项（增量导出与消费确认用）。
#[derive(Debug, Clone)]
pub struct OutboxEventItem {
    pub id: i64,
    pub event_type: String,
    pub payload_json: String,
    pub created_at: String,
    pub processed_at: Option<String>,
    pub consumer_tag: Option<String>,
}

/// Outbox ack 结果。
#[derive(Debug, Clone)]
pub struct OutboxAckResult {
    pub acked: usize,
    pub up_to_id: i64,
    pub consumer_tag: String,
}

/// Agent Run 摘要项（H0 后端脚手架）。
#[derive(Debug, Clone)]
pub struct AgentRunItem {
    pub id: i64,
    pub topic: String,
    pub status: String,
    pub created_at: String,
    pub updated_at: String,
    pub completed_at: Option<String>,
    pub archived_at: Option<String>,
}

/// Agent Run 事件项（H0 后端脚手架）。
#[derive(Debug, Clone)]
pub struct AgentRunEventItem {
    pub id: i64,
    pub run_id: i64,
    pub level: String,
    pub message: String,
    pub created_at: String,
}

/// Agent Draft 草稿项（H1：草稿生成与审批）。
#[derive(Debug, Clone)]
pub struct AgentDraftItem {
    pub id: i64,
    pub run_id: i64,
    pub title: String,
    pub content: String,
    pub status: String,
    pub created_at: String,
    pub updated_at: String,
}

/// 审批前冲突检测结果（H1 审批弹窗用）
#[derive(Debug, Clone)]
pub struct AgentDraftConflictInfo {
    pub draft_id: i64,
    /// 草稿标题
    pub title: String,
    /// true = vault/wiki 下已存在同名页面
    pub conflict: bool,
    /// 已有页面的文件路径（仅冲突时有值）
    pub existing_path: Option<String>,
    /// 已有页面前 300 字预览（仅冲突时有值）
    pub existing_preview: Option<String>,
}

/// Ask 会话单轮记录（多轮对话用）
#[derive(Debug, Clone)]
pub struct AskTurn {
    /// "user" 或 "assistant"
    pub role: String,
    pub content: String,
}

/// 跨会话检索命中项（按会话轮次返回）。
#[derive(Debug, Clone)]
pub struct AskSessionSearchHitItem {
    pub session_id: String,
    pub session_title: String,
    pub turn_id: i64,
    pub role: String,
    pub snippet: String,
    pub created_at: String,
}

/// Wiki 页面详情。
#[derive(Debug, Clone)]
pub struct WikiPageDetail {
    pub title: String,
    pub path: String,
    pub display_path: String,
    pub frontmatter: Option<WikiPageFrontmatter>,
    pub content: String,
    pub updated_at: String,
}

/// Wiki 页面 frontmatter 结构化信息。
#[derive(Debug, Clone)]
pub struct WikiPageFrontmatter {
    pub title: Option<String>,
    pub source: Option<String>,
    pub raw: Option<String>,
    pub imported_at: Option<String>,
    pub entities: Vec<String>,
    /// 是否已过时（由用户或 lint 标记）
    pub stale: Option<bool>,
}

/// Wiki 页面引用项。
#[derive(Debug, Clone)]
pub struct WikiPageCitationItem {
    pub cited_page_path: String,
    pub cited_page_display_path: Option<String>,
    pub score: usize,
    pub excerpt: String,
    pub target_exists: bool,
}

/// 知识图谱节点（对应一个 Wiki 页面）。
#[derive(Debug, Clone)]
pub struct KnowledgeGraphNode {
    /// 节点唯一 ID（页面绝对路径）
    pub id: String,
    /// 显示标签（页面标题）
    pub label: String,
    /// 分组标识（第一个 entity 标签，或空字符串）
    pub group: String,
}

/// 知识图谱边（页面间引用关系）。
#[derive(Debug, Clone)]
pub struct KnowledgeGraphLink {
    /// 来源页面路径
    pub source: String,
    /// 目标页面路径
    pub target: String,
}

/// 知识图谱完整数据。
#[derive(Debug, Clone)]
pub struct KnowledgeGraphData {
    pub nodes: Vec<KnowledgeGraphNode>,
    pub links: Vec<KnowledgeGraphLink>,
}

/// 知识子图方向过滤。
#[derive(Debug, Clone, Copy, PartialEq, Eq)]
pub enum KnowledgeGraphDirection {
    Both,
    Out,
    In,
}

/// 知识子图元信息。
#[derive(Debug, Clone)]
pub struct KnowledgeSubgraphMeta {
    pub center_page_path: String,
    pub hop: u8,
    pub direction: KnowledgeGraphDirection,
    pub truncated: bool,
    pub node_count: usize,
    pub link_count: usize,
}

/// 知识子图返回结构。
#[derive(Debug, Clone)]
pub struct KnowledgeSubgraphData {
    pub nodes: Vec<KnowledgeGraphNode>,
    pub links: Vec<KnowledgeGraphLink>,
    pub meta: KnowledgeSubgraphMeta,
}

#[derive(Debug, Clone, PartialEq, Eq)]
pub enum IngestQueueStatus {
    Queued,
    Running,
    Done,
    Failed,
    Cancelled,
}

/// Agent 记忆项（H2：记忆增强，前端传输用）。
#[derive(Debug, Clone)]
pub struct AgentMemoryItem {
    pub id: i64,
    pub run_id: Option<i64>,
    pub memory_key: String,
    pub memory_value: String,
    pub created_at: String,
    pub updated_at: String,
}

/// Agent 技能模板项（H3：技能化基础资产）。
#[derive(Debug, Clone)]
pub struct AgentSkillItem {
    pub id: i64,
    pub skill_key: String,
    pub prompt_template: String,
    pub version: i64,
    pub created_at: String,
    pub updated_at: String,
}

#[derive(Debug, Clone)]
pub struct IngestQueueItem {
    pub id: i64,
    pub source_type: String,
    pub source_path: String,
    pub status: String,
    pub error: Option<String>,
    pub created_at: String,
    pub updated_at: String,
    pub started_at: Option<String>,
    pub completed_at: Option<String>,
    pub retry_count: i64,
}

/// Deep Research 任务状态（Display/FromStr 供序列化使用，枚举供类型安全扩展）。
#[derive(Debug, Clone, PartialEq)]
pub enum ResearchTaskStatus {
    Queued,
    Decomposing,
    Searching,
    Synthesizing,
    Saving,
    Done,
    Failed,
    Cancelled,
}

/// Deep Research 任务记录（前端显示用）。
#[derive(Debug, Clone)]
pub struct ResearchTaskItem {
    pub id: i64,
    pub topic: String,
    pub status: String,
    pub sub_queries: Vec<String>,
    pub web_results_count: i32,
    pub depth: i32,
    pub breadth: i32,
    pub saved_path: Option<String>,
    pub error: Option<String>,
    pub created_at: String,
    pub updated_at: String,
}

/// 搜索配置。
#[derive(Debug, Clone)]
pub struct SearchConfig {
    pub search_provider: String,
    pub tavily_api_key: String,
    pub searxng_url: String,
    pub brave_api_key: String,
    pub breadth: i32,
    pub depth: i32,
}

/// Web 搜索结果（内部使用）。
pub struct WebSearchResult {
    pub title: String,
    pub url: String,
    pub snippet: String,
    pub source: String,
}

/// 被引用次数统计（单条记录）。
#[derive(Debug, Clone)]
pub struct CitedPageStat {
    pub path: String,
    pub title: String,
    pub citation_count: usize,
}

/// 摄入来源分布（单条记录）。
#[derive(Debug, Clone)]
pub struct IngestSourceCount {
    pub source_type: String,
    pub count: usize,
}

/// Vault 知识库统计数据。
#[derive(Debug, Clone)]
pub struct VaultStats {
    pub total_pages: usize,
    pub pages_last_7_days: usize,
    pub pages_last_30_days: usize,
    pub orphan_pages: usize,
    pub total_citations: usize,
    pub top_cited_pages: Vec<CitedPageStat>,
    pub ingest_source_counts: Vec<IngestSourceCount>,
}

/// AI 辅助新建 Wiki 页面的返回结果。
#[derive(Debug, Clone)]
pub struct NewPageResult {
    pub wiki_path: String,
    pub title: String,
    pub content_preview: String,
}

/// Agent 写入审批队列中的待处理条目（H6-S2）。
/// old_str=None 表示全量覆盖写入；old_str=Some 表示精确替换（edit_wiki）。
#[derive(Debug, Clone)]
pub struct PendingAgentWrite {
    pub run_id: i64,
    pub resolved_path: String,
    pub content: String,
    pub old_str: Option<String>,
    pub created_at: String,
}

/// Shell 命令执行结果（H6-S1：Agent Studio PowerShell 执行能力）。
#[derive(Debug, Clone)]
pub struct ShellResult {
    pub command: String,
    pub stdout: String,
    pub stderr: String,
    pub exit_code: i32,
    pub working_dir: String,
    pub blocked: bool,
    pub blocked_reason: Option<String>,
    pub policy_action: String,
    pub policy_decision: String,
    pub executor: String,
}

/// Shell 审计事件（H6-P3：每次命令执行均落库）。
#[derive(Debug, Clone)]
pub struct ShellAuditEvent {
    pub id: i64,
    pub command: String,
    pub working_dir: String,
    pub policy_action: String,
    pub policy_decision: String,
    pub executor: String,
    pub blocked: bool,
    pub blocked_reason: Option<String>,
    pub exit_code: Option<i32>,
    pub latency_ms: Option<i64>,
    pub session_id: Option<String>,
    pub created_at: String,
}

/// Shell 会话元信息（H6-S3：会话型终端）。
#[derive(Debug, Clone)]
pub struct ShellSessionInfo {
    pub session_id: String,
    pub working_dir: String,
    pub executor: String,
    pub created_at: String,
}

/// Shell 流式输出事件载荷（前端通过 tauri event 订阅）。
#[derive(Debug, Clone)]
pub struct ShellStreamChunk {
    pub stream_id: String,
    pub session_id: Option<String>,
    pub chunk: String,
    pub stream: String,
    pub done: bool,
}

/// 文件附件块——从本地文件提取的纯文本，供 Chat 消息上下文使用。
#[derive(Debug, Clone)]
pub struct FileChunk {
    pub filename: String,
    pub content: String,
    pub char_count: usize,
    pub truncated: bool,
}

/// Embedding 后端状态（Phase 5 — Settings UI 用）。
#[derive(Debug, Clone)]
pub struct EmbedStatus {
    /// 后端标识，如 "onnx:multilingual-e5-small" / "ollama:nomic-embed-text" / "noop"
    pub backend_id: String,
    /// 向量维度（0 = noop 或未知）
    pub dimension: usize,
    /// 已索引页面数量
    pub indexed_count: usize,
    /// 后端是否健康可用
    pub healthy: bool,
}

/// Smithery MCP Registry 服务器列表项（H17）。
#[derive(Debug, Clone)]
pub struct SmitheryServer {
    pub qualified_name: String,
    pub display_name: String,
    pub description: String,
    pub verified: bool,
    pub use_count: u64,
    pub icon_url: Option<String>,
}

/// Smithery MCP Registry 服务器详情（H17）。
#[derive(Debug, Clone)]
pub struct SmitheryServerDetail {
    pub qualified_name: String,
    pub display_name: String,
    pub description: String,
    pub command: String,
    pub args: Vec<String>,
    pub required_env_keys: Vec<String>,
}

// ───────────────────────── record defaults and names ─────────────────────────

impl Default for AppConfig {
    fn default() -> (r: Self)
        ensures
            r.mode == AppMode::Hybrid,
            r.vault_path is None,
            r.query_top_k is None,
            r.cloud_api_key is None,
            r.cloud_base_url is None,
            r.cloud_model is None,
            r.cloud_provider_name is None,
            r.active_provider is None,
            r.default_ocr_provider is None,
            r.ollama_model is None,
            r.ollama_base_url is None,
            r.embed_ollama_model is None,
            r.embed_ollama_base_url is None,
            r.embed_backend is None,
            r.embed_onnx_model is None,
            r.shell_policy is None,
    {
        Self {
            mode: AppMode::default(),
            vault_path: None,
            query_top_k: None,
            cloud_api_key: None,
            cloud_base_url: None,
            cloud_model: None,
            cloud_provider_name: None,
            active_provider: None,
            default_ocr_provider: None,
            ollama_model: None,
            ollama_base_url: None,
            embed_ollama_model: None,
            embed_ollama_base_url: None,
            embed_backend: None,
            embed_onnx_model: None,
            shell_policy: None,
        }
    }
}

/// Default severity counters of a lint report: all zero.
pub fn default_lint_severity_stats() -> (r: LintSeverityStats)
    ensures
        r.error == 0 && r.warning == 0 && r.info == 0,
{
    LintSeverityStats { error: 0, warning: 0, info: 0 }
}

/// Default search strategy recorded for a query.
pub fn default_query_search_strategy() -> (r: String)
    ensures
        r@ == "empty"@,
{
    String::from_str("empty")
}

/// Default answer strategy recorded for a query.
pub fn default_query_answer_strategy() -> (r: String)
    ensures
        r@ == "rule"@,
{
    String::from_str("rule")
}

impl Default for KnowledgeGraphDirection {
    fn default() -> (r: Self)
        ensures
            r == KnowledgeGraphDirection::Both,
    {
        KnowledgeGraphDirection::Both
    }
}

impl Default for SearchConfig {
    fn default() -> (r: Self)
        ensures
            r.search_provider@ == "none"@,
            r.tavily_api_key@ == ""@,
            r.searxng_url@ == "http://localhost:8080"@,
            r.brave_api_key@ == ""@,
            r.breadth == 3,
            r.depth == 1,
    {
        Self {
            search_provider: String::from_str("none"),
            tavily_api_key: String::from_str(""),
            searxng_url: String::from_str("http://localhost:8080"),
            brave_api_key: String::from_str(""),
            breadth: 3,
            depth: 1,
        }
    }
}

/// Wire name of an ingest queue status.
pub open spec fn ingest_status_name(s: IngestQueueStatus) -> Seq<char> {
    match s {
        IngestQueueStatus::Queued => "queued"@,
        IngestQueueStatus::Running => "running"@,
        IngestQueueStatus::Done => "done"@,
        IngestQueueStatus::Failed => "failed"@,
        IngestQueueStatus::Cancelled => "cancelled"@,
    }
}

impl IngestQueueStatus {
    /// Wire name of the status.
    pub fn as_str(&self) -> (r: &'static str)
        ensures
            r@ == ingest_status_name(*self),
    {
        match self {
            IngestQueueStatus::Queued => "queued",
            IngestQueueStatus::Running => "running",
            IngestQueueStatus::Done => "done",
            IngestQueueStatus::Failed => "failed",
            IngestQueueStatus::Cancelled => "cancelled",
        }
    }

    /// The status with the given wire name.
    pub fn parse(s: &str) -> (r: Result<IngestQueueStatus, String>)
        ensures
            match r {
                Ok(st) => ingest_status_name(st) == s@,
                Err(m) => m@ == "unknown status: "@ + s@ && forall|st: IngestQueueStatus|
                    ingest_status_name(st) != s@,
            },
    {
        let c = crate::text::chars_of(s);
        if crate::text::str_eq_chars("queued", &c) {
            Ok(IngestQueueStatus::Queued)
        } else if crate::text::str_eq_chars("running", &c) {
            Ok(IngestQueueStatus::Running)
        } else if crate::text::str_eq_chars("done", &c) {
            Ok(IngestQueueStatus::Done)
        } else if crate::text::str_eq_chars("failed", &c) {
            Ok(IngestQueueStatus::Failed)
        } else if crate::text::str_eq_chars("cancelled", &c) {
            Ok(IngestQueueStatus::Cancelled)
        } else {
            let mut m = crate::text::chars_of("unknown status: ");
            crate::text::extend_chars(&mut m, &c);
            Err(crate::text::string_of(&m))
        }
    }
}

impl std::str::FromStr for IngestQueueStatus {
    type Err = String;

    fn from_str(s: &str) -> (r: Result<Self, Self::Err>)
        ensures
            match r {
                Ok(st) => ingest_status_name(st) == s@,
                Err(m) => m@ == "unknown status: "@ + s@ && forall|st: IngestQueueStatus| ingest_status_name(st) != s@,
            },
    {
        IngestQueueStatus::parse(s)
    }
}

/// Wire name of a research task status.
pub open spec fn research_status_name(s: ResearchTaskStatus) -> Seq<char> {
    match s {
        ResearchTaskStatus::Queued => "queued"@,
        ResearchTaskStatus::Decomposing => "decomposing"@,
        ResearchTaskStatus::Searching => "searching"@,
        ResearchTaskStatus::Synthesizing => "synthesizing"@,
        ResearchTaskStatus::Saving => "saving"@,
        ResearchTaskStatus::Done => "done"@,
        ResearchTaskStatus::Failed => "failed"@,
        ResearchTaskStatus::Cancelled => "cancelled"@,
    }
}

impl ResearchTaskStatus {
    /// Wire name of the status.
    pub fn as_str(&self) -> (r: &'static str)
        ensures
            r@ == research_status_name(*self),
    {
        match self {
            ResearchTaskStatus::Queued => "queued",
            ResearchTaskStatus::Decomposing => "decomposing",
            ResearchTaskStatus::Searching => "searching",
            ResearchTaskStatus::Synthesizing => "synthesizing",
            ResearchTaskStatus::Saving => "saving",
            ResearchTaskStatus::Done => "done",
            ResearchTaskStatus::Failed => "failed",
            ResearchTaskStatus::Cancelled => "cancelled",
        }
    }

    /// The status with the given wire name.
    pub fn parse(s: &str) -> (r: Result<ResearchTaskStatus, String>)
        ensures
            match r {
                Ok(st) => research_status_name(st) == s@,
                Err(m) => m@ == "unknown research status: "@ + s@ && forall|st: ResearchTaskStatus|
                    research_status_name(st) != s@,
            },
    {
        let c = crate::text::chars_of(s);
        if crate::text::str_eq_chars("queued", &c) {
            Ok(ResearchTaskStatus::Queued)
        } else if crate::text::str_eq_chars("decomposing", &c) {
            Ok(ResearchTaskStatus::Decomposing)
        } else if crate::text::str_eq_chars("searching", &c) {
            Ok(ResearchTaskStatus::Searching)
        } else if crate::text::str_eq_chars("synthesizing", &c) {
            Ok(ResearchTaskStatus::Synthesizing)
        } else if crate::text::str_eq_chars("saving", &c) {
            Ok(ResearchTaskStatus::Saving)
        } else if crate::text::str_eq_chars("done", &c) {
            Ok(ResearchTaskStatus::Done)
        } else if crate::text::str_eq_chars("failed", &c) {
            Ok(ResearchTaskStatus::Failed)
        } else if crate::text::str_eq_chars("cancelled", &c) {
            Ok(ResearchTaskStatus::Cancelled)
        } else {
            let mut m = crate::text::chars_of("unknown research status: ");
            crate::text::extend_chars(&mut m, &c);
            Err(crate::text::string_of(&m))
        }
    }
}

impl std::str::FromStr for ResearchTaskStatus {
    type Err = String;

    fn from_str(s: &str) -> (r: Result<Self, Self::Err>)
        ensures
            match r {
                Ok(st) => research_status_name(st) == s@,
                Err(m) => m@ == "unknown research status: "@ + s@ && forall|st: ResearchTaskStatus| research_status_name(st) != s@,
            },
    {
        ResearchTaskStatus::parse(s)
    }
}

/// How many pages carry a tag.
#[derive(Debug, Clone)]
pub struct TagStats {
    pub tag: String,
    pub count: usize,
}

/// Presets offered for the LLM provider: name, base URL and default model.
pub fn get_llm_provider_presets() -> (r: Vec<(String, String, String)>)
    ensures
        r@.len() == 3,
        r@[0].0@ == "OpenAI"@ && r@[0].1@ == "https://api.openai.com/v1"@ && r@[0].2@ == "gpt-4o-mini"@,
        r@[1].0@ == "DeepSeek"@ && r@[1].1@ == "https://api.deepseek.com"@ && r@[1].2@ == "deepseek-v4-flash"@,
        r@[2].0@ == "Moonshot"@ && r@[2].1@ == "https://api.moonshot.cn/v1"@ && r@[2].2@ == "moonshot-v1-8k"@,
{
    let mut v: Vec<(String, String, String)> = Vec::new();
    v.push(
        (
            String::from_str("OpenAI"),
            String::from_str("https://api.openai.com/v1"),
            String::from_str("gpt-4o-mini"),
        ),
    );
    v.push(
        (
            String::from_str("DeepSeek"),
            String::from_str("https://api.deepseek.com"),
            String::from_str("deepseek-v4-flash"),
        ),
    );
    v.push(
        (
            String::from_str("Moonshot"),
            String::from_str("https://api.moonshot.cn/v1"),
            String::from_str("moonshot-v1-8k"),
        ),
    );
    v
}

} // verus!
