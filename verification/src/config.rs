//! The configuration.
use crate::strings::{contains, owned};
use vstd::prelude::*;

verus! {

#[derive(Debug, Clone)]
pub struct Config {
    pub repo: RepoConfig,
    pub branches: Vec<BranchConfig>,
    pub daemon: DaemonConfig,
    pub llm: Option<LlmConfig>,
    pub notify: Option<NotifyConfig>,
    pub service: ServiceConfig,
    pub protection: ProtectionConfig,
}

/// The service listens on a local socket only.
#[derive(Debug, Clone)]
pub struct ServiceConfig {
    pub socket_path: String,
    /// A second socket without the routes that change anything.
    pub public_socket_path: Option<String>,
    pub data_dir: String,
    pub public_dashboard_url: String,
    pub operation_password_hash: String,
}

#[derive(Debug, Clone)]
pub struct RepoConfig {
    pub path: String,
    pub upstream: String,
    pub fork: String,
    pub base_branch: String,
    pub upstream_remote: String,
    pub fork_remote: String,
}

#[derive(Debug, Clone)]
pub struct BranchConfig {
    pub name: String,
    pub kind: BranchKind,
    pub note: Option<String>,
    pub sync: SyncStrategy,
    pub push: PushStrategy,
    pub tests: Vec<String>,
    /// Nothing is synchronised or released where the tests only compile.
    pub require_behavioral_tests: bool,
    pub auto_resolve: AutoResolveConfig,
    pub release: ReleaseConfig,
}

/// The command compiles Python files and runs none of them.
pub open spec fn only_compiles(command: Seq<char>) -> bool {
    crate::strings::occurs(command, "py_compile"@) || crate::strings::occurs(command, "compileall"@)
}

impl BranchConfig {
    /// One of the tests does more than compile.
    pub open spec fn behavioral(self) -> bool {
        exists|i: int| 0 <= i < self.tests@.len() && !only_compiles((#[trigger] self.tests@[i])@)
    }

    /// Tests that check behaviour are asked for, and there are none.
    pub open spec fn lacks_tests(self) -> bool {
        self.require_behavioral_tests && !self.behavioral()
    }

    /// Whether one of the tests does more than compile.
    pub fn has_behavioral_tests(&self) -> (r: bool)
        ensures
            r == self.behavioral(),
    {
        let mut i: usize = 0;
        while i < self.tests.len()
            invariant
                i <= self.tests@.len(),
                forall|k: int| 0 <= k < i ==> only_compiles((#[trigger] self.tests@[k])@),
            decreases self.tests@.len() - i,
        {
            let command = self.tests[i].as_str();
            if !contains(command, "py_compile") && !contains(command, "compileall") {
                assert(!only_compiles(self.tests@[i as int]@));
                return true;
            }
            i += 1;
        }
        false
    }
}

#[derive(Debug, Clone)]
pub struct ReleaseConfig {
    pub enabled: bool,
    pub tag_prefix: String,
}

#[derive(Debug, Clone)]
pub struct AutoResolveConfig {
    pub enabled: bool,
    pub max_conflict_files: usize,
    pub max_file_bytes: usize,
    pub require_tests: bool,
    pub allowed_paths: Vec<String>,
}

#[derive(Debug, Clone)]
pub struct DaemonConfig {
    pub interval_seconds: u64,
    pub jitter_seconds: u64,
    pub run_on_start: bool,
    pub max_consecutive_failures: u32,
}

/// How the model is reached. The sampling temperature is kept where the request is built.
#[derive(Debug, Clone)]
pub struct LlmConfig {
    pub enabled: bool,
    pub provider: LlmProvider,
    pub model: String,
    pub api_key_env: String,
    pub base_url: Option<String>,
    pub max_prompt_bytes: usize,
    pub timeout_seconds: u64,
    pub max_retries: u32,
    pub prompts: LlmPromptsConfig,
}

#[derive(Debug, Clone)]
pub struct LlmPromptsConfig {
    pub conflict_system: Option<String>,
    pub conflict_user: Option<String>,
    pub auto_resolve_system: Option<String>,
    pub auto_resolve_user: Option<String>,
    pub sync_summary_system: Option<String>,
    pub sync_summary_user: Option<String>,
}

#[derive(Debug, Clone, Copy, PartialEq, Eq, Structural)]
pub enum LlmProvider {
    DeepSeek,
    OpenAi,
    OpenAiCompatible,
    Custom,
}

#[derive(Debug, Clone)]
pub struct NotifyConfig {
    pub enabled: bool,
    pub policy: NotifyPolicyConfig,
    pub events: NotifyEventsConfig,
    pub subject_prefix: String,
    pub channels: Vec<NotifyChannelConfig>,
    pub email: Option<EmailConfig>,
}

#[derive(Debug, Clone, Copy)]
pub struct NotifyPolicyConfig {
    pub mode: NotifyPolicyMode,
}

#[derive(Debug, Clone, Copy)]
pub struct NotifyEventsConfig {
    pub sync_start: bool,
    pub sync_summary: bool,
}

#[derive(Debug, Clone, Copy, PartialEq, Eq, Structural)]
pub enum NotifyPolicyMode {
    FirstSuccess,
    Fanout,
    PrimaryWithFallback,
}

#[derive(Debug, Clone)]
pub struct NotifyChannelConfig {
    pub name: String,
    pub kind: NotifyChannelKind,
    pub enabled: bool,
    pub smtp_host: Option<String>,
    pub smtp_port: Option<u16>,
    pub tls: Option<SmtpTlsMode>,
    pub username_env: Option<String>,
    pub password_env: Option<String>,
    pub api_token_env: Option<String>,
    pub account_id_env: Option<String>,
    pub api_base_url: Option<String>,
    pub from: Option<String>,
    pub to: Vec<String>,
}

#[derive(Debug, Clone, Copy, PartialEq, Eq, Structural)]
pub enum NotifyChannelKind {
    Smtp,
    CloudflareEmailService,
}

#[derive(Debug, Clone, Copy, PartialEq, Eq, Structural)]
pub enum SmtpTlsMode {
    StartTls,
    Implicit,
    Plain,
}

#[derive(Debug, Clone)]
pub struct EmailConfig {
    pub enabled: bool,
    pub smtp_host: Option<String>,
    pub smtp_port: u16,
    pub username_env: Option<String>,
    pub password_env: Option<String>,
    pub from: Option<String>,
    pub to: Vec<String>,
}

#[derive(Debug, Clone, Copy, PartialEq, Eq, Structural)]
pub enum BranchKind {
    Product,
    Pr,
}

#[derive(Debug, Clone, Copy, PartialEq, Eq, Structural)]
pub enum SyncStrategy {
    Rebase,
    Merge,
}

#[derive(Debug, Clone, Copy, PartialEq, Eq, Structural)]
pub enum PushStrategy {
    Never,
    Normal,
    ForceWithLease,
}

/// How far the security checks may go on their own.
#[derive(Debug, Clone, Copy, PartialEq, Eq, Structural)]
pub enum ProtectionAutomation {
    Observe,
    Candidate,
}

#[derive(Debug, Clone)]
pub struct ProtectionConfig {
    pub enabled: bool,
    pub project: ProtectedProject,
    pub profiles: Vec<String>,
    pub automation: ProtectionAutomation,
}

#[derive(Debug, Clone)]
pub struct ProtectedProject {
    pub name: String,
    pub description: String,
}

pub fn default_base_branch() -> (r: String)
    ensures
        r@ == "master"@,
{
    owned("master")
}

pub fn default_upstream_remote() -> (r: String)
    ensures
        r@ == "upstream"@,
{
    owned("upstream")
}

pub fn default_fork_remote() -> (r: String)
    ensures
        r@ == "fork"@,
{
    owned("fork")
}

pub fn default_branch_kind() -> (r: BranchKind)
    ensures
        r == BranchKind::Product,
{
    BranchKind::Product
}

pub fn default_sync_strategy() -> (r: SyncStrategy)
    ensures
        r == SyncStrategy::Rebase,
{
    SyncStrategy::Rebase
}

pub fn default_push_strategy() -> (r: PushStrategy)
    ensures
        r == PushStrategy::ForceWithLease,
{
    PushStrategy::ForceWithLease
}

pub fn default_auto_resolve_max_conflict_files() -> (r: usize)
    ensures
        r == 1,
{
    1
}

pub fn default_auto_resolve_max_file_bytes() -> (r: usize)
    ensures
        r == 40 * 1024,
{
    40 * 1024
}

pub fn default_auto_resolve_require_tests() -> (r: bool)
    ensures
        r,
{
    true
}

pub fn default_daemon_interval_seconds() -> (r: u64)
    ensures
        r == 1800,
{
    1800
}

pub fn default_daemon_run_on_start() -> (r: bool)
    ensures
        r,
{
    true
}

pub fn default_daemon_max_consecutive_failures() -> (r: u32)
    ensures
        r == 3,
{
    3
}

pub fn default_service_socket_path() -> (r: String)
    ensures
        r@ == "/run/termiters/termiters.sock"@,
{
    owned("/run/termiters/termiters.sock")
}

pub fn default_service_data_dir() -> (r: String)
    ensures
        r@ == "/var/lib/termiters"@,
{
    owned("/var/lib/termiters")
}

pub fn default_llm_model() -> (r: String)
    ensures
        r@ == "deepseek-v4-pro"@,
{
    owned("deepseek-v4-pro")
}

pub fn default_llm_api_key_env() -> (r: String)
    ensures
        r@ == "DEEPSEEK_API_KEY"@,
{
    owned("DEEPSEEK_API_KEY")
}

pub fn default_max_prompt_bytes() -> (r: usize)
    ensures
        r == 80 * 1024,
{
    80 * 1024
}

pub fn default_smtp_port() -> (r: u16)
    ensures
        r == 587,
{
    587
}

pub fn default_subject_prefix() -> (r: String)
    ensures
        r@ == "[TermiteRS]"@,
{
    owned("[TermiteRS]")
}

pub fn default_notify_policy_mode() -> (r: NotifyPolicyMode)
    ensures
        r == NotifyPolicyMode::PrimaryWithFallback,
{
    NotifyPolicyMode::PrimaryWithFallback
}

impl Default for DaemonConfig {
    fn default() -> (r: Self)
        ensures
            r.interval_seconds == 1800,
            r.jitter_seconds == 0,
            r.run_on_start,
            r.max_consecutive_failures == 3,
    {
        DaemonConfig {
            interval_seconds: default_daemon_interval_seconds(),
            jitter_seconds: 0,
            run_on_start: default_daemon_run_on_start(),
            max_consecutive_failures: default_daemon_max_consecutive_failures(),
        }
    }
}

impl Default for AutoResolveConfig {
    fn default() -> (r: Self)
        ensures
            !r.enabled,
            r.max_conflict_files == 1,
            r.max_file_bytes == 40 * 1024,
            r.require_tests,
            r.allowed_paths@.len() == 0,
    {
        AutoResolveConfig {
            enabled: false,
            max_conflict_files: default_auto_resolve_max_conflict_files(),
            max_file_bytes: default_auto_resolve_max_file_bytes(),
            require_tests: default_auto_resolve_require_tests(),
            allowed_paths: Vec::new(),
        }
    }
}

impl Default for ReleaseConfig {
    fn default() -> (r: Self)
        ensures
            !r.enabled,
            r.tag_prefix@.len() == 0,
    {
        ReleaseConfig { enabled: false, tag_prefix: String::new() }
    }
}

impl Default for ServiceConfig {
    fn default() -> (r: Self)
        ensures
            r.socket_path@ == "/run/termiters/termiters.sock"@,
            r.public_socket_path is None,
            r.data_dir@ == "/var/lib/termiters"@,
            r.public_dashboard_url@.len() == 0,
            r.operation_password_hash@.len() == 0,
    {
        ServiceConfig {
            socket_path: default_service_socket_path(),
            public_socket_path: None,
            data_dir: default_service_data_dir(),
            public_dashboard_url: String::new(),
            operation_password_hash: String::new(),
        }
    }
}

impl Default for LlmProvider {
    fn default() -> (r: Self)
        ensures
            r == LlmProvider::OpenAiCompatible,
    {
        LlmProvider::OpenAiCompatible
    }
}

impl Default for LlmPromptsConfig {
    fn default() -> (r: Self)
        ensures
            r.conflict_system is None,
            r.conflict_user is None,
            r.auto_resolve_system is None,
            r.auto_resolve_user is None,
            r.sync_summary_system is None,
            r.sync_summary_user is None,
    {
        LlmPromptsConfig {
            conflict_system: None,
            conflict_user: None,
            auto_resolve_system: None,
            auto_resolve_user: None,
            sync_summary_system: None,
            sync_summary_user: None,
        }
    }
}

impl Default for NotifyPolicyMode {
    fn default() -> (r: Self)
        ensures
            r == NotifyPolicyMode::PrimaryWithFallback,
    {
        NotifyPolicyMode::PrimaryWithFallback
    }
}

impl Default for NotifyPolicyConfig {
    fn default() -> (r: Self)
        ensures
            r.mode == NotifyPolicyMode::PrimaryWithFallback,
    {
        NotifyPolicyConfig { mode: default_notify_policy_mode() }
    }
}

impl Default for NotifyEventsConfig {
    fn default() -> (r: Self)
        ensures
            !r.sync_start,
            !r.sync_summary,
    {
        NotifyEventsConfig { sync_start: false, sync_summary: false }
    }
}

impl Default for ProtectionConfig {
    fn default() -> (r: Self)
        ensures
            !r.enabled,
            r.project.name@.len() == 0,
            r.project.description@.len() == 0,
            r.profiles@.len() == 0,
            r.automation == ProtectionAutomation::Observe,
    {
        ProtectionConfig {
            enabled: false,
            project: ProtectedProject { name: String::new(), description: String::new() },
            profiles: Vec::new(),
            automation: ProtectionAutomation::Observe,
        }
    }
}

} // verus!
