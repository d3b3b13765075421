//! The records of the security checks.
use vstd::prelude::*;

verus! {

#[derive(Debug, Clone, Copy, PartialEq, Eq, Structural)]
pub enum SecuritySignalSource {
    UpstreamCommit,
    DependencyAdvisory,
    PackageRelease,
    UserReport,
    ProductionIndicator,
    StaticSupplyChainScan,
}

#[derive(Debug, Clone)]
pub struct SecuritySignal {
    pub id: String,
    pub project: String,
    pub source: SecuritySignalSource,
    pub summary: String,
    pub reference: Option<String>,
    pub dedupe_key: String,
    pub received_at: String,
}

#[derive(Debug, Clone, Copy, PartialEq, Eq, Structural)]
pub enum FindingState {
    Discovered,
    Investigating,
    Affected,
    Unaffected,
    Uncertain,
    CandidatePrepared,
    Verified,
    AwaitingDelivery,
    Delivered,
}

#[derive(Debug, Clone)]
pub struct ProtectionFinding {
    pub id: String,
    pub project: String,
    pub signal_id: String,
    pub state: FindingState,
    pub classification: String,
    pub severity: String,
    pub confidence: String,
    pub affected: Option<bool>,
    pub build_allowed: bool,
    pub summary: String,
    pub evidence: Vec<String>,
    pub dedupe_key: String,
    pub created_at: String,
    pub updated_at: String,
}

#[derive(Debug, Clone, Copy, PartialEq, Eq, Structural)]
pub enum RemediationAction {
    KeepCurrent,
    PinVersion,
    ApplyUpstreamPatch,
    UpgradeVersion,
    LocalSecurityPatch,
    ConfigurationMitigation,
    DisableFeature,
}

#[derive(Debug, Clone)]
pub struct RemediationPlan {
    pub id: String,
    pub finding_id: String,
    pub action: RemediationAction,
    pub summary: String,
    pub requirements: Vec<String>,
    pub created_at: String,
}

#[derive(Debug, Clone)]
pub struct CandidateArtifact {
    pub id: String,
    pub finding_id: String,
    pub worktree_path: String,
    pub content_sha256: String,
    pub summary: String,
    pub created_at: String,
}

#[derive(Debug, Clone)]
pub struct VerificationResult {
    pub id: String,
    pub candidate_id: String,
    pub verifier: String,
    pub passed: bool,
    pub summary: String,
    pub evidence: Vec<String>,
    pub created_at: String,
}

#[derive(Debug, Clone, Copy, PartialEq, Eq, Structural)]
pub enum DeliveryKind {
    Email,
    GithubIssue,
    GithubBranch,
    PullRequest,
    Artifact,
    Deployment,
}

#[derive(Debug, Clone)]
pub struct DeliveryDraft {
    pub id: String,
    pub finding_id: String,
    pub kind: DeliveryKind,
    pub destination: String,
    pub title: String,
    pub body: String,
    pub labels: Vec<String>,
    pub dedupe_key: String,
    pub approval_required: bool,
    pub created_at: String,
}

#[derive(Debug, Clone)]
pub struct StaticIndicator {
    pub rule_id: String,
    pub severity: String,
    pub path: String,
    pub summary: String,
    pub evidence: String,
}

#[derive(Debug, Clone)]
pub struct StaticScanReport {
    pub project: String,
    pub root: String,
    pub scanned_files: usize,
    pub build_allowed: bool,
    pub blockers: Vec<StaticIndicator>,
    pub warnings: Vec<StaticIndicator>,
    pub dedupe_key: String,
}

#[derive(Debug, Clone, Copy, PartialEq, Eq, Structural)]
pub enum SecurityCategory {
    RemoteCodeExecution,
    CommandInjection,
    CodeInjection,
    ServerSideRequestForgery,
    AuthenticationBypass,
    AuthorizationBypass,
    SignatureBypass,
    ProofVerificationBypass,
    ArbitraryFileRead,
    ArbitraryFileWrite,
    PathTraversal,
    UnsafeDeserialization,
    SecretOrKeyDisclosure,
    SupplyChainMalware,
    ConsensusSafety,
    UnauthorizedUpgrade,
    PermanentServiceHalt,
    ResourceExhaustion,
    InformationDisclosure,
    Other,
}

#[derive(Debug, Clone, Copy, PartialEq, Eq, Structural)]
pub enum SecuritySeverity {
    P0,
    P1,
    P2,
    P3,
    Informational,
}

#[derive(Debug, Clone, Copy, PartialEq, Eq, Structural)]
pub enum SecurityConfidence {
    High,
    Medium,
    Low,
}

#[derive(Debug, Clone)]
pub struct FixContract {
    pub security_property: String,
    pub vulnerable_behavior: String,
    pub fixed_behavior: String,
    pub attack_preconditions: Vec<String>,
    pub regression_cases: Vec<String>,
}

#[derive(Debug, Clone)]
pub struct SecurityReviewDecision {
    pub security_fix_detected: bool,
    pub introduced_risk: bool,
    pub severity: SecuritySeverity,
    pub categories: Vec<SecurityCategory>,
    pub affected: Option<bool>,
    pub production_reachable: Option<bool>,
    pub confidence: SecurityConfidence,
    pub summary: String,
    pub mechanism: String,
    pub evidence: Vec<String>,
    pub fix_contract: Option<FixContract>,
}

#[derive(Debug, Clone, Copy, PartialEq, Eq, Structural)]
pub enum SecurityDisposition {
    Allow,
    VerifyRequired,
    NeedsReview,
    Block,
}

#[derive(Debug, Clone)]
pub struct EvaluatedSecurityReview {
    pub commit: String,
    pub decision: SecurityReviewDecision,
    pub disposition: SecurityDisposition,
    pub policy_reasons: Vec<String>,
    pub policy_fingerprint: String,
}

#[derive(Debug, Clone)]
pub struct CommitSecurityReviewBatch {
    pub project: String,
    pub from: String,
    pub to: String,
    pub reviews: Vec<EvaluatedSecurityReview>,
    pub disposition: SecurityDisposition,
    pub cache_hits: usize,
}

#[derive(Debug, Clone)]
pub struct SecurityContractVerificationDecision {
    pub security_property_present: bool,
    pub vulnerable_behavior_removed: bool,
    pub regression_evidence_present: bool,
    pub confidence: SecurityConfidence,
    pub summary: String,
    pub evidence: Vec<String>,
    pub missing_regressions: Vec<String>,
}

#[derive(Debug, Clone)]
pub struct EvaluatedContractVerification {
    pub commit: String,
    pub passed: bool,
    pub decision: SecurityContractVerificationDecision,
    pub dedupe_key: String,
}

} // verus!
