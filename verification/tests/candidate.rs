use termiters::command::CommandOutput;
use termiters::config::{
    AutoResolveConfig, BranchConfig, BranchKind, ProtectionConfig, PushStrategy, ReleaseConfig,
    SyncStrategy,
};
use termiters::protection::candidate::{
    candidate_directory, failed_candidate_artifacts, failed_patch_args, passed_artifacts,
    prepare_candidate, signal_contract_batch, CandidateAction, CandidateEvent, CandidateRun,
    CandidateStage,
};
use termiters::protection::investigate::{
    conclude_finding, dependency_evidence, investigate_security_signal, requires_remediation,
    safe_existing_file, signal_alert, CandidateChange, FileFacts, SignalInvestigationDecision,
};
use termiters::protection::issue::prepare_security_review_issue_draft;
use termiters::protection::catalog::{evaluate_security_review, severity_str};
use termiters::protection::model::{
    FindingState, FixContract, RemediationAction, SecurityCategory, SecurityConfidence,
    SecurityDisposition, SecurityReviewDecision, SecuritySeverity,
};
use termiters::protection::osv::{CargoReachabilitySnapshot, ReachablePackage};
use termiters::protection::review::{
    persist_review_finding, review_batch, run_commit_security_reviews, whole_patch, ReviewError,
};
use termiters::protection::verify::{
    bound_test_output, contract_key, required_reviews, verification_limit, VerifyError,
};

fn branch(tests: Vec<String>) -> BranchConfig {
    BranchConfig {
        name: "one".to_string(),
        kind: BranchKind::Product,
        note: None,
        sync: SyncStrategy::Rebase,
        push: PushStrategy::Never,
        tests,
        require_behavioral_tests: false,
        auto_resolve: AutoResolveConfig::default(),
        release: ReleaseConfig::default(),
    }
}

fn contract() -> FixContract {
    FixContract {
        security_property: "paths stay inside".to_string(),
        vulnerable_behavior: "a path leaves".to_string(),
        fixed_behavior: "it is refused".to_string(),
        attack_preconditions: Vec::new(),
        regression_cases: vec!["../x".to_string()],
    }
}

fn review() -> SecurityReviewDecision {
    SecurityReviewDecision {
        security_fix_detected: false,
        introduced_risk: true,
        severity: SecuritySeverity::P1,
        categories: vec![SecurityCategory::PathTraversal],
        affected: Some(true),
        production_reachable: Some(true),
        confidence: SecurityConfidence::High,
        summary: "reachable".to_string(),
        mechanism: "input".to_string(),
        evidence: vec!["src/a.rs".to_string()],
        fix_contract: Some(contract()),
    }
}

fn decision() -> SignalInvestigationDecision {
    SignalInvestigationDecision {
        review: review(),
        recommended_action: RemediationAction::LocalSecurityPatch,
        candidate_summary: "check the path".to_string(),
        changes: vec![CandidateChange {
            path: "src/a.rs".to_string(),
            content: "fn a() {}\n".to_string(),
        }],
        affected_packages: Vec::new(),
    }
}

fn good() -> FileFacts {
    FileFacts {
        readable: true,
        regular: true,
        inside: true,
    }
}

fn output(status: i32, stdout: &str) -> CommandEventOutput {
    CommandEventOutput(CommandOutput {
        status,
        stdout: stdout.to_string(),
        stderr: "no".to_string(),
    })
}

struct CommandEventOutput(CommandOutput);

impl From<CommandEventOutput> for CandidateEvent {
    fn from(output: CommandEventOutput) -> Self {
        CandidateEvent::Output(output.0)
    }
}

fn prepare(
    branches: &Vec<BranchConfig>,
    decision: &SignalInvestigationDecision,
) -> Result<(CandidateRun, CandidateAction), String> {
    let known = vec!["src/a.rs".to_string()];
    let facts = vec![good(); decision.changes.len()];
    prepare_candidate(branches, None, &known, &facts, decision, "/data", "c1")
}

#[test]
fn candidate_needs_all_its_parts() {
    let branches = vec![branch(vec!["make test".to_string()])];
    let mut empty = decision();
    empty.changes.clear();
    assert_eq!(
        prepare(&branches, &empty).unwrap_err(),
        "当前项目需要修复，但 DS 没有给出候选修改"
    );
    let mut free = decision();
    free.review.fix_contract = None;
    assert_eq!(prepare(&branches, &free).unwrap_err(), "安全候选缺少 FixContract");
    assert_eq!(
        prepare(
            &vec![branch(vec![
                "python -m py_compile a.py".to_string(),
                "python -m compileall src".to_string(),
            ])],
            &decision(),
        )
        .unwrap_err(),
        "安全候选至少需要一条行为测试命令"
    );
    assert_eq!(
        prepare(&vec![branch(Vec::new())], &decision()).unwrap_err(),
        "安全候选没有配置任何沙箱测试命令"
    );
    assert_eq!(
        prepare(&Vec::new(), &decision()).unwrap_err(),
        "未配置可用于安全候选的分支测试"
    );
    let mut foreign = decision();
    foreign.changes[0].path = "src/b.rs".to_string();
    assert!(prepare(&branches, &foreign).is_err());
}

#[test]
fn candidate_passes_every_gate_in_turn() {
    let branches = vec![branch(vec!["make test".to_string()])];
    let (mut run, action) = prepare(&branches, &decision()).unwrap();
    assert!(matches!(action, CandidateAction::Git(_)));
    assert_eq!(run.worktree, "/data/protection/worktrees/c1");
    assert_eq!(run.worktree, candidate_directory("/data", "c1"));
    let CandidateAction::Git(args) = run.step(output(0, "base\n").into()) else {
        panic!("a work tree comes next");
    };
    assert_eq!(
        args,
        ["worktree", "add", "--detach", "/data/protection/worktrees/c1", "base"]
    );
    assert!(matches!(run.step(output(0, "").into()), CandidateAction::WriteChanges));
    assert!(matches!(run.step(CandidateEvent::Written), CandidateAction::Git(_)));
    assert!(matches!(run.step(output(0, "").into()), CandidateAction::Git(_)));
    assert!(matches!(run.step(output(0, " M src/a.rs\n").into()), CandidateAction::Scan));
    assert!(matches!(run.step(CandidateEvent::Scanned(Ok(()))), CandidateAction::Git(_)));
    assert!(matches!(run.step(output(0, "").into()), CandidateAction::Git(_)));
    assert!(matches!(run.step(output(0, "").into()), CandidateAction::ReviewCommits));
    let batch = review_batch("p", "base", "HEAD", Vec::new(), 0);
    let CandidateAction::Test(command) = run.step(CandidateEvent::Reviewed(Some(batch))) else {
        panic!("the tests come next");
    };
    assert_eq!(command, "make test");
    assert!(matches!(run.step(output(0, "ok").into()), CandidateAction::VerifyContracts));
    assert_eq!(run.test_output, "$ make test\nok\nno\n");
    assert!(matches!(
        run.step(CandidateEvent::Verified(Ok(Vec::new()))),
        CandidateAction::Git(_)
    ));
    assert!(matches!(
        run.step(output(0, "head\n").into()),
        CandidateAction::VerifySignalContract
    ));
    let evidence = vec!["tested".to_string()];
    assert!(matches!(
        run.step(CandidateEvent::Verified(Ok(evidence))),
        CandidateAction::ReadPatch
    ));
    assert!(matches!(
        run.step(CandidateEvent::Patched("diff".to_string())),
        CandidateAction::Done
    ));
    let (candidate, verification) = passed_artifacts(&run, "f1", "c1", "check the path", "now");
    assert_eq!(candidate.worktree_path, run.worktree);
    assert_eq!(candidate.content_sha256.len(), 64);
    assert!(verification.passed);
    assert_eq!(verification.evidence, ["tested"]);
}

#[test]
fn candidate_fails_closed() {
    let branches = vec![branch(vec!["make test".to_string()])];
    let (mut run, _) = prepare(&branches, &decision()).unwrap();
    run.step(output(0, "base").into());
    let CandidateAction::Fail(words) = run.step(output(1, "").into()) else {
        panic!("without a work tree there is no candidate");
    };
    assert_eq!(words, "创建安全候选 worktree 失败：no");
    assert!(run.stage == CandidateStage::Failed);
    let (candidate, verification) =
        failed_candidate_artifacts("/data", "f1", "c1", "s", "why", "", "now");
    assert_eq!(candidate.summary, "候选未通过门禁：s；why");
    assert!(!verification.passed);
    assert_eq!(
        failed_patch_args(&Some("security candidate".to_string())),
        ["show", "--format=", "--patch", "HEAD"]
    );
    assert_eq!(failed_patch_args(&None), ["diff", "--patch", "HEAD"]);
}

#[test]
fn contract_of_the_message_is_always_verified() {
    let batch =
        signal_contract_batch("p", "base", "head", review(), contract(), "policy".to_string());
    assert_eq!(batch.disposition, SecurityDisposition::VerifyRequired);
    assert_eq!(required_reviews(&batch), [0]);
    assert_eq!(batch.reviews[0].commit, "head");
    assert!(batch.reviews[0].decision.security_fix_detected);
    assert!(!batch.reviews[0].decision.introduced_risk);
    let tests = vec!["make test".to_string()];
    let key = contract_key(&batch, 0, &tests, "out", "patch").unwrap();
    let other = contract_key(&batch, 0, &tests, "out", "another").unwrap();
    assert_eq!(key.len(), 64);
    assert_ne!(key, other);
}

#[test]
fn files_are_ordinary_and_inside() {
    assert!(safe_existing_file("src/a.rs", &good()).is_ok());
    let link = FileFacts { regular: false, ..good() };
    assert_eq!(
        safe_existing_file("src/a.rs", &link).unwrap_err(),
        "候选文件必须是普通文件：src/a.rs"
    );
    let outside = FileFacts { inside: false, ..good() };
    assert_eq!(
        safe_existing_file("src/a.rs", &outside).unwrap_err(),
        "候选文件越过仓库边界：src/a.rs"
    );
    assert!(safe_existing_file(".git/config", &good()).is_err());
}

#[test]
fn message_becomes_a_finding() {
    let protection = ProtectionConfig::default();
    assert!(requires_remediation(&protection, &review()));
    let found = investigate_security_signal(
        &protection,
        "p",
        "leak",
        &None,
        "text",
        &decision(),
        &None,
        "now",
    );
    assert!(found.requires_action);
    assert_eq!(found.finding.state, FindingState::Affected);
    assert!(!found.finding.build_allowed);
    assert_eq!(found.plan.requirements, ["../x"]);
    assert_eq!(found.finding.severity, "p1");
    assert!(found.signal.id.starts_with("signal-user-"));
    assert_eq!(found.signal.id.len(), "signal-user-".len() + 32);
    let (subject, body) = signal_alert("p", "leak", &None, &decision());
    assert_eq!(subject, "p 安全消息告警");
    assert!(body.contains("引用：无"));
    let mut finding = found.finding;
    assert!(!conclude_finding(&mut finding, &None, "later"));
    assert_eq!(finding.updated_at, "now");
}

#[test]
fn harmless_message_needs_nothing() {
    let mut harmless = decision();
    harmless.review.affected = Some(false);
    let protection = ProtectionConfig::default();
    assert!(!requires_remediation(&protection, &harmless.review));
    let found = investigate_security_signal(
        &protection,
        "p",
        "leak",
        &None,
        "text",
        &harmless,
        &None,
        "now",
    );
    assert_eq!(found.finding.state, FindingState::Unaffected);
    assert!(found.finding.build_allowed);
}

#[test]
fn claimed_packages_are_looked_up() {
    let snapshot = Some(CargoReachabilitySnapshot {
        reachable_packages: vec![ReachablePackage {
            name: "left_pad".to_string(),
            version: "1.0.0".to_string(),
            source: String::new(),
        }],
        ambiguous_edges: Vec::new(),
    });
    let none: Vec<String> = Vec::new();
    assert!(dependency_evidence(&none, &snapshot).is_empty());
    let claimed = vec!["Left-Pad".to_string(), "other".to_string()];
    let evidence = dependency_evidence(&claimed, &snapshot);
    assert!(evidence[0].contains("1.0.0"));
    assert_eq!(evidence[1], "程序化依赖证据：other 不在 Cargo.lock 根包依赖闭包中");
    assert_eq!(
        dependency_evidence(&claimed, &None),
        ["程序化依赖证据：项目没有可解析的 Cargo.lock 依赖图"]
    );
}

#[test]
fn review_needs_a_model() {
    assert_eq!(run_commit_security_reviews(false, 3, &None).unwrap(), None);
    assert_eq!(run_commit_security_reviews(true, 0, &None).unwrap(), None);
    let error = run_commit_security_reviews(true, 3, &None).unwrap_err();
    assert!(matches!(error, ReviewError::ModelDisabled));
    let error = run_commit_security_reviews(true, 513, &None).unwrap_err();
    assert_eq!(error.message(), "待审计提交超过 512 个，已拒绝继续");
    let error = run_commit_security_reviews(true, 512, &None).unwrap_err();
    assert!(matches!(error, ReviewError::ModelDisabled));
    assert_eq!(run_commit_security_reviews(false, 513, &None).unwrap(), None);
    assert!(matches!(verification_limit(&None), Err(VerifyError::ModelDisabled)));
}

#[test]
fn review_is_kept_as_a_finding() {
    let protection = ProtectionConfig::default();
    let evaluated = evaluate_security_review("abc", review(), &protection);
    assert_eq!(evaluated.disposition, SecurityDisposition::Block);
    let key = "0123456789abcdef0123456789abcdef-rest";
    let (signal, finding) = persist_review_finding("p", key, &evaluated, "now");
    assert_eq!(signal.id, "signal-review-0123456789abcdef0123456789abcdef");
    assert_eq!(finding.classification, "security-risk-introduced");
    assert_eq!(finding.severity, "p1");
    let draft = prepare_security_review_issue_draft(&finding, &evaluated, "me/fork", "now");
    assert_eq!(draft.unwrap().destination, "me/fork");
    assert_eq!(severity_str(SecuritySeverity::P0), "P0");
}

#[test]
fn test_output_is_bounded() {
    assert_eq!(bound_test_output("short"), "short");
    let long = "x".repeat(16_385);
    let bounded = bound_test_output(&long);
    assert!(bounded.starts_with(&"x".repeat(16_384)));
    assert!(bounded.ends_with("process exit status was successful ...\n"));
}

#[test]
fn a_long_patch_is_refused_whole() {
    assert_eq!(whole_patch("补丁".to_string(), 6).unwrap(), "补丁");
    assert_eq!(
        whole_patch("补丁".to_string(), 5).unwrap_err(),
        "安全审计补丁超过上限，已拒绝截断后放行：6 bytes > 5 bytes"
    );
    assert_eq!(whole_patch(String::new(), 0).unwrap(), "");
}

#[test]
fn candidate_directories_are_joined_like_paths() {
    assert_eq!(candidate_directory("/data/", "c1"), "/data/protection/worktrees/c1");
    assert_eq!(candidate_directory("/data", "c1"), "/data/protection/worktrees/c1");
    assert_eq!(candidate_directory("", "c1"), "protection/worktrees/c1");
    assert_eq!(candidate_directory("/", "c1"), "/protection/worktrees/c1");
}
