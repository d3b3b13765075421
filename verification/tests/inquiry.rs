use termiters::command::CommandOutput;
use termiters::config::{
    LlmConfig, LlmPromptsConfig, LlmProvider, ProtectionAutomation, ProtectionConfig,
};
use termiters::protection::catalog::policy_fingerprint;
use termiters::protection::inquiry::{InquiryAction, InquiryEvent, InquiryRun};
use termiters::protection::investigate::{
    FileFacts, SignalFileSelection, SignalInvestigationDecision,
};
use termiters::protection::model::{
    CandidateArtifact, CommitSecurityReviewBatch, DeliveryDraft, DeliveryKind, FindingState,
    FixContract, RemediationAction, SecurityCategory, SecurityConfidence,
    SecurityContractVerificationDecision, SecurityDisposition, SecurityReviewDecision,
    SecuritySeverity, VerificationResult,
};
use termiters::protection::review::{review_dedupe_key, ReviewError};
use termiters::protection::review_run::{ReviewAction, ReviewEvent, ReviewRun};
use termiters::protection::store::ProtectionStore;
use termiters::protection::verify::{
    evaluate_contract_decision, verification_dedupe_key, VerifyError,
};
use termiters::protection::verify_run::{VerifyAction, VerifyEvent, VerifyRun};

fn llm(enabled: bool, max_prompt_bytes: usize) -> Option<LlmConfig> {
    Some(LlmConfig {
        enabled,
        provider: LlmProvider::DeepSeek,
        model: "m".to_string(),
        api_key_env: "KEY".to_string(),
        base_url: None,
        max_prompt_bytes,
        timeout_seconds: 120,
        max_retries: 2,
        prompts: LlmPromptsConfig::default(),
    })
}

fn protection(automation: ProtectionAutomation) -> ProtectionConfig {
    ProtectionConfig {
        enabled: true,
        automation,
        ..ProtectionConfig::default()
    }
}

fn contract() -> FixContract {
    FixContract {
        security_property: "paths stay inside".to_string(),
        vulnerable_behavior: "a path leaves".to_string(),
        fixed_behavior: "it is refused".to_string(),
        attack_preconditions: Vec::new(),
        regression_cases: vec!["../x".to_string()],
    }
}

fn review(introduced_risk: bool) -> SecurityReviewDecision {
    SecurityReviewDecision {
        security_fix_detected: !introduced_risk,
        introduced_risk,
        severity: SecuritySeverity::P1,
        categories: vec![SecurityCategory::PathTraversal],
        affected: Some(true),
        production_reachable: Some(true),
        confidence: SecurityConfidence::High,
        summary: "reachable".to_string(),
        mechanism: "input".to_string(),
        evidence: vec!["src/a.rs".to_string()],
        fix_contract: Some(contract()),
    }
}

fn decision() -> SignalInvestigationDecision {
    SignalInvestigationDecision {
        review: review(true),
        recommended_action: RemediationAction::LocalSecurityPatch,
        candidate_summary: "check the path".to_string(),
        changes: Vec::new(),
        affected_packages: Vec::new(),
    }
}

fn output(status: i32, stdout: &str) -> InquiryEvent {
    InquiryEvent::Output(CommandOutput {
        status,
        stdout: stdout.to_string(),
        stderr: String::new(),
    })
}

fn facts() -> FileFacts {
    FileFacts {
        readable: true,
        regular: true,
        inside: true,
    }
}

fn artifacts(passed: bool) -> (CandidateArtifact, VerificationResult) {
    let candidate = CandidateArtifact {
        id: "c".to_string(),
        finding_id: "f".to_string(),
        worktree_path: "/w".to_string(),
        content_sha256: "0".to_string(),
        summary: "s".to_string(),
        created_at: "t".to_string(),
    };
    let verification = VerificationResult {
        id: "v".to_string(),
        candidate_id: "c".to_string(),
        verifier: "sandbox".to_string(),
        passed,
        summary: "s".to_string(),
        evidence: Vec::new(),
        created_at: "t".to_string(),
    };
    (candidate, verification)
}

/// Leads an investigation to the view of the model.
fn asked(protection: &ProtectionConfig) -> InquiryRun {
    let (mut run, action) =
        InquiryRun::investigate(true, "demo", "标题", None, "正文").unwrap();
    assert_eq!(run.evidence.total, 0);
    assert!(run.evidence.files.is_empty());
    match action {
        InquiryAction::Git(args) => assert_eq!(args, ["rev-parse", "--show-toplevel"]),
        other => panic!("unexpected: {other:?}"),
    }
    match run.step(protection, "/repo", output(0, "/repo\n"), "t0") {
        InquiryAction::Git(args) => assert_eq!(args, ["ls-files", "-z"]),
        other => panic!("unexpected: {other:?}"),
    }
    let listing = output(0, "src/a.rs\u{0}.env\u{0}src/b.rs\u{0}");
    assert!(matches!(run.step(protection, "/repo", listing, "t0"), InquiryAction::ReadLock));
    assert_eq!(run.known, ["src/a.rs", "src/b.rs"]);
    assert!(matches!(
        run.step(protection, "/repo", InquiryEvent::Snapshot(None), "t0"),
        InquiryAction::SelectFiles
    ));
    let selection = SignalFileSelection {
        paths: vec!["src/a.rs".to_string(), "src/b.rs".to_string()],
    };
    assert!(matches!(
        run.step(protection, "/repo", InquiryEvent::Selected(Some(selection)), "t0"),
        InquiryAction::LookAt(0)
    ));
    assert!(matches!(
        run.step(protection, "/repo", InquiryEvent::Looked(facts()), "t0"),
        InquiryAction::ReadFile(0)
    ));
    let text = Some("fn a() {}".to_string());
    assert!(matches!(
        run.step(protection, "/repo", InquiryEvent::FileRead(9, text), "t0"),
        InquiryAction::LookAt(1)
    ));
    assert!(matches!(
        run.step(protection, "/repo", InquiryEvent::Looked(facts()), "t0"),
        InquiryAction::ReadFile(1)
    ));
    let text = Some("fn b() {}".to_string());
    assert!(matches!(
        run.step(protection, "/repo", InquiryEvent::FileRead(9, text), "t0"),
        InquiryAction::Decide
    ));
    run
}

#[test]
fn inquiry_needs_a_message_and_a_repository() {
    let refused = InquiryRun::investigate(false, "demo", "标题", None, "正文");
    assert_eq!(refused.unwrap_err(), "安全消息调查要求启用 protection");
    let protection = protection(ProtectionAutomation::Observe);
    let (mut run, _) = InquiryRun::investigate(true, "demo", "标题", None, "正文").unwrap();
    match run.step(&protection, "/repo", output(128, ""), "t0") {
        InquiryAction::Fail(words) => assert_eq!(words, "not a git repository: /repo"),
        other => panic!("unexpected: {other:?}"),
    }
    assert!(run.output().is_none());
}

#[test]
fn inquiry_reads_no_file_that_git_does_not_track() {
    let protection = protection(ProtectionAutomation::Observe);
    let (mut run, _) = InquiryRun::investigate(true, "demo", "标题", None, "正文").unwrap();
    run.step(&protection, "/repo", output(0, "/repo\n"), "t0");
    run.step(&protection, "/repo", output(0, "src/a.rs\u{0}"), "t0");
    run.step(&protection, "/repo", InquiryEvent::Snapshot(None), "t0");
    let selection = SignalFileSelection {
        paths: vec!["src/other.rs".to_string()],
    };
    run.step(&protection, "/repo", InquiryEvent::Selected(Some(selection)), "t0");
    match run.step(&protection, "/repo", InquiryEvent::Looked(facts()), "t0") {
        InquiryAction::Fail(words) => assert_eq!(words, "DS 选择了未授权文件：src/other.rs"),
        other => panic!("unexpected: {other:?}"),
    }
}

#[test]
fn inquiry_without_files_or_answers_stops() {
    let protection = protection(ProtectionAutomation::Observe);
    for (selection, expected) in [
        (None, "DS 未返回安全消息取证文件选择"),
        (Some(SignalFileSelection { paths: Vec::new() }), "DS 没有选择任何可审计文件"),
    ] {
        let (mut run, _) = InquiryRun::investigate(true, "demo", "标题", None, "正文").unwrap();
        run.step(&protection, "/repo", output(0, "/repo\n"), "t0");
        run.step(&protection, "/repo", output(0, "src/a.rs\u{0}"), "t0");
        run.step(&protection, "/repo", InquiryEvent::Snapshot(None), "t0");
        match run.step(&protection, "/repo", InquiryEvent::Selected(selection), "t0") {
            InquiryAction::Fail(words) => assert_eq!(words, expected),
            other => panic!("unexpected: {other:?}"),
        }
    }
    let mut run = asked(&protection);
    match run.step(&protection, "/repo", InquiryEvent::Decided(None), "t1") {
        InquiryAction::Fail(words) => assert_eq!(words, "DS 未返回安全消息调查结论"),
        other => panic!("unexpected: {other:?}"),
    }
}

#[test]
fn observing_inquiry_records_and_alerts_only() {
    let protection = protection(ProtectionAutomation::Observe);
    let mut run = asked(&protection);
    assert!(matches!(
        run.step(&protection, "/repo", InquiryEvent::Decided(Some(decision())), "t1"),
        InquiryAction::Record
    ));
    match run.step(&protection, "/repo", InquiryEvent::Recorded, "t1") {
        InquiryAction::Alert(subject, body) => {
            assert_eq!(subject, "demo 安全消息告警");
            assert_eq!(
                body,
                "标题\n\n判断：reachable\n严重性：p1\n引用：无\n\nTermiteRS 尚未推送、发布或部署任何修改。"
            );
        }
        other => panic!("unexpected: {other:?}"),
    }
    let alerted = InquiryEvent::Alerted(Err("offline".to_string()));
    assert!(matches!(
        run.step(&protection, "/repo", alerted, "t1"),
        InquiryAction::PrepareDraft
    ));
    let draft = DeliveryDraft {
        id: "d".to_string(),
        finding_id: "f".to_string(),
        kind: DeliveryKind::GithubIssue,
        destination: "o/r".to_string(),
        title: "t".to_string(),
        body: "b".to_string(),
        labels: Vec::new(),
        dedupe_key: "k".to_string(),
        approval_required: true,
        created_at: "t".to_string(),
    };
    assert!(matches!(
        run.step(&protection, "/repo", InquiryEvent::Drafted(Some(draft)), "t1"),
        InquiryAction::RecordDraft
    ));
    assert!(matches!(
        run.step(&protection, "/repo", InquiryEvent::Recorded, "t1"),
        InquiryAction::Done
    ));
    let output = run.output().unwrap();
    assert_eq!(output.finding.state, FindingState::Affected);
    assert_eq!(output.notification_error, Some("offline".to_string()));
    assert!(!output.notification_sent);
    assert!(output.candidate.is_none());
    assert!(output.issue_draft.is_some());
}

#[test]
fn verified_candidate_waits_for_delivery() {
    let protection = protection(ProtectionAutomation::Candidate);
    let mut run = asked(&protection);
    run.step(&protection, "/repo", InquiryEvent::Decided(Some(decision())), "t1");
    run.step(&protection, "/repo", InquiryEvent::Recorded, "t1");
    assert!(matches!(
        run.step(&protection, "/repo", InquiryEvent::Alerted(Ok(true)), "t1"),
        InquiryAction::PrepareCandidate
    ));
    assert!(matches!(
        run.step(&protection, "/repo", InquiryEvent::Prepared(Ok(artifacts(true))), "t2"),
        InquiryAction::RecordCandidate
    ));
    assert!(matches!(
        run.step(&protection, "/repo", InquiryEvent::Recorded, "t3"),
        InquiryAction::RecordFinding
    ));
    assert!(matches!(
        run.step(&protection, "/repo", InquiryEvent::Recorded, "t3"),
        InquiryAction::PrepareDraft
    ));
    assert!(matches!(
        run.step(&protection, "/repo", InquiryEvent::Drafted(None), "t3"),
        InquiryAction::Done
    ));
    let output = run.output().unwrap();
    assert_eq!(output.finding.state, FindingState::AwaitingDelivery);
    assert_eq!(output.finding.created_at, "t1");
    assert_eq!(output.finding.updated_at, "t3");
    assert!(output.notification_sent);
    assert_eq!(output.candidate_error, None);
}

#[test]
fn failed_candidate_is_kept_and_named() {
    let protection = protection(ProtectionAutomation::Candidate);
    let mut run = asked(&protection);
    run.step(&protection, "/repo", InquiryEvent::Decided(Some(decision())), "t1");
    run.step(&protection, "/repo", InquiryEvent::Recorded, "t1");
    run.step(&protection, "/repo", InquiryEvent::Alerted(Ok(true)), "t1");
    assert!(matches!(
        run.step(&protection, "/repo", InquiryEvent::Prepared(Err("no tests".to_string())), "t2"),
        InquiryAction::KeepFailure
    ));
    let (candidate, verification) = artifacts(false);
    assert!(matches!(
        run.step(&protection, "/repo", InquiryEvent::Kept(candidate, verification), "t2"),
        InquiryAction::RecordCandidate
    ));
    assert!(matches!(
        run.step(&protection, "/repo", InquiryEvent::Recorded, "t2"),
        InquiryAction::PrepareDraft
    ));
    run.step(&protection, "/repo", InquiryEvent::Drafted(None), "t2");
    let output = run.output().unwrap();
    assert_eq!(output.candidate_error, Some("no tests".to_string()));
    assert_eq!(output.finding.state, FindingState::Affected);
    assert!(output.verification.is_some());
}

#[test]
fn commits_are_reviewed_one_by_one() {
    let protection = protection(ProtectionAutomation::Observe);
    let commits = || vec!["c1".to_string(), "c2".to_string()];
    let started = ReviewRun::review(&llm(true, 40_000), "demo", &protection, commits());
    let (mut run, action, limit) = started.unwrap().unwrap();
    assert_eq!(limit, 40_000 - 16_384);
    let fingerprint = policy_fingerprint(&protection);
    match action {
        ReviewAction::Lookup(key) => {
            assert_eq!(key, review_dedupe_key("demo", &fingerprint, "c1"));
            assert_eq!(run.key, key);
        }
        other => panic!("unexpected: {other:?}"),
    }
    assert!(matches!(
        run.step(&protection, ReviewEvent::Cached(None)),
        ReviewAction::Ask(0)
    ));
    assert!(matches!(
        run.step(&protection, ReviewEvent::Decided(Some(review(false)))),
        ReviewAction::Save
    ));
    let known = run.reviews[0].clone();
    assert_eq!(known.commit, "c1");
    assert_eq!(run.key, review_dedupe_key("demo", &fingerprint, "c1"));
    match run.step(&protection, ReviewEvent::Saved) {
        ReviewAction::Lookup(key) => {
            assert_eq!(key, review_dedupe_key("demo", &fingerprint, "c2"));
            assert_eq!(run.key, key);
        }
        other => panic!("unexpected: {other:?}"),
    }
    assert!(matches!(
        run.step(&protection, ReviewEvent::Cached(Some(known))),
        ReviewAction::Done
    ));
    let batch = run.batch("a", "b");
    assert_eq!(batch.reviews.len(), 2);
    assert_eq!(batch.cache_hits, 1);
    assert_eq!((batch.from.as_str(), batch.to.as_str()), ("a", "b"));
    assert_eq!(batch.disposition, SecurityDisposition::VerifyRequired);

    assert!(ReviewRun::review(&None, "demo", &protection, Vec::new()).unwrap().is_none());
    assert_eq!(
        ReviewRun::review(&llm(false, 40_000), "demo", &protection, commits()).unwrap_err(),
        ReviewError::ModelDisabled
    );
    let (mut run, _, _) = ReviewRun::review(&llm(true, 40_000), "demo", &protection, commits())
        .unwrap()
        .unwrap();
    run.step(&protection, ReviewEvent::Cached(None));
    match run.step(&protection, ReviewEvent::Decided(None)) {
        ReviewAction::Fail(words) => assert_eq!(words, "项目保护门禁未获得 DS 安全审计结果"),
        other => panic!("unexpected: {other:?}"),
    }
}

fn hidden_fix() -> CommitSecurityReviewBatch {
    let protection = protection(ProtectionAutomation::Observe);
    let (mut run, _, _) =
        ReviewRun::review(&llm(true, 40_000), "demo", &protection, vec!["c1".to_string()])
            .unwrap()
            .unwrap();
    run.step(&protection, ReviewEvent::Cached(None));
    run.step(&protection, ReviewEvent::Decided(Some(review(false))));
    run.step(&protection, ReviewEvent::Saved);
    run.batch("a", "b")
}

fn verdict(kept: bool) -> SecurityContractVerificationDecision {
    SecurityContractVerificationDecision {
        security_property_present: kept,
        vulnerable_behavior_removed: true,
        regression_evidence_present: true,
        confidence: SecurityConfidence::High,
        summary: "seen".to_string(),
        evidence: vec!["test".to_string()],
        missing_regressions: Vec::new(),
    }
}

#[test]
fn every_contract_is_verified() {
    let batch = hidden_fix();
    let tests = vec!["make test".to_string()];
    let (mut run, action) = VerifyRun::verify(&llm(true, 60_000), &batch, &tests, "ok")
        .unwrap()
        .unwrap();
    assert!(matches!(action, VerifyAction::ReadPatch(30_000)));
    let key = match run.step(&batch, VerifyEvent::Patched("diff".to_string())) {
        VerifyAction::Lookup(key) => key,
        other => panic!("unexpected: {other:?}"),
    };
    assert_eq!(key, verification_dedupe_key("c1", &contract(), &tests, "ok", "diff"));
    assert!(matches!(run.step(&batch, VerifyEvent::Cached(None)), VerifyAction::Ask(0)));
    assert!(matches!(
        run.step(&batch, VerifyEvent::Decided(Some(verdict(true)))),
        VerifyAction::Save
    ));
    let kept = run.fresh.clone().unwrap();
    assert_eq!(kept.dedupe_key, key);
    assert!(matches!(run.step(&batch, VerifyEvent::Saved), VerifyAction::Done));
    assert_eq!(run.verifications.len(), 1);

    let start = || {
        let (mut run, _) = VerifyRun::verify(&llm(true, 60_000), &batch, &tests, "ok")
            .unwrap()
            .unwrap();
        run.step(&batch, VerifyEvent::Patched("diff".to_string()));
        run
    };
    let mut run = start();
    assert!(matches!(run.step(&batch, VerifyEvent::Cached(Some(kept))), VerifyAction::Done));
    let mut run = start();
    run.step(&batch, VerifyEvent::Cached(None));
    match run.step(&batch, VerifyEvent::Decided(None)) {
        VerifyAction::Fail(words) => assert_eq!(words, "独立验证器未返回 FixContract 结论"),
        other => panic!("unexpected: {other:?}"),
    }
    let mut run = start();
    run.step(&batch, VerifyEvent::Cached(None));
    run.step(&batch, VerifyEvent::Decided(Some(verdict(false))));
    match run.step(&batch, VerifyEvent::Saved) {
        VerifyAction::Fail(words) => {
            assert_eq!(words, "FixContract 独立验证失败：c1：seen；缺失回归：")
        }
        other => panic!("unexpected: {other:?}"),
    }
}

#[test]
fn verification_needs_the_model_only_where_it_is_asked_for() {
    let mut batch = hidden_fix();
    assert!(matches!(
        VerifyRun::verify(&None, &batch, &Vec::new(), ""),
        Err(VerifyError::ModelDisabled)
    ));
    batch.reviews[0].decision.fix_contract = None;
    let (mut run, _) = VerifyRun::verify(&llm(true, 60_000), &batch, &Vec::new(), "")
        .unwrap()
        .unwrap();
    match run.step(&batch, VerifyEvent::Patched(String::new())) {
        VerifyAction::Fail(words) => assert_eq!(words, "VerifyRequired 审计缺少 FixContract"),
        other => panic!("unexpected: {other:?}"),
    }
    batch.reviews.clear();
    assert!(VerifyRun::verify(&None, &batch, &Vec::new(), "").unwrap().is_none());
}

#[test]
fn reviews_and_verifications_are_found_again() {
    let mut store = ProtectionStore::in_memory();
    let known = hidden_fix().reviews.remove(0);
    assert!(store.security_review("k1").is_none());
    store.upsert_security_review("k1", known.clone());
    assert_eq!(store.security_review("k1").unwrap().commit, "c1");
    assert!(store.security_review("k2").is_none());
    let mut newer = known;
    newer.disposition = SecurityDisposition::Allow;
    store.upsert_security_review("k1", newer);
    assert_eq!(store.reviews.len(), 1);
    assert_eq!(
        store.security_review("k1").unwrap().disposition,
        SecurityDisposition::Allow
    );

    let broken = evaluate_contract_decision("c1".to_string(), "v1".to_string(), verdict(false));
    let kept = evaluate_contract_decision("c1".to_string(), "v1".to_string(), verdict(true));
    store.upsert_contract_verification(broken);
    assert!(!store.contract_verification("v1").unwrap().passed);
    store.upsert_contract_verification(kept);
    assert!(store.contract_verification("v1").unwrap().passed);
    assert!(store.contract_verification("v2").is_none());
}

#[test]
fn completed_advisory_rests_until_it_changes() {
    let mut store = ProtectionStore::in_memory();
    assert!(store.osv_advisory_needs_processing("GHSA-1", "2026-01-01"));
    store.mark_osv_advisory("GHSA-1", "2026-01-01", "running", None, "t0");
    assert!(store.osv_advisory_needs_processing("GHSA-1", "2026-01-01"));
    let error = Some("offline".to_string());
    store.mark_osv_advisory("GHSA-1", "2026-01-01", "failed", error, "t1");
    assert!(store.osv_advisory_needs_processing("GHSA-1", "2026-01-01"));
    store.mark_osv_advisory("GHSA-1", "2026-01-01", "completed", None, "t2");
    assert!(!store.osv_advisory_needs_processing("GHSA-1", "2026-01-01"));
    assert!(store.osv_advisory_needs_processing("GHSA-1", "2026-01-02"));
    assert!(store.osv_advisory_needs_processing("GHSA-2", "2026-01-01"));
    assert_eq!(store.advisories.len(), 1);
}
