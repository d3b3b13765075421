use termiters::config::{
    AutoResolveConfig, BranchConfig, BranchKind, PushStrategy, ReleaseConfig, SyncStrategy,
};
use termiters::protection::guard::{Deed, Guard, GuardAnswer, GuardNews};
use termiters::protection::model::{CommitSecurityReviewBatch, SecurityDisposition};
use termiters::service::apply::ApplyAction;
use termiters::service::jobs::JobAction;
use termiters::sync::{SyncAction, SyncRun, SyncStage};

fn branch(tests: &[&str], require_behavioral_tests: bool) -> BranchConfig {
    BranchConfig {
        name: "my/work".to_string(),
        kind: BranchKind::Product,
        note: None,
        sync: SyncStrategy::Rebase,
        push: PushStrategy::Normal,
        tests: tests.iter().map(|test| test.to_string()).collect(),
        require_behavioral_tests,
        auto_resolve: AutoResolveConfig::default(),
        release: ReleaseConfig::default(),
    }
}

fn batch(disposition: SecurityDisposition) -> GuardNews {
    GuardNews::Reviewed(Some(CommitSecurityReviewBatch {
        project: "p".to_string(),
        from: "a".to_string(),
        to: "b".to_string(),
        reviews: Vec::new(),
        disposition,
        cache_hits: 0,
    }))
}

#[test]
fn tests_that_only_compile_check_no_behaviour() {
    assert!(!branch(&["python -m py_compile a.py"], false).has_behavioral_tests());
    assert!(!branch(&["python -m compileall src"], false).has_behavioral_tests());
    assert!(!branch(&[], false).has_behavioral_tests());
    assert!(branch(&["python -m py_compile a.py", "pytest"], false).has_behavioral_tests());
}

#[test]
fn branch_without_the_tests_it_asks_for_is_refused() {
    let guard = Guard::new(false, &branch(&["python -m py_compile a.py"], true));
    for deed in [Deed::Test, Deed::Push] {
        match guard.before(deed) {
            GuardAnswer::Refuse(words) => {
                assert_eq!(words, "require_behavioral_tests 要求至少一条行为测试命令")
            }
            other => panic!("not refused: {other:?}"),
        }
    }
    let guard = Guard::new(false, &branch(&["pytest"], true));
    assert!(matches!(guard.before(Deed::Push), GuardAnswer::Go { sandboxed: false }));
    let guard = Guard::new(false, &branch(&["python -m py_compile a.py"], false));
    assert!(matches!(guard.before(Deed::Test), GuardAnswer::Go { sandboxed: false }));
}

#[test]
fn protected_project_is_checked_before_its_code_runs() {
    let mut guard = Guard::new(true, &branch(&["pytest"], true));
    assert!(matches!(guard.before(Deed::Test), GuardAnswer::Scan));
    assert_eq!(
        guard.learn(&GuardNews::Scanned(Err("blocked".to_string()))),
        Err("blocked".to_string())
    );
    assert!(matches!(guard.before(Deed::Test), GuardAnswer::Scan));
    assert_eq!(guard.learn(&GuardNews::Scanned(Ok(()))), Ok(()));
    assert!(matches!(guard.before(Deed::Test), GuardAnswer::ReviewCommits));
    assert_eq!(
        guard.learn(&batch(SecurityDisposition::NeedsReview)),
        Err("项目保护门禁无法确定提交安全性，等待人工复核".to_string())
    );
    assert_eq!(
        guard.learn(&batch(SecurityDisposition::Block)),
        Err("项目保护门禁确认提交引入不可接受安全风险".to_string())
    );
    assert!(matches!(guard.before(Deed::Push), GuardAnswer::ReviewCommits));
    assert_eq!(guard.learn(&batch(SecurityDisposition::VerifyRequired)), Ok(()));
    assert!(matches!(guard.before(Deed::Test), GuardAnswer::Go { sandboxed: true }));
    assert!(matches!(guard.before(Deed::Push), GuardAnswer::VerifyContracts));
    assert_eq!(
        guard.learn(&GuardNews::Verified(Err("no evidence".to_string()))),
        Err("no evidence".to_string())
    );
    assert!(matches!(guard.before(Deed::Push), GuardAnswer::VerifyContracts));
    assert_eq!(guard.learn(&GuardNews::Verified(Ok(vec!["seen".to_string()]))), Ok(()));
    assert!(matches!(guard.before(Deed::Push), GuardAnswer::Go { sandboxed: true }));
}

#[test]
fn commits_without_objection_need_no_verification() {
    for news in [GuardNews::Reviewed(None), batch(SecurityDisposition::Allow)] {
        let mut guard = Guard::new(true, &branch(&[], false));
        assert_eq!(guard.learn(&GuardNews::Scanned(Ok(()))), Ok(()));
        assert_eq!(guard.learn(&news), Ok(()));
        assert!(matches!(guard.before(Deed::Push), GuardAnswer::Go { sandboxed: true }));
    }
}

#[test]
fn guard_is_asked_before_tests_and_pushes() {
    let (mut run, action) = SyncRun::sync_branch(&branch(&["pytest"], false), false);
    assert_eq!(run.deed(&action), None);
    let test = SyncAction::Test("pytest".to_string());
    assert_eq!(run.deed(&test), Some(Deed::Test));
    run.stage = SyncStage::Push;
    assert_eq!(run.deed(&SyncAction::Git(vec!["push".to_string()])), Some(Deed::Push));
    assert_eq!(JobAction::Test("pytest".to_string()).deed(), Some(Deed::Test));
    assert_eq!(JobAction::RecordTests.deed(), Some(Deed::Push));
    assert_eq!(JobAction::Capture.deed(), None);
    assert_eq!(ApplyAction::Test("pytest".to_string()).deed(), Some(Deed::Test));
    assert_eq!(ApplyAction::Push.deed(), Some(Deed::Push));
    assert_eq!(ApplyAction::Announce.deed(), None);
}
