//! The investigation of a security message: what may be read, what is recorded, and how a candidate
//! fix is prepared.
use crate::command::CommandOutput;
use crate::config::{BranchConfig, ProtectionAutomation, ProtectionConfig};
use crate::digest::digest_text;
use crate::json::{option_json, quote};
use crate::protection::catalog::has_universal_category;
use crate::protection::model::{
    CandidateArtifact, DeliveryDraft, FindingState, ProtectionFinding, RemediationAction,
    RemediationPlan, SecurityReviewDecision, SecuritySeverity, SecuritySignal, SecuritySignalSource,
    VerificationResult,
};
use crate::protection::osv::{CargoReachabilitySnapshot, ReachablePackage};
use crate::protection::review::{confidence_stored, severity_stored};
use crate::strings::{
    byte_len, contains, copy_list, copy_option, ends_with, extend_list, is_in, join_with,
    owned, push_string, replace, same, split_on, starts_with, to_lower, trim, usize_to_string,
};
use crate::text::cut_at;
use vstd::prelude::*;

verus! {

pub const MAX_SIGNAL_BYTES: usize = 65_536;

pub const MAX_TRACKED_FILES: usize = 10_000;

pub const MAX_EVIDENCE_FILE_BYTES: usize = 49_152;

pub const MAX_EVIDENCE_BYTES: usize = 65_536;

/// How many files the model may ask for.
pub const MAX_EVIDENCE_FILES: usize = 3;

pub const MAX_CANDIDATE_BYTES: usize = 786_432;

/// The files that the model wants to see.
#[derive(Debug, Clone)]
pub struct SignalFileSelection {
    pub paths: Vec<String>,
}

/// The new text of a file.
#[derive(Debug, Clone)]
pub struct CandidateChange {
    pub path: String,
    pub content: String,
}

/// What the model makes of a security message.
#[derive(Debug, Clone)]
pub struct SignalInvestigationDecision {
    pub review: SecurityReviewDecision,
    pub recommended_action: RemediationAction,
    pub candidate_summary: String,
    pub changes: Vec<CandidateChange>,
    pub affected_packages: Vec<String>,
}

#[derive(Debug)]
pub struct SignalInvestigationOutput {
    pub signal: SecuritySignal,
    pub finding: ProtectionFinding,
    pub selection: SignalFileSelection,
    pub decision: SignalInvestigationDecision,
    pub plan: RemediationPlan,
    pub candidate: Option<CandidateArtifact>,
    pub verification: Option<VerificationResult>,
    pub issue_draft: Option<DeliveryDraft>,
    pub candidate_error: Option<String>,
    pub notification_sent: bool,
    pub notification_error: Option<String>,
}

/// Why a message is not investigated.
pub open spec fn signal_fault(enabled: bool, summary: Seq<char>, content: Seq<char>) -> Option<
    Seq<char>,
> {
    if !enabled {
        Some("安全消息调查要求启用 protection"@)
    } else if crate::strings::trimmed(summary).len() == 0 {
        Some("安全消息摘要不能为空"@)
    } else if crate::strings::byte_count(content) > MAX_SIGNAL_BYTES {
        Some("安全消息正文超过 64 KiB"@)
    } else {
        None
    }
}

/// Decides whether a message is investigated.
pub fn check_signal(enabled: bool, summary: &str, content: &str) -> (r: Result<(), String>)
    ensures
        match r {
            Ok(()) => signal_fault(enabled, summary@, content@) is None,
            Err(words) => signal_fault(enabled, summary@, content@) == Some(words@),
        },
{
    if !enabled {
        Err(owned("安全消息调查要求启用 protection"))
    } else if trim(summary).as_str().is_empty() {
        Err(owned("安全消息摘要不能为空"))
    } else if byte_len(content) > MAX_SIGNAL_BYTES {
        Err(owned("安全消息正文超过 64 KiB"))
    } else {
        Ok(())
    }
}

/// The path with `/` for every backslash.
pub open spec fn slashed(path: Seq<char>) -> Seq<char> {
    crate::strings::replaced(path, "\\"@, "/"@)
}

/// The path, in lower case, names automation, configuration or something that may be secret.
pub open spec fn is_sensitive(lower: Seq<char>) -> bool {
    crate::strings::starts(lower, ".git/"@) || crate::strings::starts(lower, ".github/workflows/"@)
        || crate::strings::occurs(lower, "/.env"@) || crate::strings::ends(lower, ".env"@)
        || crate::strings::ends(lower, "termite.yml"@) || crate::strings::ends(
        lower,
        "termiters.yml"@,
    ) || crate::strings::occurs(lower, "secret"@) || crate::strings::occurs(lower, "credential"@)
}

/// A file that may be read and changed: inside the repository and not sensitive.
pub open spec fn is_candidate_path(path: Seq<char>) -> bool {
    &&& !crate::paths::is_absolute(slashed(path))
    &&& !crate::paths::components(slashed(path)).contains(".."@)
    &&& !is_sensitive(crate::strings::lower(slashed(path)))
}

/// Whether a file may be read and changed.
pub fn candidate_path_allowed(path: &str) -> (r: bool)
    ensures
        r == is_candidate_path(path@),
{
    proof {
        reveal_strlit("\\");
    }
    let normalized = replace(path, "\\", "/");
    let normalized = normalized.as_str();
    if crate::paths::path_is_absolute(normalized) || crate::paths::has_parent_component(normalized) {
        return false;
    }
    let lower = to_lower(normalized);
    let lower = lower.as_str();
    !starts_with(lower, ".git/") && !starts_with(lower, ".github/workflows/") && !contains(
        lower,
        "/.env",
    ) && !ends_with(lower, ".env") && !ends_with(lower, "termite.yml") && !ends_with(
        lower,
        "termiters.yml",
    ) && !contains(lower, "secret") && !contains(lower, "credential")
}

/// The names among the pieces of a listing that may be read and changed.
pub open spec fn allowed_files(pieces: Seq<Seq<char>>) -> Seq<Seq<char>>
    decreases pieces.len(),
{
    if pieces.len() == 0 {
        Seq::empty()
    } else {
        let rest = allowed_files(pieces.drop_last());
        if pieces.last().len() > 0 && is_candidate_path(pieces.last()) {
            rest.push(pieces.last())
        } else {
            rest
        }
    }
}

/// The files that git tracks and that may be read and changed.
pub fn tracked_regular_files(output: &CommandOutput) -> (r: Result<Vec<String>, String>)
    ensures
        ({
            let files = allowed_files(crate::strings::split(output.stdout@, '\0'));
            if !output.ok() {
                r matches Err(words) && words@ == "无法枚举 Git 跟踪文件"@
            } else if files.len() > MAX_TRACKED_FILES {
                r matches Err(words) && words@ == "Git 跟踪文件超过取证上限"@
            } else {
                r matches Ok(list) && crate::strings::views(list@) == files
            }
        }),
{
    if !output.success() {
        return Err(owned("无法枚举 Git 跟踪文件"));
    }
    let pieces = split_on(output.stdout.as_str(), '\0');
    let ghost all = crate::strings::views(pieces@);
    let mut files: Vec<String> = Vec::new();
    let mut i: usize = 0;
    assert(all.take(0) =~= Seq::empty());
    assert(crate::strings::views(files@) =~= Seq::empty());
    while i < pieces.len()
        invariant
            i <= pieces@.len(),
            all == crate::strings::views(pieces@),
            crate::strings::views(files@) == allowed_files(all.take(i as int)),
        decreases pieces@.len() - i,
    {
        assert(all.take(i + 1).drop_last() =~= all.take(i as int));
        let piece = pieces[i].as_str();
        if !piece.is_empty() && candidate_path_allowed(piece) {
            push_string(&mut files, owned(piece));
        }
        i += 1;
    }
    assert(all.take(all.len() as int) =~= all);
    if files.len() > MAX_TRACKED_FILES {
        return Err(owned("Git 跟踪文件超过取证上限"));
    }
    Ok(files)
}

/// What is known of a file in the work tree.
#[derive(Debug, Clone, Copy)]
pub struct FileFacts {
    pub readable: bool,
    /// It is a file and no link.
    pub regular: bool,
    /// Its real path lies below that of the repository.
    pub inside: bool,
}

/// Why a file cannot be used.
pub open spec fn file_fault(path: Seq<char>, facts: FileFacts) -> Option<Seq<char>> {
    if !is_candidate_path(path) {
        Some("受保护路径不能进入候选："@ + path)
    } else if !facts.readable {
        Some("无法读取候选文件元数据："@ + path)
    } else if !facts.regular {
        Some("候选文件必须是普通文件："@ + path)
    } else if !facts.inside {
        Some("候选文件越过仓库边界："@ + path)
    } else {
        None
    }
}

/// Decides whether a file can be used.
pub fn safe_existing_file(path: &str, facts: &FileFacts) -> (r: Result<(), String>)
    ensures
        match r {
            Ok(()) => file_fault(path@, *facts) is None,
            Err(words) => file_fault(path@, *facts) == Some(words@),
        },
{
    if !candidate_path_allowed(path) {
        Err(owned("受保护路径不能进入候选：").concat(path))
    } else if !facts.readable {
        Err(owned("无法读取候选文件元数据：").concat(path))
    } else if !facts.regular {
        Err(owned("候选文件必须是普通文件：").concat(path))
    } else if !facts.inside {
        Err(owned("候选文件越过仓库边界：").concat(path))
    } else {
        Ok(())
    }
}

/// The files that were read as evidence.
#[derive(Debug)]
pub struct Evidence {
    pub total: usize,
    pub files: Vec<CandidateChange>,
}

/// Why the model does not get to see a file.
pub open spec fn selection_fault(known: Seq<Seq<char>>, path: Seq<char>, facts: FileFacts) -> Option<
    Seq<char>,
> {
    if !known.contains(path) {
        Some("DS 选择了未授权文件："@ + path)
    } else {
        file_fault(path, facts)
    }
}

/// Why the bytes of a file are not taken.
pub open spec fn evidence_fault(
    evidence: Evidence,
    path: Seq<char>,
    bytes: int,
    text: Option<String>,
) -> Option<Seq<char>> {
    if evidence.files@.len() >= MAX_EVIDENCE_FILES {
        Some("取证文件超过 3 个"@)
    } else if bytes > MAX_EVIDENCE_FILE_BYTES {
        Some("取证文件超过 48 KiB："@ + path)
    } else if evidence.total + bytes > MAX_EVIDENCE_BYTES {
        Some("取证文件总量超过 64 KiB"@)
    } else if text is None {
        Some("取证文件不是 UTF-8："@ + path)
    } else {
        None
    }
}

/// The evidence with one file more.
pub open spec fn took(
    evidence: Evidence,
    path: Seq<char>,
    bytes: int,
    text: Option<String>,
    next: Evidence,
) -> bool {
    &&& next.total == evidence.total + bytes
    &&& next.files@.len() == evidence.files@.len() + 1
    &&& next.files@.drop_last() == evidence.files@
    &&& next.files@.last().path@ == path
    &&& Some(next.files@.last().content) == text
}

impl Evidence {
    pub open spec fn wf(self) -> bool {
        self.total <= MAX_EVIDENCE_BYTES && self.files@.len() <= MAX_EVIDENCE_FILES
    }

    pub fn new() -> (r: Evidence)
        ensures
            r.wf(),
            r.total == 0,
            r.files@.len() == 0,
    {
        Evidence { total: 0, files: Vec::new() }
    }

    /// Decides whether a file may be read at all.
    pub fn admit_path(known: &Vec<String>, path: &str, facts: &FileFacts) -> (r: Result<(), String>)
        ensures
            match r {
                Ok(()) => selection_fault(crate::strings::views(known@), path@, *facts) is None,
                Err(words) => selection_fault(crate::strings::views(known@), path@, *facts) == Some(
                    words@,
                ),
            },
    {
        if !is_in(path, known) {
            return Err(owned("DS 选择了未授权文件：").concat(path));
        }
        safe_existing_file(path, facts)
    }

    /// Takes the bytes of a file: their number and the text that they spell.
    pub fn take_file(&mut self, path: &str, bytes: usize, text: Option<String>) -> (r: Result<
        (),
        String,
    >)
        requires
            old(self).wf(),
        ensures
            final(self).wf(),
            match r {
                Ok(()) => {
                    &&& evidence_fault(*old(self), path@, bytes as int, text) is None
                    &&& took(*old(self), path@, bytes as int, text, *final(self))
                },
                Err(words) => {
                    &&& evidence_fault(*old(self), path@, bytes as int, text) == Some(words@)
                    &&& *final(self) == *old(self)
                },
            },
    {
        if self.files.len() >= MAX_EVIDENCE_FILES {
            return Err(owned("取证文件超过 3 个"));
        }
        if bytes > MAX_EVIDENCE_FILE_BYTES {
            return Err(owned("取证文件超过 48 KiB：").concat(path));
        }
        if self.total + bytes > MAX_EVIDENCE_BYTES {
            return Err(owned("取证文件总量超过 64 KiB"));
        }
        match text {
            None => Err(owned("取证文件不是 UTF-8：").concat(path)),
            Some(text) => {
                self.total = self.total + bytes;
                self.files.push(CandidateChange { path: owned(path), content: text });
                assert(self.files@.drop_last() =~= old(self).files@);
                Ok(())
            },
        }
    }

    /// The files, where there are any.
    pub fn finish(self) -> (r: Result<Vec<CandidateChange>, String>)
        ensures
            match r {
                Ok(files) => files@.len() > 0 && files == self.files,
                Err(words) => self.files@.len() == 0 && words@ == "DS 没有选择任何可审计文件"@,
            },
    {
        if self.files.len() == 0 {
            return Err(owned("DS 没有选择任何可审计文件"));
        }
        Ok(self.files)
    }
}

pub open spec fn changed_paths(changes: Seq<CandidateChange>) -> Seq<Seq<char>> {
    Seq::new(changes.len(), |i: int| changes[i].path@)
}

/// The bytes of the first `n` changes.
pub open spec fn changed_bytes(changes: Seq<CandidateChange>, n: int) -> int
    decreases n,
{
    if n <= 0 {
        0
    } else {
        changed_bytes(changes, n - 1) + crate::strings::byte_count(changes[n - 1].content@)
    }
}

/// What is wrong with change number `i`, those before it being in order.
pub open spec fn change_fault(
    known: Seq<Seq<char>>,
    changes: Seq<CandidateChange>,
    facts: Seq<FileFacts>,
    i: int,
) -> Option<Seq<char>> {
    let path = changes[i].path@;
    if !known.contains(path) {
        Some("候选试图修改未授权文件："@ + path)
    } else if changed_paths(changes).take(i).contains(path) {
        Some("候选重复修改文件："@ + path)
    } else if file_fault(path, facts[i]) is Some {
        file_fault(path, facts[i])
    } else if changed_bytes(changes, i + 1) > MAX_CANDIDATE_BYTES {
        Some("候选文件总量超过 768 KiB"@)
    } else {
        None
    }
}

/// What is wrong with the first of the `n` changes that is not in order.
pub open spec fn changes_fault(
    known: Seq<Seq<char>>,
    changes: Seq<CandidateChange>,
    facts: Seq<FileFacts>,
    n: int,
) -> Option<Seq<char>>
    decreases n,
{
    if n <= 0 {
        None
    } else {
        match changes_fault(known, changes, facts, n - 1) {
            Some(words) => Some(words),
            None => change_fault(known, changes, facts, n - 1),
        }
    }
}

proof fn lemma_changes_fault(
    known: Seq<Seq<char>>,
    changes: Seq<CandidateChange>,
    facts: Seq<FileFacts>,
    i: int,
    n: int,
)
    requires
        0 <= i <= n,
        changes_fault(known, changes, facts, i) is Some,
    ensures
        changes_fault(known, changes, facts, n) == changes_fault(known, changes, facts, i),
    decreases n - i,
{
    if i < n {
        lemma_changes_fault(known, changes, facts, i, n - 1);
    }
}

/// Checks the changes of a candidate: known files, each once, all usable, and not too many bytes.
pub fn validate_candidate_changes(
    known: &Vec<String>,
    changes: &Vec<CandidateChange>,
    facts: &Vec<FileFacts>,
) -> (r: Result<(), String>)
    requires
        facts@.len() == changes@.len(),
    ensures
        ({
            let fault = changes_fault(
                crate::strings::views(known@),
                changes@,
                facts@,
                changes@.len() as int,
            );
            match r {
                Ok(()) => fault is None,
                Err(words) => fault == Some(words@),
            }
        }),
{
    let ghost names = crate::strings::views(known@);
    let ghost all = changed_paths(changes@);
    let mut seen: Vec<String> = Vec::new();
    let mut total: usize = 0;
    let mut i: usize = 0;
    while i < changes.len()
        invariant
            i <= changes@.len() == facts@.len(),
            names == crate::strings::views(known@),
            all == changed_paths(changes@),
            crate::strings::views(seen@) =~= all.take(i as int),
            total == changed_bytes(changes@, i as int),
            total <= MAX_CANDIDATE_BYTES,
            changes_fault(names, changes@, facts@, i as int) is None,
        decreases changes@.len() - i,
    {
        let path = changes[i].path.as_str();
        let size: usize = byte_len(changes[i].content.as_str());
        let fault = if !is_in(path, known) {
            Some(owned("候选试图修改未授权文件：").concat(path))
        } else if is_in(path, &seen) {
            Some(owned("候选重复修改文件：").concat(path))
        } else {
            match safe_existing_file(path, &facts[i]) {
                Err(words) => Some(words),
                Ok(()) => if size > MAX_CANDIDATE_BYTES - total {
                    Some(owned("候选文件总量超过 768 KiB"))
                } else {
                    None
                },
            }
        };
        assert(crate::strings::opt_view(fault) == change_fault(names, changes@, facts@, i as int));
        match fault {
            Some(words) => {
                proof {
                    lemma_changes_fault(names, changes@, facts@, i + 1, changes@.len() as int);
                }
                return Err(words);
            },
            None => {},
        }
        push_string(&mut seen, owned(path));
        total = total + size;
        i += 1;
    }
    Ok(())
}

/// The branch whose tests a candidate has to pass: the one that was asked for, else the first.
pub open spec fn test_branch(branches: Seq<BranchConfig>, requested: Option<Seq<char>>) -> Option<int> {
    match requested {
        Some(name) => branch_named(branches, name, 0),
        None => if branches.len() > 0 {
            Some(0)
        } else {
            None
        },
    }
}

/// The first branch from `i` on that has the name.
pub open spec fn branch_named(branches: Seq<BranchConfig>, name: Seq<char>, i: int) -> Option<int>
    decreases branches.len() - i,
{
    if i < 0 || i >= branches.len() {
        None
    } else if branches[i].name@ == name {
        Some(i)
    } else {
        branch_named(branches, name, i + 1)
    }
}

/// The first branch that has the name.
pub fn find_branch(branches: &Vec<BranchConfig>, name: &str) -> (r: Option<usize>)
    ensures
        match r {
            Some(i) => branch_named(branches@, name@, 0) == Some(i as int) && i < branches@.len()
                && branches@[i as int].name@ == name@,
            None => branch_named(branches@, name@, 0) is None,
        },
{
    let mut i: usize = 0;
    while i < branches.len()
        invariant
            i <= branches@.len(),
            branch_named(branches@, name@, 0) == branch_named(branches@, name@, i as int),
        decreases branches@.len() - i,
    {
        if same(branches[i].name.as_str(), name) {
            return Some(i);
        }
        i += 1;
    }
    None
}

/// The branch whose tests a candidate has to pass.
pub fn configured_test_branch(branches: &Vec<BranchConfig>, requested: Option<&str>) -> (r: Result<
    usize,
    String,
>)
    ensures
        match r {
            Ok(i) => i < branches@.len() && test_branch(
                branches@,
                crate::strings::opt_str(requested),
            ) == Some(i as int),
            Err(words) => test_branch(branches@, crate::strings::opt_str(requested)) is None
                && words@ == (match requested {
                Some(name) => "未配置候选测试分支："@ + name@,
                None => "未配置可用于安全候选的分支测试"@,
            }),
        },
{
    match requested {
        Some(name) => match find_branch(branches, name) {
            Some(i) => Ok(i),
            None => Err(owned("未配置候选测试分支：").concat(name)),
        },
        None => if branches.len() > 0 {
            Ok(0)
        } else {
            Err(owned("未配置可用于安全候选的分支测试"))
        },
    }
}

/// The message calls for a fix: the project may be affected and the risk is one that is not
/// accepted.
pub open spec fn calls_for_fix(protection: ProtectionConfig, d: SecurityReviewDecision) -> bool {
    d.affected != Some(false) && (crate::protection::catalog::any_universal(d.categories@)
        || crate::protection::catalog::is_grave(d.severity) || (
    crate::protection::catalog::is_strict(protection.profiles@) && d.severity is P2))
}

/// Whether the message calls for a fix.
pub fn requires_remediation(protection: &ProtectionConfig, decision: &SecurityReviewDecision) -> (r:
    bool)
    ensures
        r == calls_for_fix(*protection, *decision),
{
    if matches!(decision.affected, Some(false)) {
        return false;
    }
    has_universal_category(&decision.categories) || matches!(
        decision.severity,
        SecuritySeverity::P0 | SecuritySeverity::P1
    ) || (is_in("strict", &protection.profiles) && matches!(decision.severity, SecuritySeverity::P2))
}

/// The name by which packages are compared.
pub open spec fn package_name(name: Seq<char>) -> Seq<char> {
    crate::strings::replaced(crate::strings::lower(name), "_"@, "-"@)
}

fn normalize_package(name: &str) -> (r: String)
    ensures
        r@ == package_name(name@),
{
    proof {
        reveal_strlit("_");
    }
    replace(to_lower(name).as_str(), "_", "-")
}

/// The versions of the packages with the name, in order.
pub open spec fn versions_of(packages: Seq<ReachablePackage>, name: Seq<char>) -> Seq<Seq<char>>
    decreases packages.len(),
{
    if packages.len() == 0 {
        Seq::empty()
    } else {
        let rest = versions_of(packages.drop_last(), name);
        if package_name(packages.last().name@) == name {
            rest.push(packages.last().version@)
        } else {
            rest
        }
    }
}

fn find_versions(packages: &Vec<ReachablePackage>, name: &str) -> (r: Vec<String>)
    ensures
        crate::strings::views(r@) == versions_of(packages@, name@),
{
    let mut out: Vec<String> = Vec::new();
    let mut i: usize = 0;
    assert(packages@.take(0) =~= Seq::empty());
    assert(crate::strings::views(out@) =~= Seq::empty());
    while i < packages.len()
        invariant
            i <= packages@.len(),
            crate::strings::views(out@) == versions_of(packages@.take(i as int), name@),
        decreases packages@.len() - i,
    {
        assert(packages@.take(i + 1).drop_last() =~= packages@.take(i as int));
        if same(normalize_package(packages[i].name.as_str()).as_str(), name) {
            push_string(&mut out, packages[i].version.clone());
        }
        i += 1;
    }
    assert(packages@.take(packages@.len() as int) =~= packages@);
    out
}

/// What the lock file says about a package that the message is said to affect.
pub open spec fn package_evidence(claimed: Seq<char>, packages: Seq<ReachablePackage>) -> Seq<char> {
    let versions = versions_of(packages, package_name(crate::strings::trimmed(claimed)));
    if versions.len() == 0 {
        "程序化依赖证据："@ + claimed + " 不在 Cargo.lock 根包依赖闭包中"@
    } else {
        "程序化依赖证据："@ + claimed + " 进入 Cargo.lock 根包依赖闭包，版本 "@ + crate::strings::join(
            versions,
            ","@,
        ) + "；这不等同于生产运行时可达"@
    }
}

pub open spec fn packages_evidence(
    claimed: Seq<Seq<char>>,
    packages: Seq<ReachablePackage>,
) -> Seq<Seq<char>> {
    Seq::new(claimed.len(), |i: int| package_evidence(claimed[i], packages))
}

/// What the lock file says about the packages that the message is said to affect.
pub open spec fn lock_evidence(
    claimed: Seq<Seq<char>>,
    snapshot: Option<CargoReachabilitySnapshot>,
) -> Seq<Seq<char>> {
    if claimed.len() == 0 {
        Seq::empty()
    } else {
        match snapshot {
            None => seq!["程序化依赖证据：项目没有可解析的 Cargo.lock 依赖图"@],
            Some(snapshot) => {
                let lines = packages_evidence(claimed, snapshot.reachable_packages@);
                if snapshot.ambiguous_edges@.len() > 0 {
                    lines.push(
                        "程序化依赖证据：存在 "@ + crate::strings::decimal(
                            snapshot.ambiguous_edges@.len(),
                        ) + " 条无法唯一解析的锁文件边，按保守结果处理"@,
                    )
                } else {
                    lines
                }
            },
        }
    }
}

/// What the lock file says about the packages that the message is said to affect.
pub fn dependency_evidence(
    affected_packages: &Vec<String>,
    snapshot: &Option<CargoReachabilitySnapshot>,
) -> (r: Vec<String>)
    ensures
        crate::strings::views(r@) == lock_evidence(
            crate::strings::views(affected_packages@),
            *snapshot,
        ),
{
    let mut out: Vec<String> = Vec::new();
    assert(crate::strings::views(out@) =~= Seq::empty());
    if affected_packages.len() == 0 {
        return out;
    }
    let ghost claimed = crate::strings::views(affected_packages@);
    match snapshot {
        None => {
            push_string(
                &mut out,
                owned("程序化依赖证据：项目没有可解析的 Cargo.lock 依赖图"),
            );
            assert(crate::strings::views(out@) =~= lock_evidence(claimed, *snapshot));
        },
        Some(found) => {
            let mut i: usize = 0;
            let ghost lines = packages_evidence(claimed, found.reachable_packages@);
            while i < affected_packages.len()
                invariant
                    i <= affected_packages@.len(),
                    claimed == crate::strings::views(affected_packages@),
                    lines == packages_evidence(claimed, found.reachable_packages@),
                    crate::strings::views(out@) =~= lines.take(i as int),
                decreases affected_packages@.len() - i,
            {
                let name = affected_packages[i].as_str();
                let versions = find_versions(
                    &found.reachable_packages,
                    normalize_package(trim(name).as_str()).as_str(),
                );
                let line = if versions.len() == 0 {
                    owned("程序化依赖证据：").concat(name).concat(
                        " 不在 Cargo.lock 根包依赖闭包中",
                    )
                } else {
                    owned("程序化依赖证据：").concat(name).concat(
                        " 进入 Cargo.lock 根包依赖闭包，版本 ",
                    ).concat(join_with(&versions, ",").as_str()).concat(
                        "；这不等同于生产运行时可达",
                    )
                };
                assert(versions@.len() == crate::strings::views(versions@).len());
                assert(line@ == lines[i as int]);
                push_string(&mut out, line);
                i += 1;
            }
            assert(crate::strings::views(out@) =~= lines);
            if found.ambiguous_edges.len() > 0 {
                push_string(
                    &mut out,
                    owned("程序化依赖证据：存在 ").concat(
                        usize_to_string(found.ambiguous_edges.len()).as_str(),
                    ).concat(" 条无法唯一解析的锁文件边，按保守结果处理"),
                );
            }
        },
    }
    out
}

/// What a message is found again by.
pub open spec fn signal_key(
    project: Seq<char>,
    summary: Seq<char>,
    reference: Option<Seq<char>>,
    content: Seq<char>,
) -> Seq<char> {
    crate::digest::text_digest(
        "["@ + crate::json::json_quoted(project) + ","@ + crate::json::json_quoted(summary) + ","@
            + crate::json::json_option(reference) + ","@ + crate::json::json_quoted(content) + "]"@,
    )
}

/// The records of an investigation.
#[derive(Debug)]
pub struct Investigation {
    pub signal: SecuritySignal,
    pub finding: ProtectionFinding,
    pub plan: RemediationPlan,
    pub requires_action: bool,
}

pub open spec fn is_user_signal(
    signal: SecuritySignal,
    project: Seq<char>,
    summary: Seq<char>,
    reference: Option<Seq<char>>,
    key: Seq<char>,
    now: Seq<char>,
) -> bool {
    &&& signal.id@ == "signal-user-"@ + crate::text::truncated(key, 32)
    &&& signal.project@ == project
    &&& signal.source is UserReport
    &&& signal.summary@ == summary
    &&& crate::strings::opt_view(signal.reference) == reference
    &&& signal.dedupe_key@ == "user-report:"@ + key
    &&& signal.received_at@ == now
}

pub open spec fn is_user_finding(
    finding: ProtectionFinding,
    project: Seq<char>,
    decision: SignalInvestigationDecision,
    snapshot: Option<CargoReachabilitySnapshot>,
    requires_action: bool,
    key: Seq<char>,
    now: Seq<char>,
) -> bool {
    &&& finding.id@ == "finding-user-"@ + crate::text::truncated(key, 32)
    &&& finding.project@ == project
    &&& finding.signal_id@ == "signal-user-"@ + crate::text::truncated(key, 32)
    &&& finding.state == (if decision.review.affected == Some(false) {
        FindingState::Unaffected
    } else if requires_action {
        FindingState::Affected
    } else {
        FindingState::Uncertain
    })
    &&& finding.classification@ == "external-security-signal"@
    &&& finding.severity@ == crate::protection::review::severity_word(decision.review.severity)
    &&& finding.confidence@ == crate::protection::review::confidence_word(decision.review.confidence)
    &&& finding.affected == decision.review.affected
    &&& finding.build_allowed == (!requires_action && decision.review.affected == Some(false))
    &&& finding.summary@ == decision.review.summary@
    &&& crate::strings::views(finding.evidence@) == crate::strings::views(decision.review.evidence@)
        + lock_evidence(crate::strings::views(decision.affected_packages@), snapshot)
    &&& finding.dedupe_key@ == "finding-user:"@ + key
    &&& finding.created_at@ == now
    &&& finding.updated_at@ == now
}

pub open spec fn is_user_plan(
    plan: RemediationPlan,
    decision: SignalInvestigationDecision,
    key: Seq<char>,
    now: Seq<char>,
) -> bool {
    &&& plan.id@ == "plan-user-"@ + crate::text::truncated(key, 32)
    &&& plan.finding_id@ == "finding-user-"@ + crate::text::truncated(key, 32)
    &&& plan.action == decision.recommended_action
    &&& plan.summary@ == decision.candidate_summary@
    &&& crate::strings::views(plan.requirements@) == (match decision.review.fix_contract {
        Some(contract) => crate::strings::views(contract.regression_cases@),
        None => Seq::empty(),
    })
    &&& plan.created_at@ == now
}

/// The records of a message on which the model has given its view.
pub open spec fn is_investigation(
    found: Investigation,
    protection: ProtectionConfig,
    project: Seq<char>,
    summary: Seq<char>,
    reference: Option<Seq<char>>,
    content: Seq<char>,
    decision: SignalInvestigationDecision,
    snapshot: Option<CargoReachabilitySnapshot>,
    now: Seq<char>,
) -> bool {
    let key = signal_key(project, summary, reference, content);
    &&& found.requires_action == calls_for_fix(protection, decision.review)
    &&& is_user_signal(found.signal, project, summary, reference, key, now)
    &&& is_user_finding(
        found.finding,
        project,
        decision,
        snapshot,
        found.requires_action,
        key,
        now,
    )
    &&& is_user_plan(found.plan, decision, key, now)
}

/// The records of a message on which the model has given its view.
pub fn investigate_security_signal(
    protection: &ProtectionConfig,
    project: &str,
    summary: &str,
    reference: &Option<String>,
    content: &str,
    decision: &SignalInvestigationDecision,
    snapshot: &Option<CargoReachabilitySnapshot>,
    now: &str,
) -> (r: Investigation)
    ensures
        is_investigation(
            r,
            *protection,
            project@,
            summary@,
            crate::strings::opt_view(*reference),
            content@,
            *decision,
            *snapshot,
            now@,
        ),
{
    let key = digest_text(
        owned("[").concat(quote(project).as_str()).concat(",").concat(
            quote(summary).as_str(),
        ).concat(",").concat(option_json(reference).as_str()).concat(",").concat(
            quote(content).as_str(),
        ).concat("]").as_str(),
    );
    let suffix = cut_at(key.as_str(), 32);
    let signal = SecuritySignal {
        id: owned("signal-user-").concat(suffix.as_str()),
        project: owned(project),
        source: SecuritySignalSource::UserReport,
        summary: owned(summary),
        reference: copy_option(reference),
        dedupe_key: owned("user-report:").concat(key.as_str()),
        received_at: owned(now),
    };
    let requires_action: bool = requires_remediation(protection, &decision.review);
    let unaffected: bool = matches!(decision.review.affected, Some(false));
    let mut evidence = copy_list(&decision.review.evidence);
    let more = dependency_evidence(&decision.affected_packages, snapshot);
    extend_list(&mut evidence, &more);
    let finding = ProtectionFinding {
        id: owned("finding-user-").concat(suffix.as_str()),
        project: owned(project),
        signal_id: signal.id.clone(),
        state: if unaffected {
            FindingState::Unaffected
        } else if requires_action {
            FindingState::Affected
        } else {
            FindingState::Uncertain
        },
        classification: owned("external-security-signal"),
        severity: owned(severity_stored(decision.review.severity)),
        confidence: owned(confidence_stored(decision.review.confidence)),
        affected: decision.review.affected,
        build_allowed: !requires_action && unaffected,
        summary: decision.review.summary.clone(),
        evidence,
        dedupe_key: owned("finding-user:").concat(key.as_str()),
        created_at: owned(now),
        updated_at: owned(now),
    };
    let requirements = match &decision.review.fix_contract {
        Some(contract) => copy_list(&contract.regression_cases),
        None => Vec::new(),
    };
    proof {
        if decision.review.fix_contract is None {
            assert(crate::strings::views(requirements@) =~= Seq::empty());
        }
    }
    let plan = RemediationPlan {
        id: owned("plan-user-").concat(suffix.as_str()),
        finding_id: finding.id.clone(),
        action: decision.recommended_action,
        summary: decision.candidate_summary.clone(),
        requirements,
        created_at: owned(now),
    };
    Investigation { signal, finding, plan, requires_action }
}

/// The text of the alert about a message that calls for a fix.
pub open spec fn alert_text(
    summary: Seq<char>,
    reference: Option<Seq<char>>,
    review: SecurityReviewDecision,
) -> Seq<char> {
    summary + "\n\n判断："@ + review.summary@ + "\n严重性："@ + crate::protection::review::severity_word(
        review.severity,
    ) + "\n引用："@ + (match reference {
        Some(s) => s,
        None => "无"@,
    }) + "\n\nTermiteRS 尚未推送、发布或部署任何修改。"@
}

/// Subject and text of the alert about a message that calls for a fix.
pub fn signal_alert(
    project: &str,
    summary: &str,
    reference: &Option<String>,
    decision: &SignalInvestigationDecision,
) -> (r: (String, String))
    ensures
        r.0@ == project@ + " 安全消息告警"@,
        r.1@ == alert_text(summary@, crate::strings::opt_view(*reference), decision.review),
{
    let place = match reference {
        Some(s) => s.clone(),
        None => owned("无"),
    };
    (
        owned(project).concat(" 安全消息告警"),
        owned(summary).concat("\n\n判断：").concat(decision.review.summary.as_str()).concat(
            "\n严重性：",
        ).concat(severity_stored(decision.review.severity)).concat("\n引用：").concat(
            place.as_str(),
        ).concat("\n\nTermiteRS 尚未推送、发布或部署任何修改。"),
    )
}

/// A candidate is prepared where the message calls for a fix and the checks may go that far.
pub fn prepares_candidate(requires_action: bool, automation: ProtectionAutomation) -> (r: bool)
    ensures
        r == (requires_action && automation is Candidate),
{
    requires_action && matches!(automation, ProtectionAutomation::Candidate)
}

/// The finding waits for delivery, and is otherwise as it was.
pub open spec fn concluded(finding: ProtectionFinding, next: ProtectionFinding, now: Seq<char>) -> bool {
    &&& next.updated_at@ == now
    &&& next == (ProtectionFinding {
        state: FindingState::AwaitingDelivery,
        updated_at: next.updated_at,
        ..finding
    })
}

/// Sets a finding to wait for delivery where the candidate passed.
pub fn conclude_finding(
    finding: &mut ProtectionFinding,
    verification: &Option<VerificationResult>,
    now: &str,
) -> (r: bool)
    ensures
        r == (verification matches Some(v) && v.passed),
        !r ==> *final(finding) == *old(finding),
        r ==> concluded(*old(finding), *final(finding), now@),
{
    let passed: bool = match verification {
        Some(v) => v.passed,
        None => false,
    };
    if passed {
        finding.state = FindingState::AwaitingDelivery;
        finding.updated_at = owned(now);
    }
    passed
}

} // verus!
