//! What the static scan finds, written out.
use crate::protection::model::StaticScanReport;
use crate::protection::supply_chain::{EntryAction, Indicator, ScanFault, StaticFile, TreeEntry};
use vstd::prelude::*;

verus! {

/// Every lock file, manifest and build script of a tree is read: a regular file of one of the three
/// names is taken, unless it is larger than 16 MiB or 10,000 were taken before, and then the scan
/// fails. Every other file is passed over, and so is every link.
pub proof fn law_static_files_are_taken(entry: TreeEntry, taken: int)
    ensures
        ({
            let r = crate::protection::supply_chain::entry_rule(entry, taken);
            let named = entry.name@ == "Cargo.lock"@ || entry.name@ == "Cargo.toml"@ || entry.name@
                == "build.rs"@;
            let regular = !entry.is_symlink && !entry.is_dir;
            &&& r == Ok::<EntryAction, ScanFault>(EntryAction::Take) <==> regular && named
                && entry.bytes <= 16_777_216 && taken < 10_000
            &&& regular && named && entry.bytes > 16_777_216 <==> r == Err::<EntryAction, ScanFault>(
                ScanFault::TooLarge(entry.path@),
            )
            &&& regular && named && entry.bytes <= 16_777_216 && taken >= 10_000 <==> r == Err::<
                EntryAction,
                ScanFault,
            >(ScanFault::TooMany)
            &&& regular && !named ==> r == Ok::<EntryAction, ScanFault>(EntryAction::Skip)
            &&& entry.is_symlink ==> r == Ok::<EntryAction, ScanFault>(EntryAction::Skip)
        }),
{
}

/// Every directory of a tree is looked into, but for those of git, of build outputs and of packages of
/// JavaScript, and for the fixtures of tests.
pub proof fn law_directories_are_looked_into(entry: TreeEntry, taken: int)
    requires
        entry.is_dir,
        !entry.is_symlink,
    ensures
        ({
            let passed = entry.name@ == ".git"@ || entry.name@ == "target"@ || entry.name@
                == "node_modules"@ || (entry.parent@ == "tests"@ && entry.name@ == "fixtures"@);
            crate::protection::supply_chain::entry_rule(entry, taken) == Ok::<EntryAction, ScanFault>(
                if passed {
                    EntryAction::Skip
                } else {
                    EntryAction::Descend
                },
            )
        }),
{
}

/// The package is known to be malicious.
pub open spec fn is_malicious(name: Seq<char>, version: Seq<char>) -> bool {
    (name == "arrayref"@ && version == "0.3.10"@) || name == "proc-macro1"@
}

/// The lock file lists a package that is known to be malicious.
pub open spec fn locks_malicious(text: Seq<char>) -> bool {
    crate::protection::supply_chain::toml_rows(
        text,
        "package"@,
        seq!["name"@, "version"@, "checksum"@],
    ) matches Ok(Some(rows)) && exists|i: int| 0 <= i < rows.len() && row_is_malicious(#[trigger] rows[i])
}

pub open spec fn row_is_malicious(row: Seq<Option<Seq<char>>>) -> bool {
    is_malicious(
        if row[0] is Some {
            row[0]->0
        } else {
            Seq::empty()
        },
        if row[1] is Some {
            row[1]->0
        } else {
            Seq::empty()
        },
    )
}

/// The manifest depends on, or is, a package that is known to be malicious.
pub open spec fn names_malicious(text: Seq<char>) -> bool {
    let name = crate::protection::supply_chain::toml_text(text, "package"@, "name"@);
    let version = crate::protection::supply_chain::toml_text(text, "package"@, "version"@);
    ||| crate::protection::supply_chain::toml_has_key(text, "dependencies"@, "proc-macro1"@) == Ok::<
        bool,
        Seq<char>,
    >(true)
    ||| crate::protection::supply_chain::toml_has_key(text, "build-dependencies"@, "proc-macro1"@)
        == Ok::<bool, Seq<char>>(true)
    ||| crate::protection::supply_chain::toml_has_key(text, "dev-dependencies"@, "proc-macro1"@)
        == Ok::<bool, Seq<char>>(true)
    ||| is_malicious(
        if name is Ok && name->Ok_0 is Some {
            name->Ok_0->0
        } else {
            Seq::empty()
        },
        if version is Ok && version->Ok_0 is Some {
            version->Ok_0->0
        } else {
            Seq::empty()
        },
    )
}

pub open spec fn reaches_network(t: Seq<char>) -> bool {
    ||| crate::strings::occurs(t, "reqwest::blocking"@)
    ||| crate::strings::occurs(t, "reqwest::client"@)
    ||| crate::strings::occurs(t, "ureq::get"@)
    ||| crate::strings::occurs(t, "ureq::post"@)
    ||| crate::strings::occurs(t, "tcpstream::connect"@)
    ||| crate::strings::occurs(t, "udpsocket::connect"@)
}

pub open spec fn starts_process(t: Seq<char>) -> bool {
    ||| crate::strings::occurs(t, "command::new"@)
    ||| crate::strings::occurs(t, ".spawn("@)
    ||| crate::strings::occurs(t, "powershell"@)
    ||| crate::strings::occurs(t, "wscript"@)
    ||| crate::strings::occurs(t, "chmod"@)
    ||| crate::strings::occurs(t, "create_no_window"@)
}

pub open spec fn runs_command(t: Seq<char>) -> bool {
    ||| crate::strings::occurs(t, "powershell"@)
    ||| crate::strings::occurs(t, "pwsh"@)
    ||| crate::strings::occurs(t, "cmd.exe"@)
    ||| crate::strings::occurs(t, "command::new(\"cmd\")"@)
    ||| crate::strings::occurs(t, "wscript"@)
    ||| crate::strings::occurs(t, "cscript"@)
    ||| crate::strings::occurs(t, "invoke-webrequest"@)
    ||| crate::strings::occurs(t, "start-bitstransfer"@)
    ||| crate::strings::occurs(t, "curl.exe"@)
    ||| crate::strings::occurs(t, "command::new(\"curl\")"@)
    ||| crate::strings::occurs(t, "command::new(\"wget\")"@)
    ||| crate::strings::occurs(t, "command::new(\"python\")"@)
    ||| crate::strings::occurs(t, "command::new(\"python3\")"@)
    ||| crate::strings::occurs(t, "command::new(\"sh\")"@)
    ||| crate::strings::occurs(t, "command::new(\"bash\")"@)
}

pub open spec fn holds_address(t: Seq<char>) -> bool {
    crate::strings::occurs(t, "https://"@) || crate::strings::occurs(t, "http://"@)
}

pub open spec fn clones_repository(t: Seq<char>) -> bool {
    crate::strings::occurs(t, "command::new(\"git\")"@) && (crate::strings::occurs(
        t,
        "arg(\"clone\")"@,
    ) || crate::strings::occurs(t, "arg(\"fetch\")"@))
}

pub open spec fn hides(t: Seq<char>) -> bool {
    ||| crate::strings::occurs(t, "dangerous()"@)
    ||| crate::strings::occurs(t, "acceptall"@)
    ||| crate::strings::occurs(t, "mem::forget"@)
    ||| crate::strings::occurs(t, "base64"@)
    ||| crate::strings::occurs(t, "detached"@)
}

/// The build script can fetch code and run it, or hides something of the kind.
pub open spec fn script_is_dangerous(text: Seq<char>) -> bool {
    let t = crate::strings::lower(crate::protection::supply_chain::stripped(text));
    ||| reaches_network(t) && starts_process(t)
    ||| holds_address(t) && (runs_command(t) || clones_repository(t))
    ||| hides(t) && (reaches_network(t) || holds_address(t) || starts_process(t) || runs_command(t))
}

/// The file holds something for which the build is blocked.
pub open spec fn is_dangerous(file: StaticFile) -> bool {
    ||| file.name@ == "Cargo.lock"@ && locks_malicious(file.text@)
    ||| file.name@ == "Cargo.toml"@ && names_malicious(file.text@)
    ||| file.name@ == "build.rs"@ && script_is_dangerous(file.text@)
}

proof fn lemma_matching(text: Seq<char>, markers: Seq<Seq<char>>)
    ensures
        crate::protection::supply_chain::matching(text, markers).len() > 0 <==> exists|i: int|
            0 <= i < markers.len() && crate::strings::occurs(text, #[trigger] markers[i]),
    decreases markers.len(),
{
    if markers.len() > 0 {
        let head = markers.drop_last();
        lemma_matching(text, head);
        if crate::strings::occurs(text, markers.last()) {
            assert(markers[markers.len() - 1] == markers.last());
        }
        assert forall|i: int| 0 <= i < head.len() implies head[i] == #[trigger] markers[i] by {}
        if crate::protection::supply_chain::matching(text, head).len() > 0 {
            let i = choose|i: int| 0 <= i < head.len() && crate::strings::occurs(text, #[trigger] head[i]);
            assert(crate::strings::occurs(text, markers[i]));
        }
    }
}

#[verifier::rlimit(40)]
pub proof fn lemma_traits(raw: Seq<char>)
    ensures
        ({
            let x = crate::protection::supply_chain::script_traits(raw);
            let t = crate::strings::lower(crate::protection::supply_chain::stripped(raw));
            &&& x.network.len() > 0 <==> reaches_network(t)
            &&& x.execution.len() > 0 <==> starts_process(t)
            &&& x.commands.len() > 0 <==> runs_command(t)
            &&& x.urls.len() > 0 <==> holds_address(t)
            &&& x.evasion.len() > 0 <==> hides(t)
            &&& x.git_download <==> clones_repository(t)
        }),
{
    let t = crate::strings::lower(crate::protection::supply_chain::stripped(raw));
    let network = crate::protection::supply_chain::network_markers();
    lemma_matching(t, network);
    if reaches_network(t) {
        assert(network[0] == "reqwest::blocking"@ && network[1] == "reqwest::client"@ && network[2]
            == "ureq::get"@ && network[3] == "ureq::post"@ && network[4] == "tcpstream::connect"@
            && network[5] == "udpsocket::connect"@);
    }
    let execution = crate::protection::supply_chain::execution_markers();
    lemma_matching(t, execution);
    if starts_process(t) {
        assert(execution[0] == "command::new"@ && execution[1] == ".spawn("@ && execution[2]
            == "powershell"@ && execution[3] == "wscript"@ && execution[4] == "chmod"@ && execution[5]
            == "create_no_window"@);
    }
    let commands = crate::protection::supply_chain::command_markers();
    lemma_matching(t, commands);
    if runs_command(t) {
        assert(commands[0] == "powershell"@ && commands[1] == "pwsh"@ && commands[2] == "cmd.exe"@
            && commands[3] == "command::new(\"cmd\")"@ && commands[4] == "wscript"@ && commands[5]
            == "cscript"@ && commands[6] == "invoke-webrequest"@ && commands[7]
            == "start-bitstransfer"@ && commands[8] == "curl.exe"@ && commands[9]
            == "command::new(\"curl\")"@ && commands[10] == "command::new(\"wget\")"@ && commands[11]
            == "command::new(\"python\")"@ && commands[12] == "command::new(\"python3\")"@
            && commands[13] == "command::new(\"sh\")"@ && commands[14]
            == "command::new(\"bash\")"@);
    }
    let urls = crate::protection::supply_chain::url_markers();
    lemma_matching(t, urls);
    if holds_address(t) {
        assert(urls[0] == "https://"@ && urls[1] == "http://"@);
    }
    let evasion = crate::protection::supply_chain::evasion_markers();
    lemma_matching(t, evasion);
    if hides(t) {
        assert(evasion[0] == "dangerous()"@ && evasion[1] == "acceptall"@ && evasion[2]
            == "mem::forget"@ && evasion[3] == "base64"@ && evasion[4] == "detached"@);
    }
}

/// All of the blockers stand at the path.
pub open spec fn stand_at(list: Seq<Indicator>, path: Seq<char>) -> bool {
    forall|i: int|
        0 <= i < list.len() ==> (#[trigger] list[i]).path == path && list[i].severity == "blocker"@
}

proof fn lemma_lock(path: Seq<char>, list: Seq<crate::protection::supply_chain::Package>)
    ensures
        ({
            let out = crate::protection::supply_chain::lock_blockers(path, list);
            &&& out.len() > 0 <==> exists|i: int|
                0 <= i < list.len() && is_malicious((#[trigger] list[i]).0, list[i].1)
            &&& stand_at(out, path)
        }),
    decreases list.len(),
{
    if list.len() > 0 {
        let head = list.drop_last();
        lemma_lock(path, head);
        let more = crate::protection::supply_chain::package_blockers(path, list.last());
        assert(stand_at(more, path));
        assert forall|i: int| 0 <= i < head.len() implies head[i] == #[trigger] list[i] by {}
        if more.len() > 0 {
            assert(is_malicious(list[list.len() - 1].0, list[list.len() - 1].1));
        }
        if crate::protection::supply_chain::lock_blockers(path, head).len() > 0 {
            let i = choose|i: int|
                0 <= i < head.len() && is_malicious((#[trigger] head[i]).0, head[i].1);
            assert(is_malicious(list[i].0, list[i].1));
        }
    }
}

proof fn lemma_sections(path: Seq<char>, hits: Seq<bool>)
    ensures
        ({
            let out = crate::protection::supply_chain::section_blockers(path, hits);
            &&& out.len() > 0 <==> exists|i: int| 0 <= i < hits.len() && #[trigger] hits[i]
            &&& stand_at(out, path)
        }),
    decreases hits.len(),
{
    if hits.len() > 0 {
        let head = hits.drop_last();
        lemma_sections(path, head);
        assert forall|i: int| 0 <= i < head.len() implies head[i] == #[trigger] hits[i] by {}
        if hits.last() {
            assert(hits[hits.len() - 1]);
        }
        if crate::protection::supply_chain::section_blockers(path, head).len() > 0 {
            let i = choose|i: int| 0 <= i < head.len() && #[trigger] head[i];
            assert(hits[i]);
        }
    }
}

/// What a file that can be read adds to the blockers: something if and only if it is dangerous, and all
/// of it at its own path.
#[verifier::rlimit(40)]
proof fn lemma_file(file: StaticFile)
    requires
        crate::protection::supply_chain::file_said(file) is Ok,
    ensures
        ({
            let out = crate::protection::supply_chain::file_said(file)->Ok_0.0;
            &&& out.len() > 0 <==> is_dangerous(file)
            &&& stand_at(out, file.path@)
        }),
{
    reveal_strlit("Cargo.lock");
    reveal_strlit("Cargo.toml");
    reveal_strlit("build.rs");
    assert("Cargo.lock"@[6] == 'l' && "Cargo.toml"@[6] == 't');
    let out = crate::protection::supply_chain::file_said(file)->Ok_0.0;
    if file.name@ == "Cargo.lock"@ {
        let rows = crate::protection::supply_chain::toml_rows(
            file.text@,
            "package"@,
            crate::protection::supply_chain::lock_fields(),
        )->Ok_0;
        assert(crate::protection::supply_chain::lock_fields() =~= seq![
            "name"@,
            "version"@,
            "checksum"@,
        ]);
        let list = crate::protection::supply_chain::packages_of(rows);
        lemma_lock(file.path@, list);
        if rows is Some {
            let rows = rows->0;
            assert forall|i: int| 0 <= i < rows.len() implies row_is_malicious(#[trigger] rows[i])
                == is_malicious(list[i].0, list[i].1) by {}
            if locks_malicious(file.text@) {
                let i = choose|i: int| 0 <= i < rows.len() && row_is_malicious(#[trigger] rows[i]);
                assert(is_malicious(list[i].0, list[i].1));
            }
            if out.len() > 0 {
                let i = choose|i: int|
                    0 <= i < list.len() && is_malicious((#[trigger] list[i]).0, list[i].1);
                assert(row_is_malicious(rows[i]));
            }
        }
    } else if file.name@ == "Cargo.toml"@ {
        let (name, version, hits) = crate::protection::supply_chain::manifest_said(
            file.text@,
        )->Ok_0;
        lemma_sections(file.path@, hits);
        let own = crate::protection::supply_chain::package_blockers(
            file.path@,
            (name, version, Seq::empty()),
        );
        assert(stand_at(own, file.path@));
        assert(own.len() > 0 <==> is_malicious(name, version));
        assert(hits.len() == 3);
        assert((exists|i: int| 0 <= i < hits.len() && #[trigger] hits[i]) <==> hits[0] || hits[1]
            || hits[2]);
    } else if file.name@ == "build.rs"@ {
        lemma_traits(file.text@);
    }
}

proof fn lemma_tree(files: Seq<StaticFile>, n: int)
    requires
        0 <= n <= files.len(),
        crate::protection::supply_chain::tree_said(files, n) is Ok,
    ensures
        ({
            let out = crate::protection::supply_chain::tree_said(files, n)->Ok_0.0;
            &&& out.len() > 0 <==> exists|i: int| 0 <= i < n && is_dangerous(#[trigger] files[i])
            &&& forall|i: int|
                0 <= i < n && is_dangerous(#[trigger] files[i]) ==> has_blocker(out, files[i].path@)
            &&& forall|k: int|
                0 <= k < out.len() ==> from_dangerous(files, n, (#[trigger] out[k]).path)
        }),
    decreases n,
{
    if n > 0 {
        lemma_tree(files, n - 1);
        let before = crate::protection::supply_chain::tree_said(files, n - 1)->Ok_0.0;
        let more = crate::protection::supply_chain::file_said(files[n - 1])->Ok_0.0;
        let out = crate::protection::supply_chain::tree_said(files, n)->Ok_0.0;
        assert(out == before + more);
        lemma_file(files[n - 1]);
        assert forall|i: int| 0 <= i < n && is_dangerous(#[trigger] files[i]) implies has_blocker(
            out,
            files[i].path@,
        ) by {
            if i == n - 1 {
                assert(out[before.len() as int] == more[0]);
            } else {
                let k = choose|k: int|
                    0 <= k < before.len() && (#[trigger] before[k]).path == files[i].path@
                        && before[k].severity == "blocker"@;
                assert(out[k] == before[k]);
            }
        }
        assert forall|k: int| 0 <= k < out.len() implies from_dangerous(
            files,
            n,
            (#[trigger] out[k]).path,
        ) by {
            if k < before.len() {
                assert(out[k] == before[k]);
                let i = choose|i: int|
                    0 <= i < n - 1 && is_dangerous(#[trigger] files[i]) && files[i].path@
                        == before[k].path;
                assert(is_dangerous(files[i]));
            } else {
                assert(out[k] == more[k - before.len()]);
                assert(is_dangerous(files[n - 1]));
            }
        }
        if out.len() > 0 {
            assert(from_dangerous(files, n, out[0].path));
        }
    }
}

/// One of the indicators blocks the build for the sake of the file at the path.
pub open spec fn has_blocker(list: Seq<Indicator>, path: Seq<char>) -> bool {
    exists|k: int|
        0 <= k < list.len() && (#[trigger] list[k]).path == path && list[k].severity == "blocker"@
}

/// One of the first `n` files is dangerous and stands at the path.
pub open spec fn from_dangerous(files: Seq<StaticFile>, n: int, path: Seq<char>) -> bool {
    exists|i: int| 0 <= i < n && is_dangerous(#[trigger] files[i]) && files[i].path@ == path
}

/// A build is allowed if and only if no file of the tree is dangerous: no lock file lists and no
/// manifest names a package that is known to be malicious, and no build script can fetch code and run
/// it or hides something of the kind. Whatever blocks it stands at the path of a dangerous file.
pub proof fn law_dangerous_tree_is_blocked(
    files: Seq<StaticFile>,
    report: StaticScanReport,
    project: Seq<char>,
    root: Seq<char>,
)
    requires
        crate::protection::supply_chain::tree_said(files, files.len() as int) matches Ok(
            (blockers, warnings),
        ) && crate::protection::supply_chain::is_report(
            report,
            project,
            root,
            files.len() as int,
            blockers,
            warnings,
        ),
    ensures
        report.build_allowed <==> forall|i: int| 0 <= i < files.len() ==> !is_dangerous(#[trigger] files[i]),
        report.blockers@.len() > 0 <==> !report.build_allowed,
        report.scanned_files == files.len(),
        forall|k: int|
            0 <= k < report.blockers@.len() ==> from_dangerous(
                files,
                files.len() as int,
                (#[trigger] report.blockers@[k]).path@,
            ),
{
    let n = files.len() as int;
    let blockers = crate::protection::supply_chain::tree_said(files, n)->Ok_0.0;
    let warnings = crate::protection::supply_chain::tree_said(files, n)->Ok_0.1;
    lemma_tree(files, n);
    crate::laws::supply_chain::law_report_allows_only_without_blockers(
        report,
        project,
        root,
        n,
        blockers,
        warnings,
    );
    let said = crate::protection::supply_chain::said(report.blockers@);
    assert forall|k: int| 0 <= k < report.blockers@.len() implies from_dangerous(
        files,
        n,
        (#[trigger] report.blockers@[k]).path@,
    ) by {
        law_deduplication_adds_nothing(blockers, k);
        assert(said[k] == report.blockers@[k]@);
        let j = choose|j: int| 0 <= j < blockers.len() && #[trigger] blockers[j] == said[k];
        assert(from_dangerous(files, n, blockers[j].path));
    }
}

/// What is left after deduplication was there before.
pub proof fn law_deduplication_adds_nothing(list: Seq<Indicator>, k: int)
    requires
        0 <= k < crate::protection::supply_chain::deduplicated(list).len(),
    ensures
        exists|j: int|
            0 <= j < list.len() && #[trigger] list[j]
                == crate::protection::supply_chain::deduplicated(list)[k],
    decreases list.len(),
{
    if list.len() > 0 {
        let head = list.drop_last();
        let rest = crate::protection::supply_chain::deduplicated(head);
        let out = crate::protection::supply_chain::deduplicated(list);
        if k < rest.len() {
            law_deduplication_adds_nothing(head, k);
            let j = choose|j: int| 0 <= j < head.len() && #[trigger] head[j] == rest[k];
            assert(list[j] == out[k]);
        } else {
            assert(list[list.len() - 1] == out[k]);
        }
    }
}

/// Findings are told apart by rule, place and evidence: two that agree in two of them are the same
/// finding only where they agree in the third.
pub proof fn law_findings_are_told_apart(a: Indicator, b: Indicator)
    ensures
        a.rule_id == b.rule_id && a.evidence == b.evidence ==> (crate::protection::supply_chain::key(a)
            == crate::protection::supply_chain::key(b) <==> a.path == b.path),
        a.rule_id == b.rule_id && a.path == b.path ==> (crate::protection::supply_chain::key(a)
            == crate::protection::supply_chain::key(b) <==> a.evidence == b.evidence),
        a.path == b.path && a.evidence == b.evidence ==> (crate::protection::supply_chain::key(a)
            == crate::protection::supply_chain::key(b) <==> a.rule_id == b.rule_id),
{
    let ka = crate::protection::supply_chain::key(a);
    let kb = crate::protection::supply_chain::key(b);
    let c = ":"@.len();
    assert(ka.len() == a.rule_id.len() + c + a.path.len() + c + a.evidence.len());
    assert(kb.len() == b.rule_id.len() + c + b.path.len() + c + b.evidence.len());
    if ka == kb {
        if a.rule_id == b.rule_id && a.evidence == b.evidence {
            assert(a.path.len() == b.path.len());
            let at = (a.rule_id + ":"@).len() as int;
            assert(ka.subrange(at, at + a.path.len()) =~= a.path);
            assert(kb.subrange(at, at + a.path.len()) =~= b.path);
        }
        if a.rule_id == b.rule_id && a.path == b.path {
            assert(a.evidence.len() == b.evidence.len());
            let at = (a.rule_id + ":"@ + a.path + ":"@).len() as int;
            assert(ka.subrange(at, at + a.evidence.len()) =~= a.evidence);
            assert(kb.subrange(at, at + a.evidence.len()) =~= b.evidence);
        }
        if a.path == b.path && a.evidence == b.evidence {
            assert(a.rule_id.len() == b.rule_id.len());
            assert(ka.subrange(0, a.rule_id.len() as int) =~= a.rule_id);
            assert(kb.subrange(0, a.rule_id.len() as int) =~= b.rule_id);
        }
    }
}

} // verus!
