//! Advisories of the OSV database for the locked dependencies.
use crate::config::ProtectionConfig;
use crate::json::{present_texts, read_json_text, read_json_texts, select_json};
use crate::order::not_after;
use crate::protection::closure::closure_of;
use crate::protection::supply_chain::{cell, read_toml_lists, read_toml_rows};
use crate::strings::{byte_len, is_in, owned, push_string, same, to_chars, trim, usize_to_string};
use crate::table::TextTable;
use vstd::prelude::*;

verus! {

pub const QUERY_BATCH_SIZE: usize = 128;

pub const MAX_BATCH_RESPONSE_BYTES: u64 = 8_388_608;

pub const MAX_DETAIL_RESPONSE_BYTES: u64 = 1_048_576;

pub const MAX_PAGINATION_ROUNDS: usize = 10;

pub const MAX_ADVISORY_CONTENT_BYTES: usize = 61_440;

/// A package that the root package depends on, directly or not.
#[derive(Debug, Clone)]
pub struct ReachablePackage {
    pub name: String,
    pub version: String,
    pub source: String,
}

/// The dependencies of the root package, as the lock file shows them.
#[derive(Debug, Clone)]
pub struct CargoReachabilitySnapshot {
    pub reachable_packages: Vec<ReachablePackage>,
    /// Dependencies that the lock file does not tell apart.
    pub ambiguous_edges: Vec<String>,
}

#[derive(Debug, Clone)]
pub struct OsvQuery {
    pub name: String,
    pub version: String,
    pub page_token: Option<String>,
}

#[derive(Debug, Clone)]
pub struct OsvReference {
    pub id: String,
    pub modified: String,
}

#[derive(Debug, Clone)]
pub struct OsvQueryResult {
    pub vulns: Vec<OsvReference>,
    pub next_page_token: Option<String>,
}

#[derive(Debug, Clone)]
pub struct OsvAdvisoryCursor {
    pub id: String,
    pub modified: String,
}

#[derive(Debug, Clone)]
pub struct OsvAdvisorySignal {
    pub id: String,
    pub modified: String,
    pub related_ids: Vec<OsvAdvisoryCursor>,
    pub summary: String,
    pub reference: String,
    pub content: String,
}

#[derive(Debug, Clone)]
pub enum OsvError {
    /// The number of results is not that of the queries.
    CountMismatch,
    TooManyPages,
    InvalidId(String),
    ContentTooLarge,
    /// The words of the JSON parser.
    Syntax(String),
    Status(String),
    TooLarge(u64),
}

impl OsvError {
    pub open spec fn words(self) -> Seq<char> {
        match self {
            OsvError::CountMismatch => "OSV querybatch 响应数量与请求不一致"@,
            OsvError::TooManyPages => "OSV querybatch 分页超过 "@ + crate::strings::decimal(
                MAX_PAGINATION_ROUNDS as nat,
            ) + " 轮，已失败关闭"@,
            OsvError::InvalidId(id) => "OSV ID 非法："@ + id@,
            OsvError::ContentTooLarge => "OSV 公告证据超过 60 KiB，拒绝截断后自动判断"@,
            OsvError::Syntax(words) => "解析 OSV JSON 失败: "@ + words@,
            OsvError::Status(status) => "OSV 返回 HTTP "@ + status@,
            OsvError::TooLarge(limit) => "OSV 响应超过 "@ + crate::strings::decimal(limit as nat)
                + " 字节"@,
        }
    }

    /// The words in which the error is reported.
    pub fn message(&self) -> (r: String)
        ensures
            r@ == self.words(),
    {
        match self {
            OsvError::CountMismatch => owned("OSV querybatch 响应数量与请求不一致"),
            OsvError::TooManyPages => owned("OSV querybatch 分页超过 ").concat(
                usize_to_string(MAX_PAGINATION_ROUNDS).as_str(),
            ).concat(" 轮，已失败关闭"),
            OsvError::InvalidId(id) => owned("OSV ID 非法：").concat(id.as_str()),
            OsvError::ContentTooLarge => owned("OSV 公告证据超过 60 KiB，拒绝截断后自动判断"),
            OsvError::Syntax(words) => owned("解析 OSV JSON 失败: ").concat(words.as_str()),
            OsvError::Status(status) => owned("OSV 返回 HTTP ").concat(status.as_str()),
            OsvError::TooLarge(limit) => owned("OSV 响应超过 ").concat(
                crate::strings::u64_to_string(*limit).as_str(),
            ).concat(" 字节"),
        }
    }
}

/// The package comes from the public registry.
pub open spec fn is_public(source: Seq<char>) -> bool {
    source == "registry+https://github.com/rust-lang/crates.io-index"@ || source
        == "sparse+https://index.crates.io/"@
}

/// Whether a package comes from the public registry.
pub fn is_crates_io_source(source: &str) -> (r: bool)
    ensures
        r == is_public(source@),
{
    same(source, "registry+https://github.com/rust-lang/crates.io-index") || same(
        source,
        "sparse+https://index.crates.io/",
    )
}

pub open spec fn is_id_char(c: char) -> bool {
    ('0' <= c <= '9') || ('a' <= c <= 'z') || ('A' <= c <= 'Z') || c == '-' || c == '_' || c == '.'
}

/// One to 128 ASCII letters, digits, hyphens, underscores and dots.
pub open spec fn is_valid_id(id: Seq<char>) -> bool {
    0 < id.len() <= 128 && forall|i: int| 0 <= i < id.len() ==> is_id_char(#[trigger] id[i])
}

/// Checks the identifier of an advisory before it becomes a part of an address.
pub fn validate_osv_id(id: &str) -> (r: Result<(), OsvError>)
    ensures
        match r {
            Ok(()) => is_valid_id(id@),
            Err(error) => !is_valid_id(id@) && (error matches OsvError::InvalidId(bad) && bad@ == id@),
        },
{
    let v = to_chars(id);
    if v.len() == 0 || v.len() > 128 {
        return Err(OsvError::InvalidId(owned(id)));
    }
    let mut i: usize = 0;
    while i < v.len()
        invariant
            i <= v@.len(),
            v@ == id@,
            forall|k: int| 0 <= k < i ==> is_id_char(#[trigger] v@[k]),
        decreases v@.len() - i,
    {
        let c = v[i];
        if !(('0' <= c && c <= '9') || ('a' <= c && c <= 'z') || ('A' <= c && c <= 'Z') || c == '-'
            || c == '_' || c == '.') {
            assert(!is_id_char(v@[i as int]));
            return Err(OsvError::InvalidId(owned(id)));
        }
        i += 1;
    }
    Ok(())
}

/// Name and version of a package or a query.
pub type Locked = (Seq<char>, Seq<char>);

pub open spec fn asked(queries: Seq<OsvQuery>) -> Seq<Locked> {
    Seq::new(queries.len(), |i: int| (queries[i].name@, queries[i].version@))
}

/// The packages of the public registry, each once, in the order of their first appearance.
pub open spec fn to_ask(packages: Seq<ReachablePackage>) -> Seq<Locked>
    decreases packages.len(),
{
    if packages.len() == 0 {
        Seq::empty()
    } else {
        let rest = to_ask(packages.drop_last());
        let last = packages.last();
        if is_public(last.source@) && !rest.contains((last.name@, last.version@)) {
            rest.push((last.name@, last.version@))
        } else {
            rest
        }
    }
}

fn already_asked(queries: &Vec<OsvQuery>, name: &str, version: &str) -> (r: bool)
    ensures
        r == asked(queries@).contains((name@, version@)),
{
    let mut i: usize = 0;
    while i < queries.len()
        invariant
            i <= queries@.len(),
            forall|k: int| 0 <= k < i ==> #[trigger] asked(queries@)[k] != (name@, version@),
        decreases queries@.len() - i,
    {
        if same(queries[i].name.as_str(), name) && same(queries[i].version.as_str(), version) {
            assert(asked(queries@)[i as int] == (name@, version@));
            return true;
        }
        i += 1;
    }
    false
}

/// The fields that are read of a package of a lock file.
pub open spec fn source_fields() -> Seq<Seq<char>> {
    seq!["name"@, "version"@, "source"@]
}

/// The entries of the dependencies; one that is no text is empty.
pub open spec fn entries_of(lists: Option<Seq<Seq<Option<Seq<char>>>>>) -> Seq<Seq<Seq<char>>> {
    match lists {
        None => Seq::empty(),
        Some(lists) => Seq::new(
            lists.len(),
            |i: int|
                Seq::new(
                    lists[i].len(),
                    |k: int| crate::protection::supply_chain::text_or_empty(lists[i][k]),
                ),
        ),
    }
}

fn list_packages(rows: &Vec<Vec<Option<String>>>) -> (r: Vec<ReachablePackage>)
    requires
        forall|i: int| 0 <= i < rows@.len() ==> (#[trigger] rows@[i])@.len() == 3,
    ensures
        crate::protection::closure::sourced(r@) == crate::protection::supply_chain::packages_of(
            Some(crate::protection::supply_chain::cells(rows@)),
        ),
{
    let mut list: Vec<ReachablePackage> = Vec::new();
    let ghost cells = crate::protection::supply_chain::cells(rows@);
    let ghost all = crate::protection::supply_chain::packages_of(Some(cells));
    let mut i: usize = 0;
    while i < rows.len()
        invariant
            i <= rows@.len(),
            cells == crate::protection::supply_chain::cells(rows@),
            all == crate::protection::supply_chain::packages_of(Some(cells)),
            forall|k: int| 0 <= k < rows@.len() ==> (#[trigger] rows@[k])@.len() == 3,
            crate::protection::closure::sourced(list@) =~= all.take(i as int),
        decreases rows@.len() - i,
    {
        assert(cells[i as int] == Seq::new(
            rows@[i as int]@.len(),
            |j: int| crate::strings::opt_view(rows@[i as int]@[j]),
        ));
        let ghost before = list@;
        list.push(
            ReachablePackage {
                name: cell(&rows[i][0]),
                version: cell(&rows[i][1]),
                source: cell(&rows[i][2]),
            },
        );
        assert(crate::protection::closure::sourced(list@)
            =~= crate::protection::closure::sourced(before).push(all[i as int]));
        i += 1;
    }
    assert(crate::protection::closure::sourced(list@) =~= all);
    list
}

fn list_entries(row: &Vec<Option<String>>) -> (r: Vec<String>)
    ensures
        crate::strings::views(r@) == Seq::new(
            row@.len(),
            |k: int|
                crate::protection::supply_chain::text_or_empty(crate::strings::opt_view(row@[k])),
        ),
{
    let mut list: Vec<String> = Vec::new();
    let mut k: usize = 0;
    while k < row.len()
        invariant
            k <= row@.len(),
            list@.len() == k,
            forall|m: int|
                0 <= m < k ==> (#[trigger] list@[m])@
                    == crate::protection::supply_chain::text_or_empty(
                    crate::strings::opt_view(row@[m]),
                ),
        decreases row@.len() - k,
    {
        list.push(cell(&row[k]));
        k += 1;
    }
    assert(crate::strings::views(list@) =~= Seq::new(
        row@.len(),
        |k: int| crate::protection::supply_chain::text_or_empty(crate::strings::opt_view(row@[k])),
    ));
    list
}

fn list_dependencies(rows: &Vec<Vec<Option<String>>>) -> (r: Vec<Vec<String>>)
    ensures
        crate::protection::closure::entries(r@) == entries_of(
            Some(crate::protection::supply_chain::cells(rows@)),
        ),
{
    let ghost all = entries_of(Some(crate::protection::supply_chain::cells(rows@)));
    let mut list: Vec<Vec<String>> = Vec::new();
    let mut i: usize = 0;
    while i < rows.len()
        invariant
            i <= rows@.len(),
            list@.len() == i,
            all == entries_of(Some(crate::protection::supply_chain::cells(rows@))),
            forall|m: int|
                0 <= m < i ==> crate::strings::views((#[trigger] list@[m])@) == all[m],
        decreases rows@.len() - i,
    {
        list.push(list_entries(&rows[i]));
        assert(crate::strings::views(list@[i as int]@) =~= all[i as int]);
        i += 1;
    }
    assert(crate::protection::closure::entries(list@) =~= all);
    list
}

/// Reads which packages of a lock file the packages of the project depend on, directly or not. A
/// field that a package lacks is empty.
pub fn cargo_reachability_snapshot(raw: &str) -> (r: Result<CargoReachabilitySnapshot, String>)
    ensures
        match (
            crate::protection::supply_chain::toml_rows(raw@, "package"@, source_fields()),
            crate::protection::supply_chain::toml_lists(raw@, "package"@, "dependencies"@),
        ) {
            (Ok(rows), Ok(lists)) => {
                let packages = crate::protection::supply_chain::packages_of(rows);
                let n = packages.len() as int;
                &&& r is Ok
                &&& crate::protection::closure::sourced(r->Ok_0.reachable_packages@)
                    == crate::protection::closure::reachable(packages, entries_of(lists), n)
                &&& crate::strings::views(r->Ok_0.ambiguous_edges@)
                    == crate::protection::closure::unclear(packages, entries_of(lists), n)
            },
            (Err(words), _) => r matches Err(error) && error@ == "解析 Cargo.lock 失败: "@ + words,
            (_, Err(words)) => r matches Err(error) && error@ == "解析 Cargo.lock 失败: "@ + words,
        },
{
    let fields = ["name", "version", "source"];
    assert(crate::strings::str_views(fields@) =~= source_fields());
    let packages: Vec<ReachablePackage> = match read_toml_rows(raw, "package", &fields) {
        Err(words) => {
            return Err(owned("解析 Cargo.lock 失败: ").concat(words.as_str()));
        },
        Ok(None) => Vec::new(),
        Ok(Some(rows)) => list_packages(&rows),
    };
    assert(packages@.len() == 0 ==> crate::protection::closure::sourced(packages@)
        =~= Seq::empty());
    let dependencies: Vec<Vec<String>> = match read_toml_lists(raw, "package", "dependencies") {
        Err(words) => {
            return Err(owned("解析 Cargo.lock 失败: ").concat(words.as_str()));
        },
        Ok(None) => Vec::new(),
        Ok(Some(lists)) => list_dependencies(&lists),
    };
    assert(dependencies@.len() == 0 ==> crate::protection::closure::entries(dependencies@)
        =~= Seq::empty());
    Ok(closure_of(&packages, &dependencies))
}

/// The database is asked where the checks and the profile `osv` are on.
pub open spec fn asks(protection: ProtectionConfig) -> bool {
    protection.enabled && crate::strings::views(protection.profiles@).contains("osv"@)
}

/// Whether the database is asked.
pub fn osv_enabled(protection: &ProtectionConfig) -> (r: bool)
    ensures
        r == asks(*protection),
{
    protection.enabled && is_in("osv", &protection.profiles)
}

/// The queries for the locked packages.
pub fn scan_osv_advisories(protection: &ProtectionConfig, packages: &Vec<ReachablePackage>) -> (r:
    Vec<OsvQuery>)
    ensures
        asked(r@) == (if asks(*protection) {
            to_ask(packages@)
        } else {
            Seq::empty()
        }),
        forall|i: int| 0 <= i < r@.len() ==> (#[trigger] r@[i]).page_token is None,
{
    let mut out: Vec<OsvQuery> = Vec::new();
    assert(asked(out@) =~= Seq::empty());
    if !osv_enabled(protection) {
        return out;
    }
    let mut i: usize = 0;
    assert(packages@.take(0) =~= Seq::empty());
    while i < packages.len()
        invariant
            i <= packages@.len(),
            asked(out@) =~= to_ask(packages@.take(i as int)),
            forall|k: int| 0 <= k < out@.len() ==> (#[trigger] out@[k]).page_token is None,
        decreases packages@.len() - i,
    {
        assert(packages@.take(i + 1).drop_last() =~= packages@.take(i as int));
        let name = packages[i].name.as_str();
        let version = packages[i].version.as_str();
        if is_crates_io_source(packages[i].source.as_str()) && !already_asked(&out, name, version) {
            let ghost before = out@;
            out.push(OsvQuery { name: owned(name), version: owned(version), page_token: None });
            assert(asked(out@) =~= asked(before).push((name@, version@)));
        }
        i += 1;
    }
    assert(packages@.take(packages@.len() as int) =~= packages@);
    out
}

/// A table of advisories with one more: the later of two dates of change stays.
pub open spec fn noted(m: Map<Seq<char>, Seq<char>>, r: OsvReference) -> Map<Seq<char>, Seq<char>> {
    if m.dom().contains(r.id@) && crate::order::le(r.modified@, m[r.id@]) {
        m
    } else {
        m.insert(r.id@, r.modified@)
    }
}

pub open spec fn noted_all(m: Map<Seq<char>, Seq<char>>, list: Seq<OsvReference>) -> Map<
    Seq<char>,
    Seq<char>,
>
    decreases list.len(),
{
    if list.len() == 0 {
        m
    } else {
        noted(noted_all(m, list.drop_last()), list.last())
    }
}

fn note_reference(table: &mut TextTable, r: &OsvReference)
    requires
        old(table).wf(),
    ensures
        final(table).wf(),
        final(table)@ == noted(old(table)@, *r),
{
    let stays: bool = match table.get(r.id.as_str()) {
        Some(modified) => not_after(r.modified.as_str(), modified),
        None => false,
    };
    if !stays {
        table.put(r.id.clone(), r.modified.clone());
    }
}

/// Notes the advisories of one result.
pub fn note_references(table: &mut TextTable, list: &Vec<OsvReference>)
    requires
        old(table).wf(),
    ensures
        final(table).wf(),
        final(table)@ == noted_all(old(table)@, list@),
{
    let ghost before = table@;
    let mut i: usize = 0;
    assert(list@.take(0) =~= Seq::empty());
    while i < list.len()
        invariant
            i <= list@.len(),
            table.wf(),
            table@ == noted_all(before, list@.take(i as int)),
        decreases list@.len() - i,
    {
        assert(list@.take(i + 1).drop_last() =~= list@.take(i as int));
        note_reference(table, &list[i]);
        i += 1;
    }
    assert(list@.take(list@.len() as int) =~= list@);
}

/// The table after the first `n` results.
pub open spec fn noted_results(
    m: Map<Seq<char>, Seq<char>>,
    results: Seq<OsvQueryResult>,
    n: int,
) -> Map<Seq<char>, Seq<char>>
    decreases n,
{
    if n <= 0 {
        m
    } else {
        noted_all(noted_results(m, results, n - 1), results[n - 1].vulns@)
    }
}

/// The queries among the first `n` whose results go on, with the token of the next page.
pub open spec fn going_on(queries: Seq<OsvQuery>, results: Seq<OsvQueryResult>, n: int) -> Seq<
    (Locked, Seq<char>),
>
    decreases n,
{
    if n <= 0 {
        Seq::empty()
    } else {
        let rest = going_on(queries, results, n - 1);
        match results[n - 1].next_page_token {
            Some(token) => rest.push(((queries[n - 1].name@, queries[n - 1].version@), token@)),
            None => rest,
        }
    }
}

/// `queries` ask for these pages.
pub open spec fn ask_pages(queries: Seq<OsvQuery>, pages: Seq<(Locked, Seq<char>)>) -> bool {
    &&& queries.len() == pages.len()
    &&& forall|i: int|
        0 <= i < queries.len() ==> ((#[trigger] queries[i]).name@, queries[i].version@) == pages[i].0
            && crate::strings::opt_view(queries[i].page_token) == Some(pages[i].1)
}

/// Notes the advisories of one round of results, and gives the queries of the next round: none where
/// every result is complete. `round` counts the rounds before this one.
pub fn collect_query_pages(
    queries: &Vec<OsvQuery>,
    results: &Vec<OsvQueryResult>,
    references: &mut TextTable,
    round: usize,
) -> (r: Result<Vec<OsvQuery>, OsvError>)
    requires
        old(references).wf(),
        round < MAX_PAGINATION_ROUNDS,
    ensures
        final(references).wf(),
        ({
            let n = queries@.len() as int;
            let pages = going_on(queries@, results@, n);
            if results@.len() != queries@.len() {
                (r matches Err(error) && error is CountMismatch) && final(references)@ == old(
                    references,
                )@
            } else {
                &&& final(references)@ == noted_results(old(references)@, results@, n)
                &&& if pages.len() > 0 && round + 1 >= MAX_PAGINATION_ROUNDS {
                    r matches Err(error) && error is TooManyPages
                } else {
                    r matches Ok(next) && ask_pages(next@, pages)
                }
            }
        }),
{
    if results.len() != queries.len() {
        return Err(OsvError::CountMismatch);
    }
    let mut next: Vec<OsvQuery> = Vec::new();
    let ghost before = references@;
    let mut i: usize = 0;
    while i < queries.len()
        invariant
            i <= queries@.len() == results@.len(),
            references.wf(),
            references@ == noted_results(before, results@, i as int),
            ask_pages(next@, going_on(queries@, results@, i as int)),
        decreases queries@.len() - i,
    {
        note_references(references, &results[i].vulns);
        match &results[i].next_page_token {
            Some(token) => {
                next.push(
                    OsvQuery {
                        name: queries[i].name.clone(),
                        version: queries[i].version.clone(),
                        page_token: Some(token.clone()),
                    },
                );
            },
            None => {},
        }
        i += 1;
    }
    if next.len() > 0 && round + 1 >= MAX_PAGINATION_ROUNDS {
        return Err(OsvError::TooManyPages);
    }
    Ok(next)
}

/// The members of an advisory that are kept as evidence.
pub open spec fn advisory_keys() -> Seq<Seq<char>> {
    seq![
        "id"@,
        "summary"@,
        "details"@,
        "aliases"@,
        "severity"@,
        "affected"@,
        "database_specific"@,
        "references"@,
        "published"@,
        "modified"@,
    ]
}

/// What is kept of an advisory: all of it or nothing.
pub fn bounded_advisory_content(detail: &str) -> (r: Result<String, OsvError>)
    ensures
        match crate::json::json_selection(detail@, advisory_keys()) {
            Err(words) => r matches Err(error) && (error matches OsvError::Syntax(w) && w@ == words),
            Ok(content) => if crate::strings::byte_count(content) > MAX_ADVISORY_CONTENT_BYTES {
                r matches Err(error) && error is ContentTooLarge
            } else {
                r matches Ok(text) && text@ == content
            },
        },
{
    let keys = [
        "id",
        "summary",
        "details",
        "aliases",
        "severity",
        "affected",
        "database_specific",
        "references",
        "published",
        "modified",
    ];
    assert(crate::strings::str_views(keys@) =~= advisory_keys());
    match select_json(detail, &keys) {
        Err(words) => Err(OsvError::Syntax(words)),
        Ok(content) => admit_content(content),
    }
}

/// Refuses the evidence of an advisory that is too large; it is never shortened.
pub fn admit_content(content: String) -> (r: Result<String, OsvError>)
    ensures
        if crate::strings::byte_count(content@) > MAX_ADVISORY_CONTENT_BYTES {
            r matches Err(error) && error is ContentTooLarge
        } else {
            r matches Ok(text) && text@ == content@
        },
{
    if byte_len(content.as_str()) > MAX_ADVISORY_CONTENT_BYTES {
        Err(OsvError::ContentTooLarge)
    } else {
        Ok(content)
    }
}

/// The advisory and its aliases that the queries found too, with their dates of change.
pub open spec fn related(
    references: Map<Seq<char>, Seq<char>>,
    id: Seq<char>,
    modified: Seq<char>,
    aliases: Seq<Seq<char>>,
) -> Map<Seq<char>, Seq<char>>
    decreases aliases.len(),
{
    if aliases.len() == 0 {
        Map::<Seq<char>, Seq<char>>::empty().insert(id, modified)
    } else {
        let rest = related(references, id, modified, aliases.drop_last());
        let alias = aliases.last();
        if references.dom().contains(alias) {
            rest.insert(alias, references[alias])
        } else {
            rest
        }
    }
}

/// The first alias that the queries found too and whose name is not valid.
pub open spec fn bad_alias(
    references: Map<Seq<char>, Seq<char>>,
    aliases: Seq<Seq<char>>,
    n: int,
) -> Option<Seq<char>>
    decreases n,
{
    if n <= 0 {
        None
    } else {
        match bad_alias(references, aliases, n - 1) {
            Some(alias) => Some(alias),
            None => if references.dom().contains(aliases[n - 1]) && !is_valid_id(aliases[n - 1]) {
                Some(aliases[n - 1])
            } else {
                None
            },
        }
    }
}

proof fn lemma_bad_alias(
    references: Map<Seq<char>, Seq<char>>,
    aliases: Seq<Seq<char>>,
    i: int,
    n: int,
)
    requires
        0 <= i <= n,
        bad_alias(references, aliases, i) is Some,
    ensures
        bad_alias(references, aliases, n) == bad_alias(references, aliases, i),
    decreases n - i,
{
    if i < n {
        lemma_bad_alias(references, aliases, i, n - 1);
    }
}

fn relate(references: &TextTable, id: &str, modified: &str, aliases: &Vec<String>) -> (r: Result<
    TextTable,
    OsvError,
>)
    requires
        references.wf(),
    ensures
        ({
            let names = crate::strings::views(aliases@);
            match bad_alias(references@, names, names.len() as int) {
                Some(alias) => r matches Err(error) && (error matches OsvError::InvalidId(bad)
                    && bad@ == alias),
                None => r matches Ok(table) && table.wf() && table@ == related(
                    references@,
                    id@,
                    modified@,
                    names,
                ),
            }
        }),
{
    let mut table = TextTable::new();
    table.put(owned(id), owned(modified));
    let ghost names = crate::strings::views(aliases@);
    let mut i: usize = 0;
    assert(names.take(0) =~= Seq::empty());
    while i < aliases.len()
        invariant
            i <= aliases@.len(),
            names == crate::strings::views(aliases@),
            references.wf(),
            table.wf(),
            table@ == related(references@, id@, modified@, names.take(i as int)),
            bad_alias(references@, names, i as int) is None,
        decreases aliases@.len() - i,
    {
        assert(names.take(i + 1).drop_last() =~= names.take(i as int));
        assert(names.take(i + 1).last() == aliases@[i as int]@);
        match references.get(aliases[i].as_str()) {
            Some(alias_modified) => {
                match validate_osv_id(aliases[i].as_str()) {
                    Err(error) => {
                        proof {
                            lemma_bad_alias(references@, names, i + 1, names.len() as int);
                        }
                        return Err(error);
                    },
                    Ok(()) => {},
                }
                table.put(aliases[i].clone(), owned(alias_modified));
            },
            None => {},
        }
        i += 1;
    }
    assert(names.take(names.len() as int) =~= names);
    Ok(table)
}

/// `cursors` list a table in the order of its keys.
pub open spec fn list_table(cursors: Seq<OsvAdvisoryCursor>, m: Map<Seq<char>, Seq<char>>) -> bool {
    &&& forall|i: int, j: int|
        0 <= i < j < cursors.len() ==> (#[trigger] cursors[i]).id@ != (#[trigger] cursors[j]).id@
            && crate::order::le(cursors[i].id@, cursors[j].id@)
    &&& forall|i: int|
        0 <= i < cursors.len() ==> m.dom().contains((#[trigger] cursors[i]).id@)
            && m[cursors[i].id@] == cursors[i].modified@
    &&& forall|k: Seq<char>| #[trigger]
        m.dom().contains(k) ==> exists|i: int| 0 <= i < cursors.len() && (#[trigger] cursors[i]).id@ == k
}

fn cursors_of(table: &TextTable) -> (r: Vec<OsvAdvisoryCursor>)
    requires
        table.wf(),
    ensures
        list_table(r@, table@),
{
    let mut out: Vec<OsvAdvisoryCursor> = Vec::new();
    let mut i: usize = 0;
    while i < table.entries.len()
        invariant
            i <= table.entries@.len(),
            table.wf(),
            out@.len() == i,
            forall|k: int|
                0 <= k < i ==> (#[trigger] out@[k]).id@ == table.entries@[k].key@
                    && out@[k].modified@ == table.entries@[k].value@,
        decreases table.entries@.len() - i,
    {
        out.push(
            OsvAdvisoryCursor {
                id: table.entries[i].key.clone(),
                modified: table.entries[i].value.clone(),
            },
        );
        i += 1;
    }
    proof {
        assert forall|a: int, b: int| 0 <= a < b < out@.len() implies (#[trigger] out@[a]).id@ != (
        #[trigger] out@[b]).id@ && crate::order::le(out@[a].id@, out@[b].id@) by {
            assert(table.entries@[a].key@ != table.entries@[b].key@);
        }
        assert forall|a: int| 0 <= a < out@.len() implies table@.dom().contains(
            (#[trigger] out@[a]).id@,
        ) && table@[out@[a].id@] == out@[a].modified@ by {
            table.lemma_at(a);
        }
        assert forall|k: Seq<char>| #[trigger] table@.dom().contains(k) implies exists|a: int|
            0 <= a < out@.len() && (#[trigger] out@[a]).id@ == k by {
            crate::table::lemma_value_of(table.entries@, k);
            let a = choose|a: int|
                0 <= a < table.entries@.len() && (#[trigger] table.entries@[a]).key@ == k
                    && crate::table::value_of(table.entries@, k) == Some(table.entries@[a].value@);
            assert(out@[a].id@ == k);
        }
    }
    out
}

/// The summary of an advisory, or words that say that it has none.
pub open spec fn summary_or_default(summary: Option<Seq<char>>) -> Seq<char> {
    match summary {
        Some(s) => if crate::strings::trimmed(s).len() > 0 {
            s
        } else {
            "OSV 公告未提供摘要"@
        },
        None => "OSV 公告未提供摘要"@,
    }
}

pub open spec fn is_advisory_signal(
    signal: OsvAdvisorySignal,
    references: Map<Seq<char>, Seq<char>>,
    id: Seq<char>,
    modified: Seq<char>,
    aliases: Seq<Seq<char>>,
    summary: Option<Seq<char>>,
    content: Seq<char>,
) -> bool {
    &&& signal.id@ == id
    &&& signal.modified@ == modified
    &&& list_table(signal.related_ids@, related(references, id, modified, aliases))
    &&& signal.summary@ == id + ": "@ + summary_or_default(summary)
    &&& signal.reference@ == "https://osv.dev/vulnerability/"@ + id
    &&& signal.content@ == content
}

/// The signal for an advisory whose parts are known.
pub fn advisory_signal(
    references: &TextTable,
    id: &str,
    modified: &str,
    aliases: &Vec<String>,
    summary: &Option<String>,
    content: String,
) -> (r: Result<OsvAdvisorySignal, OsvError>)
    requires
        references.wf(),
    ensures
        ({
            let names = crate::strings::views(aliases@);
            match bad_alias(references@, names, names.len() as int) {
                Some(alias) => r matches Err(error) && (error matches OsvError::InvalidId(bad)
                    && bad@ == alias),
                None => r matches Ok(signal) && is_advisory_signal(
                    signal,
                    references@,
                    id@,
                    modified@,
                    names,
                    crate::strings::opt_view(*summary),
                    content@,
                ),
            }
        }),
{
    let table = match relate(references, id, modified, aliases) {
        Ok(table) => table,
        Err(error) => {
            return Err(error);
        },
    };
    let words = match summary {
        Some(s) => if !trim(s.as_str()).as_str().is_empty() {
            s.clone()
        } else {
            owned("OSV 公告未提供摘要")
        },
        None => owned("OSV 公告未提供摘要"),
    };
    Ok(
        OsvAdvisorySignal {
            id: owned(id),
            modified: owned(modified),
            related_ids: cursors_of(&table),
            summary: owned(id).concat(": ").concat(words.as_str()),
            reference: owned("https://osv.dev/vulnerability/").concat(id),
            content,
        },
    )
}

/// The aliases that an advisory lists.
pub open spec fn aliases_of(detail: Seq<char>) -> Result<Seq<Seq<char>>, Seq<char>> {
    match crate::json::json_texts(detail, "/aliases"@) {
        Ok(Some(list)) => Ok(crate::json::present(list)),
        Ok(None) => Ok(Seq::empty()),
        Err(words) => Err(words),
    }
}

/// The scan of the advisories that the queries found, in the order of their identifiers.
pub struct OsvScan {
    pub references: TextTable,
    /// The first advisory that was not looked at.
    pub position: usize,
    /// The identifiers that an earlier advisory spoke for.
    pub grouped: Vec<String>,
    pub advisories: Vec<OsvAdvisorySignal>,
}

impl OsvScan {
    pub open spec fn wf(self) -> bool {
        self.references.wf() && self.position <= self.references.entries@.len()
    }

    pub open spec fn is_grouped(self, i: int) -> bool {
        crate::strings::views(self.grouped@).contains(self.references.entries@[i].key@)
    }

    pub fn new(references: TextTable) -> (r: OsvScan)
        requires
            references.wf(),
        ensures
            r.wf(),
            r.references == references,
            r.position == 0,
            r.grouped@.len() == 0,
            r.advisories@.len() == 0,
    {
        OsvScan { references, position: 0, grouped: Vec::new(), advisories: Vec::new() }
    }

    /// Goes to the next advisory that no earlier one spoke for.
    pub fn next_advisory(&mut self) -> (r: Result<Option<(String, String)>, OsvError>)
        requires
            old(self).wf(),
        ensures
            final(self).wf(),
            final(self).references == old(self).references,
            final(self).grouped == old(self).grouped,
            final(self).advisories == old(self).advisories,
            old(self).position <= final(self).position,
            forall|i: int|
                old(self).position <= i < final(self).position ==> #[trigger] old(self).is_grouped(i),
            ({
                let entries = old(self).references.entries@;
                let p = final(self).position as int;
                if p == entries.len() {
                    r == Ok::<Option<(String, String)>, OsvError>(None)
                } else {
                    &&& !old(self).is_grouped(p)
                    &&& match r {
                        Ok(found) => is_valid_id(entries[p].key@) && (found matches Some(pair)
                            && pair.0@ == entries[p].key@ && pair.1@ == entries[p].value@),
                        Err(error) => !is_valid_id(entries[p].key@) && (error
                            matches OsvError::InvalidId(bad) && bad@ == entries[p].key@),
                    }
                }
            }),
    {
        while self.position < self.references.entries.len() && is_in(
            self.references.entries[self.position].key.as_str(),
            &self.grouped,
        )
            invariant
                self.wf(),
                self.references == old(self).references,
                self.grouped == old(self).grouped,
                self.advisories == old(self).advisories,
                old(self).position <= self.position,
                forall|i: int|
                    old(self).position <= i < self.position ==> #[trigger] old(self).is_grouped(i),
            decreases self.references.entries@.len() - self.position,
        {
            assert(old(self).is_grouped(self.position as int));
            self.position = self.position + 1;
        }
        if self.position >= self.references.entries.len() {
            return Ok(None);
        }
        let entry = &self.references.entries[self.position];
        match validate_osv_id(entry.key.as_str()) {
            Ok(()) => Ok(Some((entry.key.clone(), entry.value.clone()))),
            Err(error) => Err(error),
        }
    }

    /// Passes over the current advisory.
    pub fn skip(&mut self)
        requires
            old(self).wf(),
            old(self).position < old(self).references.entries@.len(),
        ensures
            final(self).wf(),
            final(self).position == old(self).position + 1,
            final(self).references == old(self).references,
            final(self).grouped == old(self).grouped,
            final(self).advisories == old(self).advisories,
    {
        if self.position < self.references.entries.len() {
            self.position = self.position + 1;
        }
    }

    /// Takes the text of the current advisory, and lets it speak for its aliases.
    pub fn accept(&mut self, detail: &str) -> (r: Result<(), OsvError>)
        requires
            old(self).wf(),
            old(self).position < old(self).references.entries@.len(),
        ensures
            final(self).wf(),
            final(self).references == old(self).references,
            ({
                let entry = old(self).references.entries@[old(self).position as int];
                let aliases = aliases_of(detail@);
                let summary = crate::json::json_text(detail@, "/summary"@);
                let content = crate::json::json_selection(detail@, advisory_keys());
                &&& r is Ok <==> (aliases is Ok && summary is Ok && content is Ok && bad_alias(
                    old(self).references@,
                    aliases->Ok_0,
                    aliases->Ok_0.len() as int,
                ) is None && crate::strings::byte_count(content->Ok_0)
                    <= MAX_ADVISORY_CONTENT_BYTES)
                &&& r is Ok ==> {
                    &&& final(self).position == old(self).position + 1
                    &&& final(self).advisories@.len() == old(self).advisories@.len() + 1
                    &&& final(self).advisories@.drop_last() == old(self).advisories@
                    &&& is_advisory_signal(
                        final(self).advisories@.last(),
                        old(self).references@,
                        entry.key@,
                        entry.value@,
                        aliases->Ok_0,
                        summary->Ok_0,
                        content->Ok_0,
                    )
                    &&& crate::strings::views(final(self).grouped@) == crate::strings::views(
                        old(self).grouped@,
                    ) + cursor_ids(final(self).advisories@.last().related_ids@)
                }
                &&& r matches Err(error) ==> *final(self) == *old(self) && (match aliases {
                    Err(words) => error matches OsvError::Syntax(w) && w@ == words,
                    Ok(names) => match summary {
                        Err(words) => error matches OsvError::Syntax(w) && w@ == words,
                        Ok(_) => match bad_alias(old(self).references@, names, names.len() as int) {
                            Some(alias) => error matches OsvError::InvalidId(bad) && bad@ == alias,
                            None => match content {
                                Err(words) => error matches OsvError::Syntax(w) && w@ == words,
                                Ok(_) => error is ContentTooLarge,
                            },
                        },
                    },
                })
            }),
    {
        let aliases = match read_json_texts(detail, "/aliases") {
            Ok(Some(list)) => present_texts(&list),
            Ok(None) => Vec::new(),
            Err(words) => {
                return Err(OsvError::Syntax(words));
            },
        };
        assert(aliases_of(detail@) == Ok::<Seq<Seq<char>>, Seq<char>>(
            crate::strings::views(aliases@),
        )) by {
            if crate::json::json_texts(detail@, "/aliases"@)->Ok_0 is None {
                assert(crate::strings::views(aliases@) =~= Seq::empty());
            }
        }
        let summary = match read_json_text(detail, "/summary") {
            Ok(found) => found,
            Err(words) => {
                return Err(OsvError::Syntax(words));
            },
        };
        let entry = &self.references.entries[self.position];
        match relate(&self.references, entry.key.as_str(), entry.value.as_str(), &aliases) {
            Ok(_) => {},
            Err(error) => {
                return Err(error);
            },
        }
        let content = match bounded_advisory_content(detail) {
            Ok(content) => content,
            Err(error) => {
                return Err(error);
            },
        };
        let signal = match advisory_signal(
            &self.references,
            entry.key.as_str(),
            entry.value.as_str(),
            &aliases,
            &summary,
            content,
        ) {
            Ok(signal) => signal,
            Err(error) => {
                return Err(error);
            },
        };
        let ghost before = crate::strings::views(self.grouped@);
        let mut i: usize = 0;
        while i < signal.related_ids.len()
            invariant
                i <= signal.related_ids@.len(),
                self.references == old(self).references,
                self.position == old(self).position,
                self.advisories == old(self).advisories,
                crate::strings::views(self.grouped@) =~= before + cursor_ids(
                    signal.related_ids@,
                ).take(i as int),
            decreases signal.related_ids@.len() - i,
        {
            let id = signal.related_ids[i].id.clone();
            assert(id@ == cursor_ids(signal.related_ids@)[i as int]);
            push_string(&mut self.grouped, id);
            i += 1;
        }
        assert(cursor_ids(signal.related_ids@).take(signal.related_ids@.len() as int)
            =~= cursor_ids(signal.related_ids@));
        self.advisories.push(signal);
        assert(self.advisories@.drop_last() =~= old(self).advisories@);
        self.skip();
        Ok(())
    }
}

pub open spec fn cursor_ids(cursors: Seq<OsvAdvisoryCursor>) -> Seq<Seq<char>> {
    Seq::new(cursors.len(), |i: int| cursors[i].id@)
}

/// An advisory is looked at unless it was completed in this very version.
pub fn osv_advisory_needs_processing(stored: &Option<(String, String)>, modified: &str) -> (r: bool)
    ensures
        r == !(stored matches Some(pair) && pair.0@ == modified@ && pair.1@ == "completed"@),
{
    match stored {
        Some(pair) => !(same(pair.0.as_str(), modified) && same(pair.1.as_str(), "completed")),
        None => true,
    }
}

/// Whether the response to a request may be read: it succeeded and does not announce too many bytes.
pub fn read_bounded_json(status: &str, ok: bool, announced: Option<u64>, max_bytes: u64) -> (r:
    Result<(), OsvError>)
    ensures
        if !ok {
            r matches Err(error) && (error matches OsvError::Status(s) && s@ == status@)
        } else if announced matches Some(n) && n > max_bytes {
            r matches Err(error) && (error matches OsvError::TooLarge(limit) && limit == max_bytes)
        } else {
            r is Ok
        },
{
    if !ok {
        return Err(OsvError::Status(owned(status)));
    }
    match announced {
        Some(n) => if n > max_bytes {
            Err(OsvError::TooLarge(max_bytes))
        } else {
            Ok(())
        },
        None => Ok(()),
    }
}

/// No package is asked for twice.
pub proof fn law_each_package_is_asked_once(packages: Seq<ReachablePackage>)
    ensures
        to_ask(packages).no_duplicates(),
        forall|i: int|
            0 <= i < packages.len() && is_public((#[trigger] packages[i]).source@) ==> to_ask(
                packages,
            ).contains((packages[i].name@, packages[i].version@)),
    decreases packages.len(),
{
    if packages.len() > 0 {
        let rest = packages.drop_last();
        law_each_package_is_asked_once(rest);
        let old_list = to_ask(rest);
        let list = to_ask(packages);
        assert forall|i: int| 0 <= i < packages.len() && is_public(
            (#[trigger] packages[i]).source@,
        ) implies list.contains((packages[i].name@, packages[i].version@)) by {
            if i < rest.len() {
                assert(packages[i] == rest[i]);
                let k = choose|k: int|
                    0 <= k < old_list.len() && old_list[k] == (
                        packages[i].name@,
                        packages[i].version@,
                    );
                assert(list[k] == old_list[k]);
            } else if list.len() > old_list.len() {
                assert(list[old_list.len() as int] == (packages[i].name@, packages[i].version@));
            }
        }
    }
}

} // verus!
