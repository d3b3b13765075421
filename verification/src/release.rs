//! Release tags: which exist, which comes next, and how one is pushed.
use crate::command::CommandOutput;
use crate::config::ReleaseConfig;
use crate::strings::{
    list_of, owned, parse_u64, split_lines, split_words, strip_prefix, to_chars, trim, u64_to_string,
};
use crate::table::TextTable;
use vstd::prelude::*;

verus! {

pub const MAX_TAG_PUSH_ATTEMPTS: usize = 3;

/// The number of a tag: what follows the prefix, where it spells a `u64`.
pub open spec fn tag_number(prefix: Seq<char>, tag: Seq<char>) -> Option<nat> {
    if crate::strings::starts(tag, prefix) {
        match crate::strings::parsed(tag.skip(prefix.len() as int)) {
            Some(n) => if n <= u64::MAX {
                Some(n)
            } else {
                None
            },
            None => None,
        }
    } else {
        None
    }
}

/// The number that comes after those of the tags; 0 where none has one.
pub open spec fn next_number(prefix: Seq<char>, tags: Seq<Seq<char>>) -> nat
    decreases tags.len(),
{
    if tags.len() == 0 {
        0
    } else {
        let rest = next_number(prefix, tags.drop_last());
        match tag_number(prefix, tags.last()) {
            Some(n) => if n == u64::MAX {
                u64::MAX as nat
            } else if n + 1 > rest {
                n + 1
            } else {
                rest
            },
            None => rest,
        }
    }
}

/// The tag that comes after the given ones.
pub open spec fn next_tag(prefix: Seq<char>, tags: Seq<Seq<char>>) -> Seq<char> {
    prefix + crate::strings::decimal(next_number(prefix, tags))
}

fn number_of(prefix: &str, tag: &str) -> (r: Option<u64>)
    ensures
        match r {
            Some(n) => tag_number(prefix@, tag@) == Some(n as nat),
            None => tag_number(prefix@, tag@) is None,
        },
{
    match strip_prefix(tag, prefix) {
        Some(rest) => {
            proof {
                crate::protection::issue::lemma_strip(tag@, prefix@, rest@);
            }
            parse_u64(rest.as_str())
        },
        None => None,
    }
}

/// The tag that comes after the given ones: one more than the highest number, or 0.
pub fn next_release_tag(prefix: &str, tags: &[&str]) -> (r: String)
    ensures
        r@ == next_tag(prefix@, crate::strings::str_views(tags@)),
{
    let mut next: u64 = 0;
    let ghost all = crate::strings::str_views(tags@);
    let mut i: usize = 0;
    assert(all.take(0) =~= Seq::empty());
    while i < tags.len()
        invariant
            i <= tags@.len(),
            all == crate::strings::str_views(tags@),
            next == next_number(prefix@, all.take(i as int)),
        decreases tags@.len() - i,
    {
        assert(all.take(i + 1).drop_last() =~= all.take(i as int));
        assert(all.take(i + 1).last() == tags@[i as int]@);
        match number_of(prefix, tags[i]) {
            Some(n) => {
                if n == u64::MAX {
                    next = u64::MAX;
                } else if n + 1 > next {
                    next = n + 1;
                }
            },
            None => {},
        }
        i += 1;
    }
    assert(all.take(all.len() as int) =~= all);
    owned(prefix).concat(u64_to_string(next).as_str())
}

pub proof fn lemma_decimal_roundtrip(n: nat)
    ensures
        crate::strings::decimal(n).len() > 0,
        crate::strings::all_digits(crate::strings::decimal(n)),
        crate::strings::decimal_value(crate::strings::decimal(n)) == n,
        crate::strings::parsed(crate::strings::decimal(n)) == Some(n),
    decreases n,
{
    let d = crate::strings::decimal(n);
    if n < 10 {
        assert(d.drop_last() =~= Seq::empty());
        assert(crate::strings::decimal_value(d.drop_last()) == 0);
    } else {
        lemma_decimal_roundtrip(n / 10);
        let head = crate::strings::decimal(n / 10);
        assert(d.drop_last() =~= head);
        assert forall|i: int| 0 <= i < d.len() implies crate::strings::is_digit(d[i]) by {
            if i < head.len() {
                assert(d[i] == head[i]);
            }
        }
    }
    assert(crate::strings::is_digit(d[0]));
}

proof fn lemma_next_covers(prefix: Seq<char>, tags: Seq<Seq<char>>, i: int)
    requires
        0 <= i < tags.len(),
    ensures
        tag_number(prefix, tags[i]) matches Some(n) ==> next_number(prefix, tags) > n || (
        next_number(prefix, tags) == u64::MAX),
        next_number(prefix, tags) <= u64::MAX,
    decreases tags.len(),
{
    lemma_next_bounded(prefix, tags.drop_last());
    if i < tags.len() - 1 {
        lemma_next_covers(prefix, tags.drop_last(), i);
        assert(tags.drop_last()[i] == tags[i]);
    }
}

proof fn lemma_next_bounded(prefix: Seq<char>, tags: Seq<Seq<char>>)
    ensures
        next_number(prefix, tags) <= u64::MAX,
    decreases tags.len(),
{
    if tags.len() > 0 {
        lemma_next_bounded(prefix, tags.drop_last());
    }
}

/// The next tag is a new one, until the numbers are used up.
pub proof fn law_next_tag_is_new(prefix: Seq<char>, tags: Seq<Seq<char>>)
    requires
        next_number(prefix, tags) < u64::MAX,
    ensures
        !tags.contains(next_tag(prefix, tags)),
{
    let n = next_number(prefix, tags);
    let tag = next_tag(prefix, tags);
    lemma_decimal_roundtrip(n);
    if tags.contains(tag) {
        let i = choose|i: int| 0 <= i < tags.len() && tags[i] == tag;
        lemma_next_covers(prefix, tags, i);
        assert(tag.subrange(0, prefix.len() as int) =~= prefix);
        assert(tag.skip(prefix.len() as int) =~= crate::strings::decimal(n));
        assert(tag_number(prefix, tag) == Some(n));
    }
}

/// `n` is one more than the highest number of the tags, or 0 where none has one.
pub open spec fn is_next_number(prefix: Seq<char>, tags: Set<Seq<char>>, n: nat) -> bool {
    &&& forall|t: Seq<char>|
        #[trigger] tags.contains(t) ==> match tag_number(prefix, t) {
            Some(m) => m < n || n == u64::MAX,
            None => true,
        }
    &&& n > 0 ==> exists|t: Seq<char>|
        #[trigger] tags.contains(t) && match tag_number(prefix, t) {
            Some(m) => if m == u64::MAX { n == u64::MAX } else { n == m + 1 },
            None => false,
        }
}

/// `tag` is the one that comes after the tags.
pub open spec fn is_next_tag(prefix: Seq<char>, tags: Set<Seq<char>>, tag: Seq<char>) -> bool {
    exists|n: nat|
        is_next_number(prefix, tags, n) && tag == prefix + #[trigger] crate::strings::decimal(n)
}

proof fn lemma_next_number(prefix: Seq<char>, tags: Seq<Seq<char>>)
    ensures
        is_next_number(prefix, tags.to_set(), next_number(prefix, tags)),
    decreases tags.len(),
{
    let n = next_number(prefix, tags);
    if tags.len() > 0 {
        let rest = tags.drop_last();
        lemma_next_number(prefix, rest);
        lemma_next_bounded(prefix, rest);
        assert forall|t: Seq<char>| #[trigger] tags.to_set().contains(t) implies match tag_number(
            prefix,
            t,
        ) {
            Some(m) => m < n || n == u64::MAX,
            None => true,
        } by {
            let i = choose|i: int| 0 <= i < tags.len() && tags[i] == t;
            lemma_next_covers(prefix, tags, i);
        }
        if n > 0 {
            if n == next_number(prefix, rest) && !(tag_number(prefix, tags.last()) == Some(
                u64::MAX as nat,
            )) {
                let t = choose|t: Seq<char>|
                    #[trigger] rest.to_set().contains(t) && match tag_number(prefix, t) {
                        Some(m) => if m == u64::MAX { n == u64::MAX } else { n == m + 1 },
                        None => false,
                    };
                let i = choose|i: int| 0 <= i < rest.len() && rest[i] == t;
                assert(tags[i] == t);
                assert(tags.to_set().contains(t));
            } else {
                assert(tags[tags.len() - 1] == tags.last());
                assert(tags.to_set().contains(tags.last()));
            }
        }
    }
}

/// The commit and the tag that a line of the remote's listing names, and whether it is the commit
/// that an annotated tag points to.
pub open spec fn listed(line: Seq<char>) -> Option<(Seq<char>, Seq<char>, bool)> {
    let fields = crate::strings::words(line);
    if fields.len() < 2 {
        None
    } else {
        let reference = if crate::strings::starts(fields[1], "refs/tags/"@) {
            fields[1].skip("refs/tags/"@.len() as int)
        } else {
            fields[1]
        };
        if crate::strings::ends(reference, "^{}"@) {
            Some((fields[0], reference.take(reference.len() - 3), true))
        } else {
            Some((fields[0], reference, false))
        }
    }
}

/// The tags with the prefix and their commits, read from the first lines of the listing.
pub open spec fn tags_in(prefix: Seq<char>, lines: Seq<Seq<char>>) -> Map<Seq<char>, Seq<char>>
    decreases lines.len(),
{
    if lines.len() == 0 {
        Map::empty()
    } else {
        let rest = tags_in(prefix, lines.drop_last());
        match listed(lines.last()) {
            Some((commit, tag, peeled)) => if tag_number(prefix, tag) is Some && (peeled
                || !rest.dom().contains(tag)) {
                rest.insert(tag, commit)
            } else {
                rest
            },
            None => rest,
        }
    }
}

fn read_line(line: &str) -> (r: Option<(String, String, bool)>)
    ensures
        match r {
            Some((commit, tag, peeled)) => listed(line@) == Some((commit@, tag@, peeled)),
            None => listed(line@) is None,
        },
{
    let fields = split_words(line);
    let ghost all = crate::strings::words(line@);
    if fields.len() < 2 {
        return None;
    }
    assert(fields@[0]@ == all[0] && fields@[1]@ == all[1]);
    let reference = match strip_prefix(fields[1].as_str(), "refs/tags/") {
        Some(rest) => {
            proof {
                crate::protection::issue::lemma_strip(all[1], "refs/tags/"@, rest@);
            }
            rest
        },
        None => fields[1].clone(),
    };
    proof {
        reveal_strlit("^{}");
    }
    if crate::strings::ends_with(reference.as_str(), "^{}") {
        let v = to_chars(reference.as_str());
        let tag = crate::strings::from_range(&v, 0, v.len() - 3);
        assert(tag@ =~= reference@.take(reference@.len() - 3));
        Some((fields[0].clone(), tag, true))
    } else {
        Some((fields[0].clone(), reference, false))
    }
}

/// Reads the tags with the prefix from the remote's listing.
pub fn remote_release_tags(prefix: &str, listing: &str) -> (r: TextTable)
    ensures
        r.wf(),
        r@ == tags_in(prefix@, crate::strings::lines(listing@)),
{
    let lines = split_lines(listing);
    let ghost all = crate::strings::views(lines@);
    let mut table = TextTable::new();
    let mut i: usize = 0;
    assert(all.take(0) =~= Seq::empty());
    while i < lines.len()
        invariant
            i <= lines@.len(),
            all == crate::strings::views(lines@),
            table.wf(),
            table@ == tags_in(prefix@, all.take(i as int)),
        decreases lines@.len() - i,
    {
        assert(all.take(i + 1).drop_last() =~= all.take(i as int));
        assert(all.take(i + 1).last() == lines@[i as int]@);
        match read_line(lines[i].as_str()) {
            Some((commit, tag, peeled)) => {
                if number_of(prefix, tag.as_str()).is_some() && (peeled || table.get(
                    tag.as_str(),
                ).is_none()) {
                    table.put(tag, commit);
                }
            },
            None => {},
        }
        i += 1;
    }
    assert(all.take(all.len() as int) =~= all);
    table
}

/// What the caller is to do next.
#[derive(Debug)]
pub enum ReleaseAction {
    /// Run git with these arguments and hand the output back.
    Run(Vec<String>),
    /// Nothing is left to do: the tag that was published, if one was.
    Done(Option<String>),
    Fail(String),
}

/// What an action is.
#[verifier::ext_equal]
pub enum Doing {
    Run(Seq<Seq<char>>),
    Done(Option<Seq<char>>),
    Fail(Seq<char>),
}

impl View for ReleaseAction {
    type V = Doing;

    open spec fn view(&self) -> Doing {
        match *self {
            ReleaseAction::Run(args) => Doing::Run(crate::strings::views(args@)),
            ReleaseAction::Done(tag) => Doing::Done(crate::strings::opt_view(tag)),
            ReleaseAction::Fail(words) => Doing::Fail(words@),
        }
    }
}

/// What a release waits for.
#[derive(Debug, Clone, Copy, PartialEq, Eq, Structural)]
pub enum ReleaseStage {
    /// Whether the prefix makes a tag.
    Format,
    /// The commit to be tagged.
    Head,
    /// The tags of the remote.
    List,
    /// The push of the tag.
    Push,
    /// The tags of the remote after a push that failed.
    Relist,
    Over,
}

/// The publication of a tag for the current commit.
#[derive(Debug)]
pub struct ReleaseRun {
    pub stage: ReleaseStage,
    pub remote: String,
    pub prefix: String,
    pub head: String,
    pub tag: String,
    /// What git said when the tag could not be pushed.
    pub push_error: String,
    pub attempts: usize,
}

/// The call that lists the tags of the remote.
pub open spec fn list_args(remote: Seq<char>, prefix: Seq<char>) -> Seq<Seq<char>> {
    seq!["ls-remote"@, "--tags"@, remote, "refs/tags/"@ + prefix + "*"@]
}

fn list_call(remote: &str, prefix: &str) -> (r: ReleaseAction)
    ensures
        r@ == Doing::Run(list_args(remote@, prefix@)),
{
    let pattern = owned("refs/tags/").concat(prefix).concat("*");
    let args = ["ls-remote", "--tags", remote, pattern.as_str()];
    assert(crate::strings::str_views(args@) =~= list_args(remote@, prefix@));
    ReleaseAction::Run(list_of(&args))
}

/// Begins to publish a tag for the current commit. Nothing is done where releases are off.
pub fn ensure_release_tag(remote: &str, config: &ReleaseConfig) -> (r: (ReleaseRun, ReleaseAction))
    ensures
        ({
            let prefix = crate::strings::trimmed(config.tag_prefix@);
            &&& r.0.remote@ == remote@
            &&& r.0.prefix@ == prefix
            &&& r.0.head@.len() == 0
            &&& r.0.tag@.len() == 0
            &&& r.0.push_error@.len() == 0
            &&& r.0.attempts == 0
            &&& if !config.enabled {
                r.0.stage is Over && r.1@ == Doing::Done(None)
            } else if prefix.len() == 0 {
                r.0.stage is Over && r.1@ == Doing::Fail("release.tag_prefix 不能为空"@)
            } else {
                r.0.stage is Format && r.1@ == Doing::Run(
                    seq!["check-ref-format"@, "refs/tags/"@ + prefix + "0"@],
                )
            }
        }),
{
    let prefix = trim(config.tag_prefix.as_str());
    let (stage, action) = if !config.enabled {
        (ReleaseStage::Over, ReleaseAction::Done(None))
    } else {
        match validate_tag_prefix(prefix.as_str()) {
            Ok(args) => (ReleaseStage::Format, ReleaseAction::Run(args)),
            Err(words) => (ReleaseStage::Over, ReleaseAction::Fail(words)),
        }
    };
    (
        ReleaseRun {
            stage,
            remote: owned(remote),
            prefix,
            head: String::new(),
            tag: String::new(),
            push_error: String::new(),
            attempts: 0,
        },
        action,
    )
}

/// The call that checks whether a prefix makes a tag.
pub fn validate_tag_prefix(prefix: &str) -> (r: Result<Vec<String>, String>)
    ensures
        match r {
            Ok(args) => prefix@.len() > 0 && crate::strings::views(args@) == seq![
                "check-ref-format"@,
                "refs/tags/"@ + prefix@ + "0"@,
            ],
            Err(words) => prefix@.len() == 0 && words@ == "release.tag_prefix 不能为空"@,
        },
{
    if prefix.is_empty() {
        return Err(owned("release.tag_prefix 不能为空"));
    }
    let reference = owned("refs/tags/").concat(prefix).concat("0");
    let args = ["check-ref-format", reference.as_str()];
    assert(crate::strings::str_views(args@) =~= seq![
        "check-ref-format"@,
        "refs/tags/"@ + prefix@ + "0"@,
    ]);
    Ok(list_of(&args))
}

/// What was run and what came back: the arguments after the step are `doing`, the state is `next`.
pub open spec fn release_step(
    run: ReleaseRun,
    output: CommandOutput,
    next: ReleaseRun,
    doing: Doing,
) -> bool {
    let kept = next.remote == run.remote && next.prefix == run.prefix;
    let trimmed_out = crate::strings::trimmed(output.stdout@);
    let trimmed_err = crate::strings::trimmed(output.stderr@);
    let tags = tags_in(run.prefix@, crate::strings::lines(output.stdout@));
    &&& kept
    &&& match run.stage {
        ReleaseStage::Format => if output.ok() {
            next.stage is Head && next.attempts == run.attempts && doing == Doing::Run(
                seq!["rev-parse"@, "HEAD"@],
            )
        } else {
            next.stage is Over && doing == Doing::Fail(
                "release.tag_prefix 不是有效的 Git 标签前缀："@ + run.prefix@,
            )
        },
        ReleaseStage::Head => next.stage is List && next.attempts == run.attempts && next.head@
            == trimmed_out && doing == Doing::Run(list_args(run.remote@, run.prefix@)),
        ReleaseStage::List => if !output.ok() {
            next.stage is Over && doing == Doing::Fail("读取远端发布标签失败："@ + trimmed_err)
        } else if exists|k: Seq<char>| #[trigger] tags.dom().contains(k) && tags[k] == run.head@ {
            next.stage is Over && doing == Doing::Done(None)
        } else {
            &&& next.stage is Push
            &&& next.attempts == run.attempts
            &&& next.head == run.head
            &&& is_next_tag(run.prefix@, tags.dom(), next.tag@)
            &&& doing == Doing::Run(
                seq!["push"@, run.remote@, "HEAD:refs/tags/"@ + next.tag@],
            )
        },
        ReleaseStage::Push => if output.ok() {
            next.stage is Over && doing == Doing::Done(Some(run.tag@))
        } else {
            next.stage is Relist && next.attempts == run.attempts && next.head == run.head
                && next.tag == run.tag && next.push_error@ == trimmed_err && doing == Doing::Run(
                list_args(run.remote@, run.prefix@),
            )
        },
        ReleaseStage::Relist => if !output.ok() {
            next.stage is Over && doing == Doing::Fail("读取远端发布标签失败："@ + trimmed_err)
        } else if !tags.dom().contains(run.tag@) {
            next.stage is Over && doing == Doing::Fail(
                "发布标签 "@ + run.tag@ + " 失败："@ + run.push_error@,
            )
        } else if run.attempts + 1 >= MAX_TAG_PUSH_ATTEMPTS {
            next.stage is Over && doing == Doing::Fail(
                "发布标签失败：远端标签在重试期间持续变化"@,
            )
        } else {
            next.stage is List && next.attempts == run.attempts + 1 && next.head == run.head
                && doing == Doing::Run(list_args(run.remote@, run.prefix@))
        },
        ReleaseStage::Over => next.stage is Over && doing == Doing::Done(None),
    }
}

fn slices(list: &Vec<String>) -> (r: Vec<&str>)
    ensures
        crate::strings::str_views(r@) == crate::strings::views(list@),
{
    let mut out: Vec<&str> = Vec::new();
    let mut i: usize = 0;
    while i < list.len()
        invariant
            i <= list@.len(),
            crate::strings::str_views(out@) =~= crate::strings::views(list@).take(i as int),
        decreases list@.len() - i,
    {
        let ghost before = out@;
        out.push(list[i].as_str());
        assert(crate::strings::str_views(out@) =~= crate::strings::str_views(before).push(
            list@[i as int]@,
        ));
        i += 1;
    }
    assert(crate::strings::str_views(out@) =~= crate::strings::views(list@));
    out
}

impl ReleaseRun {
    fn fail(&mut self, words: String) -> (r: ReleaseAction)
        ensures
            r@ == Doing::Fail(words@),
            final(self).stage is Over,
            final(self).remote == old(self).remote,
            final(self).prefix == old(self).prefix,
    {
        self.stage = ReleaseStage::Over;
        ReleaseAction::Fail(words)
    }

    /// Takes the output of the git call that was asked for, and says what comes next.
    pub fn step(&mut self, output: &CommandOutput) -> (r: ReleaseAction)
        requires
            old(self).attempts < MAX_TAG_PUSH_ATTEMPTS,
        ensures
            release_step(*old(self), *output, *final(self), r@),
            final(self).stage is Over || final(self).attempts < MAX_TAG_PUSH_ATTEMPTS,
    {
        match self.stage {
            ReleaseStage::Format => {
                if output.success() {
                    self.stage = ReleaseStage::Head;
                    let args = ["rev-parse", "HEAD"];
                    assert(crate::strings::str_views(args@) =~= seq!["rev-parse"@, "HEAD"@]);
                    ReleaseAction::Run(list_of(&args))
                } else {
                    let words = owned("release.tag_prefix 不是有效的 Git 标签前缀：").concat(
                        self.prefix.as_str(),
                    );
                    self.fail(words)
                }
            },
            ReleaseStage::Head => {
                self.head = trim(output.stdout.as_str());
                self.stage = ReleaseStage::List;
                list_call(self.remote.as_str(), self.prefix.as_str())
            },
            ReleaseStage::List => {
                if !output.success() {
                    let words = owned("读取远端发布标签失败：").concat(
                        trim(output.stderr.as_str()).as_str(),
                    );
                    return self.fail(words);
                }
                let tags = remote_release_tags(self.prefix.as_str(), output.stdout.as_str());
                if tags.has_value(self.head.as_str()) {
                    self.stage = ReleaseStage::Over;
                    return ReleaseAction::Done(None);
                }
                let keys = tags.key_list();
                let tag = next_release_tag(self.prefix.as_str(), slices(&keys).as_slice());
                proof {
                    lemma_next_number(self.prefix@, tags.keys());
                    tags.lemma_keys();
                    assert(tags.keys().to_set() =~= tags@.dom());
                    assert(tag@ == self.prefix@ + crate::strings::decimal(
                        next_number(self.prefix@, tags.keys()),
                    ));
                }
                let refspec = owned("HEAD:refs/tags/").concat(tag.as_str());
                let args = ["push", self.remote.as_str(), refspec.as_str()];
                assert(crate::strings::str_views(args@) =~= seq![
                    "push"@,
                    self.remote@,
                    "HEAD:refs/tags/"@ + tag@,
                ]);
                let call = list_of(&args);
                self.tag = tag;
                self.stage = ReleaseStage::Push;
                ReleaseAction::Run(call)
            },
            ReleaseStage::Push => {
                if output.success() {
                    self.stage = ReleaseStage::Over;
                    ReleaseAction::Done(Some(self.tag.clone()))
                } else {
                    self.push_error = trim(output.stderr.as_str());
                    self.stage = ReleaseStage::Relist;
                    list_call(self.remote.as_str(), self.prefix.as_str())
                }
            },
            ReleaseStage::Relist => {
                if !output.success() {
                    let words = owned("读取远端发布标签失败：").concat(
                        trim(output.stderr.as_str()).as_str(),
                    );
                    return self.fail(words);
                }
                let tags = remote_release_tags(self.prefix.as_str(), output.stdout.as_str());
                if tags.get(self.tag.as_str()).is_none() {
                    let words = owned("发布标签 ").concat(self.tag.as_str()).concat(
                        " 失败：",
                    ).concat(self.push_error.as_str());
                    return self.fail(words);
                }
                if self.attempts + 1 >= MAX_TAG_PUSH_ATTEMPTS {
                    return self.fail(owned("发布标签失败：远端标签在重试期间持续变化"));
                }
                self.attempts = self.attempts + 1;
                self.stage = ReleaseStage::List;
                list_call(self.remote.as_str(), self.prefix.as_str())
            },
            ReleaseStage::Over => ReleaseAction::Done(None),
        }
    }
}

/// A tag is pushed only where the remote has none for the commit, and it is one that the remote
/// does not have, until the numbers are used up.
pub proof fn law_pushed_tag_is_new(
    run: ReleaseRun,
    output: CommandOutput,
    next: ReleaseRun,
    doing: Doing,
)
    requires
        release_step(run, output, next, doing),
        run.stage is List,
        next.stage is Push,
    ensures
        ({
            let tags = tags_in(run.prefix@, crate::strings::lines(output.stdout@));
            &&& forall|k: Seq<char>| #[trigger] tags.dom().contains(k) ==> tags[k] != run.head@
            &&& !tags.dom().contains(next.tag@) || next.tag@ == run.prefix@ + crate::strings::decimal(
                u64::MAX as nat,
            )
        }),
{
    let tags = tags_in(run.prefix@, crate::strings::lines(output.stdout@));
    let n = choose|n: nat|
        is_next_number(run.prefix@, tags.dom(), n) && next.tag@ == run.prefix@
            + #[trigger] crate::strings::decimal(n);
    lemma_decimal_roundtrip(n);
    assert(next.tag@.subrange(0, run.prefix@.len() as int) =~= run.prefix@);
    assert(next.tag@.skip(run.prefix@.len() as int) =~= crate::strings::decimal(n));
    assert(n <= u64::MAX);
    if tags.dom().contains(next.tag@) && n < u64::MAX {
        assert(tag_number(run.prefix@, next.tag@) == Some(n));
    }
}

} // verus!
