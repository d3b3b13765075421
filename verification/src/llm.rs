//! Requests to the model and the reading of its answers.
use crate::config::{LlmConfig, LlmProvider};
use crate::conflict::{extract_conflict_blocks, ConflictBlock, ConflictResolution};
use crate::git::{shorten, ConflictFileContent, ConflictSnapshot, SyncPatchContext};
use crate::json::{list_json, option_json, quote};
use crate::prompts::{
    BRANCH_POLICY, CONFLICT_CONTEXT, CONFLICT_DIRECTION, CONFLICT_OPTIONS_FORMAT,
    CONFLICT_OPTIONS_SYSTEM_PROMPT, CONFLICT_PROPOSAL_FORMAT, CONFLICT_PROPOSAL_SYSTEM_PROMPT,
    DEFAULT_AUTO_RESOLVE_SYSTEM_PROMPT, DEFAULT_AUTO_RESOLVE_USER_PROMPT,
    DEFAULT_CONFLICT_SYSTEM_PROMPT, DEFAULT_CONFLICT_USER_PROMPT, DEFAULT_SYNC_SUMMARY_SYSTEM_PROMPT,
    DEFAULT_SYNC_SUMMARY_USER_PROMPT, JSON_REPAIR, SECURITY_REVIEW_SYSTEM_PROMPT,
    SECURITY_VERIFIER_SYSTEM_PROMPT,
};
use crate::protection::model::{
    FixContract, SecurityContractVerificationDecision, SecurityReviewDecision,
};
use crate::strings::{
    byte_len, chars_find_from, contains, ends_with, from_range, join_with, owned, push_string, replace,
    same, starts_with, strip_prefix, to_chars, to_lower, trim, trim_end_char, usize_to_string,
};
use crate::text::is_blank;
use vstd::prelude::*;

pub use crate::conflict::ResolvedFile;

verus! {

#[derive(Debug, Clone)]
pub struct SecurityReviewRequest {
    pub project: String,
    pub project_description: String,
    pub profiles: Vec<String>,
    pub commit: String,
    pub patch: String,
}

#[derive(Debug, Clone)]
pub struct SecurityContractVerificationRequest {
    pub project: String,
    pub commit: String,
    pub contract: FixContract,
    pub final_patch: String,
    pub test_commands: Vec<String>,
    pub test_output: String,
}

#[derive(Debug, Clone)]
pub struct ConflictAnalysisRequest {
    pub branch: String,
    pub base: String,
    pub branch_note: Option<String>,
    pub patch_context: SyncPatchContext,
    pub snapshot: ConflictSnapshot,
}

#[derive(Debug, Clone)]
pub struct AutoResolveConflictRequest {
    pub branch: String,
    pub base: String,
    pub branch_note: Option<String>,
    pub patch_context: SyncPatchContext,
    pub snapshot: ConflictSnapshot,
    pub files: Vec<ConflictFileContent>,
}

#[derive(Debug, Clone)]
pub struct AutoResolveDecision {
    pub risk: String,
    pub summary: String,
    pub resolutions: Vec<ConflictResolution>,
}

#[derive(Debug, Clone)]
pub struct ConflictOption {
    pub id: String,
    pub title: String,
    pub description: String,
    pub tradeoffs: String,
}

#[derive(Debug, Clone)]
pub struct ConflictOptionsDecision {
    pub classification: String,
    pub summary: String,
    pub options: Vec<ConflictOption>,
}

#[derive(Debug, Clone)]
pub struct ConflictProposal {
    pub summary: String,
    pub files: Vec<ResolvedFile>,
}

#[derive(Debug, Clone)]
pub struct ConflictResolutionProposal {
    pub summary: String,
    pub resolutions: Vec<ConflictResolution>,
}

/// The two messages of a request.
#[derive(Debug, Clone)]
pub struct Prompt {
    pub system: String,
    pub user: String,
}

/// Builds the requests. Without a configuration, or where it is switched off, nothing is asked.
pub struct LlmService {
    pub config: Option<LlmConfig>,
}

/// Pairs of names and texts.
pub open spec fn pairs(values: Seq<(&'static str, String)>) -> Seq<(Seq<char>, Seq<char>)> {
    Seq::new(values.len(), |i: int| (values[i].0@, values[i].1@))
}

/// `template` with the text of each name in the place of the name in braces, one name after the
/// other.
pub open spec fn filled_in(template: Seq<char>, values: Seq<(Seq<char>, Seq<char>)>) -> Seq<char>
    decreases values.len(),
{
    if values.len() == 0 {
        template
    } else {
        crate::strings::replaced(
            filled_in(template, values.drop_last()),
            "{"@ + values.last().0 + "}"@,
            values.last().1,
        )
    }
}

/// The filled-in template, cut at `max` bytes.
pub open spec fn rendered(template: Seq<char>, values: Seq<(Seq<char>, Seq<char>)>, max: nat) -> Seq<
    char,
> {
    crate::git::shortened(
        filled_in(template, values),
        max,
        "\n... prompt truncated by TermiteRS ...\n"@,
    )
}

pub fn render_template(template: &str, values: &Vec<(&'static str, String)>, max_bytes: usize) -> (r:
    String)
    ensures
        r@ == rendered(template@, pairs(values@), max_bytes as nat),
{
    let mut prompt = owned(template);
    let ghost all = pairs(values@);
    let mut i: usize = 0;
    assert(all.take(0) =~= Seq::empty());
    while i < values.len()
        invariant
            i <= values@.len(),
            all == pairs(values@),
            prompt@ == filled_in(template@, all.take(i as int)),
        decreases values@.len() - i,
    {
        assert(all.take(i + 1).drop_last() =~= all.take(i as int));
        let name = owned("{").concat(values[i].0).concat("}");
        proof {
            reveal_strlit("{");
        }
        prompt = replace(prompt.as_str(), name.as_str(), values[i].1.as_str());
        i += 1;
    }
    assert(all.take(all.len() as int) =~= all);
    shorten(prompt.as_str(), max_bytes, "\n... prompt truncated by TermiteRS ...\n")
}

/// A text, or another one where there is none.
pub open spec fn text_or(s: Option<String>, other: Seq<char>) -> Seq<char> {
    match s {
        Some(s) => s@,
        None => other,
    }
}

/// A text, or another one where there is none.
pub fn or_text(s: &Option<String>, other: &str) -> (r: String)
    ensures
        r@ == text_or(*s, other@),
{
    match s {
        Some(s) => s.clone(),
        None => owned(other),
    }
}

/// What the model is told of the branch and the commit in conflict.
pub open spec fn sync_context(note: Option<String>, context: SyncPatchContext) -> Seq<char> {
    let head = "Branch maintenance note:\n"@ + text_or(note, "none"@) + "\n\nConflict semantics:\n"@
        + CONFLICT_DIRECTION@ + BRANCH_POLICY@ + "\nSync mode: "@ + (if context.mode@.len() == 0 {
        "unknown"@
    } else {
        context.mode@
    });
    if crate::strings::trimmed(context.current_patch@).len() == 0 {
        head
    } else {
        head + "\n\nCurrent patch being applied:\n"@ + context.current_patch@
    }
}

pub fn render_sync_context(branch_note: &Option<String>, patch_context: &SyncPatchContext) -> (r:
    String)
    ensures
        r@ == sync_context(*branch_note, *patch_context),
{
    let mut context = owned("Branch maintenance note:\n").concat(
        or_text(branch_note, "none").as_str(),
    ).concat("\n\nConflict semantics:\n").concat(CONFLICT_DIRECTION).concat(BRANCH_POLICY).concat(
        "\nSync mode: ",
    );
    proof {
        crate::text::lemma_no_bytes(patch_context.mode@);
    }
    if byte_len(patch_context.mode.as_str()) == 0 {
        context.append("unknown");
    } else {
        context.append(patch_context.mode.as_str());
    }
    if !is_blank(patch_context.current_patch.as_str()) {
        context.append("\n\nCurrent patch being applied:\n");
        context.append(patch_context.current_patch.as_str());
    }
    context
}

/// The difference below what is known of the branch.
pub open spec fn diff_in_context(context: Seq<char>, diff: Seq<char>) -> Seq<char> {
    context + "\n\nCombined diff:\n"@ + diff
}

pub fn render_combined_diff_with_context(sync_context: &str, combined_diff: &str) -> (r: String)
    ensures
        r@ == diff_in_context(sync_context@, combined_diff@),
{
    owned(sync_context).concat("\n\nCombined diff:\n").concat(combined_diff)
}

/// The texts that every request on a conflict can name.
pub open spec fn conflict_values(
    branch: Seq<char>,
    base: Seq<char>,
    note: Option<String>,
    context: SyncPatchContext,
    snapshot: ConflictSnapshot,
) -> Seq<(Seq<char>, Seq<char>)> {
    let sync_context = sync_context(note, context);
    seq![
        ("branch"@, branch),
        ("base"@, base),
        ("branch_note"@, text_or(note, "none"@)),
        ("sync_context"@, sync_context),
        ("conflict_files"@, crate::strings::join(snapshot@.files, "\n"@)),
        ("git_status"@, snapshot.status@),
        ("combined_diff"@, diff_in_context(sync_context, snapshot.combined_diff@)),
    ]
}

fn shared_values(
    branch: &String,
    base: &String,
    note: &Option<String>,
    context: &SyncPatchContext,
    snapshot: &ConflictSnapshot,
) -> (r: Vec<(&'static str, String)>)
    ensures
        pairs(r@) == conflict_values(branch@, base@, *note, *context, *snapshot),
{
    let about = render_sync_context(note, context);
    let diff = render_combined_diff_with_context(about.as_str(), snapshot.combined_diff.as_str());
    let mut values: Vec<(&'static str, String)> = Vec::new();
    values.push(("branch", branch.clone()));
    values.push(("base", base.clone()));
    values.push(("branch_note", or_text(note, "none")));
    values.push(("sync_context", about));
    values.push(("conflict_files", join_with(&snapshot.files, "\n")));
    values.push(("git_status", snapshot.status.clone()));
    values.push(("combined_diff", diff));
    assert(pairs(values@) =~= conflict_values(branch@, base@, *note, *context, *snapshot));
    values
}

impl ConflictAnalysisRequest {
    pub open spec fn values(self) -> Seq<(Seq<char>, Seq<char>)> {
        conflict_values(
            self.branch@,
            self.base@,
            self.branch_note,
            self.patch_context,
            self.snapshot,
        )
    }
}

pub fn conflict_template_values(request: &ConflictAnalysisRequest) -> (r: Vec<(&'static str, String)>)
    ensures
        pairs(r@) == request.values(),
{
    shared_values(
        &request.branch,
        &request.base,
        &request.branch_note,
        &request.patch_context,
        &request.snapshot,
    )
}

/// A member of a JSON object, on a line of its own.
pub open spec fn member_line(key: Seq<char>, value: Seq<char>) -> Seq<char> {
    "    \""@ + key + "\": "@ + value
}

/// The JSON object of a conflict, on several lines.
pub open spec fn block_json(block: ConflictBlock) -> Seq<char> {
    let members = seq![
        member_line("path"@, crate::json::json_quoted(block.path@)),
        member_line("id"@, crate::json::json_quoted(block.id@)),
        member_line("expected_sha256"@, crate::json::json_quoted(block.expected_sha256@)),
        member_line("before_context"@, crate::json::json_quoted(block.before_context@)),
        member_line("ours"@, crate::json::json_quoted(block.ours@)),
        member_line("base"@, crate::json::json_option(crate::strings::opt_view(block.base))),
        member_line("theirs"@, crate::json::json_quoted(block.theirs@)),
        member_line("after_context"@, crate::json::json_quoted(block.after_context@)),
    ];
    "  {\n"@ + crate::strings::join(members, ",\n"@) + "\n  }"@
}

/// The JSON array of conflicts, on several lines.
pub open spec fn blocks_json(blocks: Seq<ConflictBlock>) -> Seq<char> {
    "[\n"@ + crate::strings::join(Seq::new(blocks.len(), |i: int| block_json(blocks[i])), ",\n"@)
        + "\n]"@
}

fn member_text(key: &str, value: String) -> (r: String)
    ensures
        r@ == member_line(key@, value@),
{
    owned("    \"").concat(key).concat("\": ").concat(value.as_str())
}

fn block_text(block: &ConflictBlock) -> (r: String)
    ensures
        r@ == block_json(*block),
{
    let mut members: Vec<String> = Vec::new();
    members.push(member_text("path", quote(block.path.as_str())));
    members.push(member_text("id", quote(block.id.as_str())));
    members.push(member_text("expected_sha256", quote(block.expected_sha256.as_str())));
    members.push(member_text("before_context", quote(block.before_context.as_str())));
    members.push(member_text("ours", quote(block.ours.as_str())));
    members.push(member_text("base", option_json(&block.base)));
    members.push(member_text("theirs", quote(block.theirs.as_str())));
    members.push(member_text("after_context", quote(block.after_context.as_str())));
    assert(crate::strings::views(members@) =~= seq![
        member_line("path"@, crate::json::json_quoted(block.path@)),
        member_line("id"@, crate::json::json_quoted(block.id@)),
        member_line("expected_sha256"@, crate::json::json_quoted(block.expected_sha256@)),
        member_line("before_context"@, crate::json::json_quoted(block.before_context@)),
        member_line("ours"@, crate::json::json_quoted(block.ours@)),
        member_line("base"@, crate::json::json_option(crate::strings::opt_view(block.base))),
        member_line("theirs"@, crate::json::json_quoted(block.theirs@)),
        member_line("after_context"@, crate::json::json_quoted(block.after_context@)),
    ]);
    owned("  {\n").concat(join_with(&members, ",\n").as_str()).concat("\n  }")
}

fn blocks_text(blocks: &Vec<ConflictBlock>) -> (r: String)
    ensures
        r@ == blocks_json(blocks@),
{
    let mut texts: Vec<String> = Vec::new();
    let ghost all = Seq::new(blocks@.len(), |i: int| block_json(blocks@[i]));
    let mut i: usize = 0;
    assert(crate::strings::views(texts@) =~= all.take(0));
    while i < blocks.len()
        invariant
            i <= blocks@.len(),
            all == Seq::new(blocks@.len(), |i: int| block_json(blocks@[i])),
            crate::strings::views(texts@) == all.take(i as int),
        decreases blocks@.len() - i,
    {
        push_string(&mut texts, block_text(&blocks[i]));
        assert(crate::strings::views(texts@) =~= all.take(i + 1));
        i += 1;
    }
    assert(all.take(all.len() as int) =~= all);
    owned("[\n").concat(join_with(&texts, ",\n").as_str()).concat("\n]")
}

/// The conflicts of the files as the model is shown them: six lines on each side.
pub open spec fn shown_blocks(files: Seq<ConflictFileContent>, text: Seq<char>) -> bool {
    exists|blocks: Seq<ConflictBlock>| #[trigger]
        crate::conflict::are_blocks_of(blocks, files, 6) && text == blocks_json(blocks)
}

impl AutoResolveConflictRequest {
    /// The texts that the request can name, where `blocks` are its conflicts.
    pub open spec fn values(self, blocks: Seq<char>) -> Seq<(Seq<char>, Seq<char>)> {
        conflict_values(
            self.branch@,
            self.base@,
            self.branch_note,
            self.patch_context,
            self.snapshot,
        ).push(("conflict_blocks"@, blocks)).push(("file_contents"@, blocks))
    }

    /// Every file of the request can be read, and some file holds a conflict.
    pub open spec fn readable(self) -> bool {
        crate::conflict::first_faulty(self.files@, 0) is None && !crate::conflict::conflict_free(
            self.files@,
        )
    }

    /// What is said where the conflicts cannot be read.
    pub open spec fn unreadable_words(self) -> Seq<char> {
        match crate::conflict::first_faulty(self.files@, 0) {
            Some(fault) => fault.words(),
            None => crate::conflict::Fault::NoBlocks.words(),
        }
    }
}

/// The conflicts of the request take so many bytes, as the model is shown them.
pub open spec fn blocks_take(request: AutoResolveConflictRequest, bytes: nat) -> bool {
    exists|text: Seq<char>| #[trigger]
        shown_blocks(request.files@, text) && crate::strings::byte_count(text) == bytes
}

/// Where no file holds a conflict, none is at fault.
proof fn lemma_no_fault(files: Seq<ConflictFileContent>, i: int)
    requires
        crate::conflict::conflict_free(files),
        0 <= i,
    ensures
        crate::conflict::first_faulty(files, i) is None,
    decreases files.len() - i,
{
    if i < files.len() {
        assert(crate::conflict::spans(files[i].content@) is Ok);
        lemma_no_fault(files, i + 1);
    }
}

/// Lets a request through only where its conflicts, as the model is shown them, take no more than
/// `max_bytes`. How long the files are does not matter.
pub fn ensure_blocks_fit(request: &AutoResolveConflictRequest, max_bytes: usize) -> (r: Result<
    (),
    String,
>)
    ensures
        match r {
            Ok(()) => request.readable() && exists|n: nat|
                n <= max_bytes && #[trigger] blocks_take(*request, n),
            Err(words) => if request.readable() {
                &&& words@ == "conflict blocks exceed max_file_bytes"@
                &&& exists|n: nat| n > max_bytes && #[trigger] blocks_take(*request, n)
            } else {
                words@ == request.unreadable_words()
            },
        },
{
    match extract_conflict_blocks(request.files.as_slice(), 6) {
        Err(error) => {
            proof {
                if crate::conflict::conflict_free(request.files@) {
                    lemma_no_fault(request.files@, 0);
                }
            }
            Err(error.message())
        },
        Ok(blocks) => {
            let text = blocks_text(&blocks);
            assert(shown_blocks(request.files@, text@));
            assert(blocks_take(*request, crate::strings::byte_count(text@)));
            if byte_len(text.as_str()) > max_bytes {
                Err(owned("conflict blocks exceed max_file_bytes"))
            } else {
                Ok(())
            }
        },
    }
}

pub fn auto_resolve_template_values(request: &AutoResolveConflictRequest) -> (r: Result<
    Vec<(&'static str, String)>,
    String,
>)
    ensures
        match r {
            Ok(values) => request.readable() && exists|blocks: Seq<char>|
                shown_blocks(request.files@, blocks) && pairs(values@) == #[trigger] request.values(
                    blocks,
                ),
            Err(words) => !request.readable() && words@ == request.unreadable_words(),
        },
{
    let blocks = match extract_conflict_blocks(request.files.as_slice(), 6) {
        Err(error) => {
            proof {
                if crate::conflict::conflict_free(request.files@) {
                    lemma_no_fault(request.files@, 0);
                }
            }
            return Err(error.message());
        },
        Ok(blocks) => blocks_text(&blocks),
    };
    let mut values = shared_values(
        &request.branch,
        &request.base,
        &request.branch_note,
        &request.patch_context,
        &request.snapshot,
    );
    values.push(("conflict_blocks", blocks.clone()));
    values.push(("file_contents", blocks.clone()));
    assert(shown_blocks(request.files@, blocks@));
    assert(pairs(values@) =~= request.values(blocks@));
    Ok(values)
}

/// The first conflict whose digest the prompt does not hold.
pub open spec fn first_cut(prompt: Seq<char>, blocks: Seq<ConflictBlock>, i: int) -> Option<int>
    decreases blocks.len() - i,
{
    if i >= blocks.len() {
        None
    } else if !crate::strings::occurs(prompt, blocks[i].expected_sha256@) {
        Some(i)
    } else {
        first_cut(prompt, blocks, i + 1)
    }
}

/// The conflicts of the request, without lines around them.
pub open spec fn bare_blocks(request: AutoResolveConflictRequest, blocks: Seq<ConflictBlock>) -> bool {
    crate::conflict::are_blocks_of(blocks, request.files@, 0)
}

/// What is said of a conflict that the prompt does not hold.
pub open spec fn cut_words(block: ConflictBlock) -> Seq<char> {
    "conflict block was truncated from LLM prompt: "@ + block.path@ + " "@ + block.id@
}

/// The words with which a prompt is refused: a conflict cannot be read, or was cut off.
pub open spec fn prompt_refused(prompt: Seq<char>, request: AutoResolveConflictRequest, words: Seq<char>)
    -> bool {
    ||| !request.readable() && words == request.unreadable_words()
    ||| request.readable() && exists|blocks: Seq<ConflictBlock>| #[trigger]
        bare_blocks(request, blocks) && first_cut(prompt, blocks, 0) is Some && words == cut_words(
            blocks[first_cut(prompt, blocks, 0)->0],
        )
}

/// The prompt holds the digest of every conflict.
pub open spec fn prompt_whole(prompt: Seq<char>, request: AutoResolveConflictRequest) -> bool {
    request.readable() && exists|blocks: Seq<ConflictBlock>| #[trigger]
        bare_blocks(request, blocks) && first_cut(prompt, blocks, 0) is None
}

/// Refuses a prompt from which a conflict was cut off.
pub fn ensure_conflict_blocks_present(prompt: &str, request: &AutoResolveConflictRequest) -> (r: Result<
    (),
    String,
>)
    ensures
        match r {
            Ok(_) => prompt_whole(prompt@, *request),
            Err(words) => prompt_refused(prompt@, *request, words@),
        },
{
    let blocks = match extract_conflict_blocks(request.files.as_slice(), 0) {
        Err(error) => {
            proof {
                if crate::conflict::conflict_free(request.files@) {
                    lemma_no_fault(request.files@, 0);
                }
            }
            return Err(error.message());
        },
        Ok(blocks) => blocks,
    };
    assert(bare_blocks(*request, blocks@));
    let mut i: usize = 0;
    while i < blocks.len()
        invariant
            i <= blocks@.len(),
            first_cut(prompt@, blocks@, 0) == first_cut(prompt@, blocks@, i as int),
            bare_blocks(*request, blocks@),
            request.readable(),
        decreases blocks@.len() - i,
    {
        if !contains(prompt, blocks[i].expected_sha256.as_str()) {
            return Err(
                owned("conflict block was truncated from LLM prompt: ").concat(
                    blocks[i].path.as_str(),
                ).concat(" ").concat(blocks[i].id.as_str()),
            );
        }
        i += 1;
    }
    Ok(())
}

impl LlmService {
    pub fn new(config: Option<LlmConfig>) -> (r: LlmService)
        ensures
            r.config == config,
    {
        LlmService { config }
    }

    /// The model may be asked.
    pub open spec fn on(self) -> bool {
        self.config is Some && self.config->0.enabled
    }

    fn active(&self) -> (r: Option<&LlmConfig>)
        ensures
            match r {
                Some(config) => self.on() && *config == self.config->0,
                None => !self.on(),
            },
    {
        match &self.config {
            Some(config) => if config.enabled {
                Some(config)
            } else {
                None
            },
            None => None,
        }
    }

    /// The request for an explanation of a conflict.
    pub fn analyze_conflict(&self, request: &ConflictAnalysisRequest) -> (r: Option<Prompt>)
        ensures
            match r {
                Some(prompt) => {
                    let config = self.config->0;
                    &&& self.on()
                    &&& prompt.system@ == rendered(
                        text_or(config.prompts.conflict_system, DEFAULT_CONFLICT_SYSTEM_PROMPT@),
                        request.values(),
                        config.max_prompt_bytes as nat,
                    )
                    &&& prompt.user@ == rendered(
                        text_or(config.prompts.conflict_user, DEFAULT_CONFLICT_USER_PROMPT@),
                        request.values(),
                        config.max_prompt_bytes as nat,
                    )
                },
                None => !self.on(),
            },
    {
        match self.active() {
            None => None,
            Some(config) => {
                let values = conflict_template_values(request);
                let system = or_text(
                    &config.prompts.conflict_system,
                    DEFAULT_CONFLICT_SYSTEM_PROMPT,
                );
                Some(
                    Prompt {
                        system: render_template(system.as_str(), &values, config.max_prompt_bytes),
                        user: build_conflict_prompt(request, config),
                    },
                )
            },
        }
    }

    /// The request for a resolution of a conflict. It is not made where it would not hold every
    /// conflict whole.
    pub fn auto_resolve_conflict(&self, request: &AutoResolveConflictRequest) -> (r: Result<
        Option<Prompt>,
        String,
    >)
        ensures
            match r {
                Ok(None) => !self.on(),
                Ok(Some(prompt)) => {
                    let config = self.config->0;
                    &&& self.on()
                    &&& prompt_whole(prompt.user@, *request)
                    &&& exists|blocks: Seq<char>| #[trigger]
                        shown_blocks(request.files@, blocks) && self.auto_resolve_texts(
                            *request,
                            blocks,
                            prompt.system@,
                            prompt.user@,
                        )
                },
                Err(words) => {
                    &&& self.on()
                    &&& if request.readable() {
                        exists|blocks: Seq<char>, system: Seq<char>, user: Seq<char>|
                            shown_blocks(request.files@, blocks) && #[trigger] self.auto_resolve_texts(
                                *request,
                                blocks,
                                system,
                                user,
                            ) && prompt_refused(user, *request, words@)
                    } else {
                        words@ == request.unreadable_words()
                    }
                },
            },
    {
        let config = match self.active() {
            None => {
                return Ok(None);
            },
            Some(config) => config,
        };
        let values = match auto_resolve_template_values(request) {
            Err(words) => {
                return Err(words);
            },
            Ok(values) => values,
        };
        let ghost blocks = choose|blocks: Seq<char>|
            shown_blocks(request.files@, blocks) && pairs(values@) == #[trigger] request.values(blocks);
        let system_template = or_text(
            &config.prompts.auto_resolve_system,
            DEFAULT_AUTO_RESOLVE_SYSTEM_PROMPT,
        );
        let system = render_template(system_template.as_str(), &values, config.max_prompt_bytes);
        let user_template = or_text(
            &config.prompts.auto_resolve_user,
            DEFAULT_AUTO_RESOLVE_USER_PROMPT,
        );
        let user = render_template(user_template.as_str(), &values, config.max_prompt_bytes);
        assert(self.auto_resolve_texts(*request, blocks, system@, user@));
        match ensure_conflict_blocks_present(user.as_str(), request) {
            Err(words) => Err(words),
            Ok(()) => Ok(Some(Prompt { system, user })),
        }
    }

    /// The two messages of a request for a resolution, where `blocks` are the conflicts.
    pub open spec fn auto_resolve_texts(
        self,
        request: AutoResolveConflictRequest,
        blocks: Seq<char>,
        system: Seq<char>,
        user: Seq<char>,
    ) -> bool {
        let config = self.config->0;
        &&& system == rendered(
            text_or(config.prompts.auto_resolve_system, DEFAULT_AUTO_RESOLVE_SYSTEM_PROMPT@),
            request.values(blocks),
            config.max_prompt_bytes as nat,
        )
        &&& user == rendered(
            text_or(config.prompts.auto_resolve_user, DEFAULT_AUTO_RESOLVE_USER_PROMPT@),
            request.values(blocks),
            config.max_prompt_bytes as nat,
        )
    }

    /// The request for a summary of a report.
    pub fn summarize_sync_report(&self, report: &str) -> (r: Option<Prompt>)
        ensures
            match r {
                Some(prompt) => {
                    let config = self.config->0;
                    &&& self.on()
                    &&& prompt.system@ == rendered(
                        text_or(
                            config.prompts.sync_summary_system,
                            DEFAULT_SYNC_SUMMARY_SYSTEM_PROMPT@,
                        ),
                        seq![("report"@, report@)],
                        config.max_prompt_bytes as nat,
                    )
                    &&& prompt.user@ == rendered(
                        text_or(config.prompts.sync_summary_user, DEFAULT_SYNC_SUMMARY_USER_PROMPT@),
                        seq![("report"@, report@)],
                        config.max_prompt_bytes as nat,
                    )
                },
                None => !self.on(),
            },
    {
        match self.active() {
            None => None,
            Some(config) => {
                let values = sync_summary_template_values(report);
                let system = or_text(
                    &config.prompts.sync_summary_system,
                    DEFAULT_SYNC_SUMMARY_SYSTEM_PROMPT,
                );
                Some(
                    Prompt {
                        system: render_template(system.as_str(), &values, config.max_prompt_bytes),
                        user: build_sync_summary_prompt(report, config),
                    },
                )
            },
        }
    }

    /// The request for the security review of a commit. It is not made where it would have to be
    /// cut.
    pub fn review_security_change(&self, request: &SecurityReviewRequest) -> (r: Result<
        Option<Prompt>,
        String,
    >)
        ensures
            ({
                let user = review_text(*request);
                let max = self.config->0.max_prompt_bytes;
                match r {
                    Ok(None) => !self.on(),
                    Ok(Some(prompt)) => self.on() && crate::strings::byte_count(user) <= max
                        && prompt.system@ == SECURITY_REVIEW_SYSTEM_PROMPT@ && prompt.user@ == user,
                    Err(words) => self.on() && crate::strings::byte_count(user) > max && words@
                        == "安全审计证据超过 LLM 上下文上限，已拒绝截断后放行："@
                        + crate::strings::decimal(crate::strings::byte_count(user)) + " bytes > "@
                        + crate::strings::decimal(max as nat) + " bytes"@,
                }
            }),
    {
        let config = match self.active() {
            None => {
                return Ok(None);
            },
            Some(config) => config,
        };
        let user = owned("项目：").concat(request.project.as_str()).concat("\n项目安全意图：").concat(
            request.project_description.as_str(),
        ).concat("\n启用预设：").concat(join_with(&request.profiles, ",").as_str()).concat(
            "\n提交：",
        ).concat(request.commit.as_str()).concat(
            "\n\n<untrusted_evidence encoding=\"json-string\">\n",
        ).concat(quote(request.patch.as_str()).as_str()).concat("\n</untrusted_evidence>");
        let size: usize = byte_len(user.as_str());
        if size > config.max_prompt_bytes {
            return Err(
                owned("安全审计证据超过 LLM 上下文上限，已拒绝截断后放行：").concat(
                    usize_to_string(size).as_str(),
                ).concat(" bytes > ").concat(
                    usize_to_string(config.max_prompt_bytes).as_str(),
                ).concat(" bytes"),
            );
        }
        Ok(Some(Prompt { system: owned(SECURITY_REVIEW_SYSTEM_PROMPT), user }))
    }

    /// The request for an independent check of a fix. It is not made where it would have to be cut.
    pub fn verify_security_contract(&self, request: &SecurityContractVerificationRequest) -> (r: Result<
        Option<Prompt>,
        String,
    >)
        ensures
            ({
                let user = verification_text(*request);
                let max = self.config->0.max_prompt_bytes;
                match r {
                    Ok(None) => !self.on(),
                    Ok(Some(prompt)) => self.on() && crate::strings::byte_count(user) <= max
                        && prompt.system@ == SECURITY_VERIFIER_SYSTEM_PROMPT@ && prompt.user@ == user,
                    Err(words) => self.on() && crate::strings::byte_count(user) > max && words@
                        == "FixContract 验证证据超过 LLM 上下文上限，已失败关闭"@,
                }
            }),
    {
        let config = match self.active() {
            None => {
                return Ok(None);
            },
            Some(config) => config,
        };
        let user = owned("<untrusted_verification_evidence encoding=\"json\">\n").concat(
            evidence_text(request).as_str(),
        ).concat("\n</untrusted_verification_evidence>");
        if byte_len(user.as_str()) > config.max_prompt_bytes {
            return Err(owned("FixContract 验证证据超过 LLM 上下文上限，已失败关闭"));
        }
        Ok(Some(Prompt { system: owned(SECURITY_VERIFIER_SYSTEM_PROMPT), user }))
    }

    /// The request for ways out of a conflict. It is not made where it would not hold every conflict
    /// whole.
    pub fn conflict_options(&self, request: &AutoResolveConflictRequest, conversation: &str) -> (r:
        Result<Option<Prompt>, String>)
        ensures
            self.asked_on_conflict(
                *request,
                "\n\n对话与人工要求：\n"@ + conversation@ + CONFLICT_OPTIONS_FORMAT@,
                CONFLICT_OPTIONS_SYSTEM_PROMPT@,
                r,
            ),
    {
        let tail = owned("\n\n对话与人工要求：\n").concat(conversation).concat(CONFLICT_OPTIONS_FORMAT);
        self.ask_on_conflict(request, tail.as_str(), CONFLICT_OPTIONS_SYSTEM_PROMPT)
    }

    /// The request for the text of one way out of a conflict. It is not made where it would not hold
    /// every conflict whole.
    pub fn conflict_proposal(
        &self,
        request: &AutoResolveConflictRequest,
        conversation: &str,
        selected_option: &str,
        requirements: &str,
    ) -> (r: Result<Option<Prompt>, String>)
        ensures
            self.asked_on_conflict(
                *request,
                "\n\n对话记录：\n"@ + conversation@ + "\n\n选定方案：\n"@ + selected_option@
                    + "\n\n补充要求：\n"@ + requirements@ + CONFLICT_PROPOSAL_FORMAT@,
                CONFLICT_PROPOSAL_SYSTEM_PROMPT@,
                r,
            ),
    {
        let tail = owned("\n\n对话记录：\n").concat(conversation).concat("\n\n选定方案：\n").concat(
            selected_option,
        ).concat("\n\n补充要求：\n").concat(requirements).concat(CONFLICT_PROPOSAL_FORMAT);
        self.ask_on_conflict(request, tail.as_str(), CONFLICT_PROPOSAL_SYSTEM_PROMPT)
    }

    /// The request on a conflict: what is known of it, then `tail`.
    pub open spec fn conflict_text(
        self,
        request: AutoResolveConflictRequest,
        blocks: Seq<char>,
        tail: Seq<char>,
    ) -> Seq<char> {
        rendered(
            CONFLICT_CONTEXT@,
            request.values(blocks),
            self.config->0.max_prompt_bytes as nat,
        ) + tail
    }

    /// The request on a conflict is made, or is refused with the right words.
    pub open spec fn asked_on_conflict(
        self,
        request: AutoResolveConflictRequest,
        tail: Seq<char>,
        system: Seq<char>,
        r: Result<Option<Prompt>, String>,
    ) -> bool {
        match r {
            Ok(None) => !self.on(),
            Ok(Some(prompt)) => {
                &&& self.on()
                &&& prompt.system@ == system
                &&& prompt_whole(prompt.user@, request)
                &&& exists|blocks: Seq<char>|
                    shown_blocks(request.files@, blocks) && prompt.user@ == #[trigger] self.conflict_text(
                        request,
                        blocks,
                        tail,
                    )
            },
            Err(words) => {
                &&& self.on()
                &&& if request.readable() {
                    exists|blocks: Seq<char>|
                        shown_blocks(request.files@, blocks) && prompt_refused(
                            #[trigger] self.conflict_text(request, blocks, tail),
                            request,
                            words@,
                        )
                } else {
                    words@ == request.unreadable_words()
                }
            },
        }
    }

    fn ask_on_conflict(&self, request: &AutoResolveConflictRequest, tail: &str, system: &str) -> (r:
        Result<Option<Prompt>, String>)
        ensures
            self.asked_on_conflict(*request, tail@, system@, r),
    {
        let config = match self.active() {
            None => {
                return Ok(None);
            },
            Some(config) => config,
        };
        let values = match auto_resolve_template_values(request) {
            Err(words) => {
                return Err(words);
            },
            Ok(values) => values,
        };
        let ghost blocks = choose|blocks: Seq<char>|
            shown_blocks(request.files@, blocks) && pairs(values@) == #[trigger] request.values(blocks);
        let user = render_template(CONFLICT_CONTEXT, &values, config.max_prompt_bytes).concat(tail);
        assert(user@ == self.conflict_text(*request, blocks, tail@));
        match ensure_conflict_blocks_present(user.as_str(), request) {
            Err(words) => Err(words),
            Ok(()) => Ok(Some(Prompt { system: owned(system), user })),
        }
    }

    /// The request for an answer to the user.
    pub fn assistant_reply_streaming(&self, system_prompt: &str, user_prompt: &str) -> (r: Option<
        Prompt,
    >)
        ensures
            match r {
                Some(prompt) => self.on() && prompt.system@ == system_prompt@ && prompt.user@
                    == user_prompt@,
                None => !self.on(),
            },
    {
        match self.active() {
            None => None,
            Some(config) => Some(Prompt { system: owned(system_prompt), user: owned(user_prompt) }),
        }
    }
}

/// A decision offers between two and four ways out.
pub fn check_options(decision: &ConflictOptionsDecision) -> (r: Result<(), String>)
    ensures
        match r {
            Ok(_) => 2 <= decision.options@.len() <= 4,
            Err(words) => !(2 <= decision.options@.len() <= 4) && words@
                == "conflict options must contain 2 to 4 items"@,
        },
{
    if decision.options.len() < 2 || decision.options.len() > 4 {
        Err(owned("conflict options must contain 2 to 4 items"))
    } else {
        Ok(())
    }
}

/// The user message of a security review.
pub open spec fn review_text(request: SecurityReviewRequest) -> Seq<char> {
    "项目："@ + request.project@ + "\n项目安全意图："@ + request.project_description@ + "\n启用预设："@
        + crate::strings::join(crate::strings::views(request.profiles@), ","@) + "\n提交："@
        + request.commit@ + "\n\n<untrusted_evidence encoding=\"json-string\">\n"@
        + crate::json::json_quoted(request.patch@) + "\n</untrusted_evidence>"@
}

/// The JSON object of a contract, with its members in order of their names.
pub open spec fn contract_json(contract: FixContract) -> Seq<char> {
    "{\"attack_preconditions\":"@ + crate::json::json_list(
        crate::strings::views(contract.attack_preconditions@),
    ) + ",\"fixed_behavior\":"@ + crate::json::json_quoted(contract.fixed_behavior@)
        + ",\"regression_cases\":"@ + crate::json::json_list(
        crate::strings::views(contract.regression_cases@),
    ) + ",\"security_property\":"@ + crate::json::json_quoted(contract.security_property@)
        + ",\"vulnerable_behavior\":"@ + crate::json::json_quoted(contract.vulnerable_behavior@) + "}"@
}

/// The evidence for the check of a fix, as JSON with its members in order of their names.
pub open spec fn evidence_json(request: SecurityContractVerificationRequest) -> Seq<char> {
    "{\"commit\":"@ + crate::json::json_quoted(request.commit@) + ",\"final_candidate_patch\":"@
        + crate::json::json_quoted(request.final_patch@) + ",\"fix_contract\":"@ + contract_json(
        request.contract,
    ) + ",\"project\":"@ + crate::json::json_quoted(request.project@) + ",\"test_commands\":"@
        + crate::json::json_list(crate::strings::views(request.test_commands@))
        + ",\"test_output\":"@ + crate::json::json_quoted(request.test_output@) + "}"@
}

/// The user message of the check of a fix.
pub open spec fn verification_text(request: SecurityContractVerificationRequest) -> Seq<char> {
    "<untrusted_verification_evidence encoding=\"json\">\n"@ + evidence_json(request)
        + "\n</untrusted_verification_evidence>"@
}

fn contract_text(contract: &FixContract) -> (r: String)
    ensures
        r@ == contract_json(*contract),
{
    owned("{\"attack_preconditions\":").concat(
        list_json(&contract.attack_preconditions).as_str(),
    ).concat(",\"fixed_behavior\":").concat(quote(contract.fixed_behavior.as_str()).as_str()).concat(
        ",\"regression_cases\":",
    ).concat(list_json(&contract.regression_cases).as_str()).concat(",\"security_property\":").concat(
        quote(contract.security_property.as_str()).as_str(),
    ).concat(",\"vulnerable_behavior\":").concat(
        quote(contract.vulnerable_behavior.as_str()).as_str(),
    ).concat("}")
}

fn evidence_text(request: &SecurityContractVerificationRequest) -> (r: String)
    ensures
        r@ == evidence_json(*request),
{
    owned("{\"commit\":").concat(quote(request.commit.as_str()).as_str()).concat(
        ",\"final_candidate_patch\":",
    ).concat(quote(request.final_patch.as_str()).as_str()).concat(",\"fix_contract\":").concat(
        contract_text(&request.contract).as_str(),
    ).concat(",\"project\":").concat(quote(request.project.as_str()).as_str()).concat(
        ",\"test_commands\":",
    ).concat(list_json(&request.test_commands).as_str()).concat(",\"test_output\":").concat(
        quote(request.test_output.as_str()).as_str(),
    ).concat("}")
}

/// Why the answer to a security review is not accepted.
pub open spec fn review_fault(decision: SecurityReviewDecision) -> Option<Seq<char>> {
    if crate::strings::trimmed(decision.summary@).len() == 0 {
        Some("security review summary is empty"@)
    } else if crate::strings::trimmed(decision.mechanism@).len() == 0 {
        Some("security review mechanism is empty"@)
    } else if (decision.security_fix_detected || decision.introduced_risk) && decision.evidence@.len()
        == 0 {
        Some("security-related review must include concrete evidence"@)
    } else {
        match decision.fix_contract {
            None => None,
            Some(contract) => if !decision.security_fix_detected {
                Some("FixContract is only valid for a detected security fix"@)
            } else if crate::strings::trimmed(contract.security_property@).len() == 0
                || crate::strings::trimmed(contract.vulnerable_behavior@).len() == 0
                || crate::strings::trimmed(contract.fixed_behavior@).len() == 0
                || contract.regression_cases@.len() == 0 {
                Some("FixContract is incomplete"@)
            } else {
                None
            },
        }
    }
}

/// Accepts the answer to a security review, or says what is missing.
pub fn validate_security_review_decision(decision: &SecurityReviewDecision) -> (r: Result<(), String>)
    ensures
        match r {
            Ok(_) => review_fault(*decision) is None,
            Err(words) => review_fault(*decision) == Some(words@),
        },
{
    if is_blank(decision.summary.as_str()) {
        return Err(owned("security review summary is empty"));
    }
    if is_blank(decision.mechanism.as_str()) {
        return Err(owned("security review mechanism is empty"));
    }
    if (decision.security_fix_detected || decision.introduced_risk) && decision.evidence.len() == 0 {
        return Err(owned("security-related review must include concrete evidence"));
    }
    match &decision.fix_contract {
        None => {},
        Some(contract) => {
            if !decision.security_fix_detected {
                return Err(owned("FixContract is only valid for a detected security fix"));
            }
            if is_blank(contract.security_property.as_str()) || is_blank(
                contract.vulnerable_behavior.as_str(),
            ) || is_blank(contract.fixed_behavior.as_str()) || contract.regression_cases.len() == 0 {
                return Err(owned("FixContract is incomplete"));
            }
        },
    }
    Ok(())
}

/// Accepts the answer to the check of a fix, where it says something.
pub fn validate_contract_decision(decision: &SecurityContractVerificationDecision) -> (r: Result<
    (),
    String,
>)
    ensures
        match r {
            Ok(_) => crate::strings::trimmed(decision.summary@).len() > 0,
            Err(words) => crate::strings::trimmed(decision.summary@).len() == 0 && words@
                == "security contract verification summary is empty"@,
        },
{
    if is_blank(decision.summary.as_str()) {
        Err(owned("security contract verification summary is empty"))
    } else {
        Ok(())
    }
}

/// The address that a provider has where none is configured.
pub open spec fn provider_url(provider: LlmProvider) -> Option<Seq<char>> {
    match provider {
        LlmProvider::DeepSeek => Some("https://api.deepseek.com"@),
        LlmProvider::OpenAi => Some("https://api.openai.com/v1"@),
        LlmProvider::OpenAiCompatible | LlmProvider::Custom => None,
    }
}

pub open spec fn provider_text(provider: LlmProvider) -> Seq<char> {
    match provider {
        LlmProvider::DeepSeek => "DeepSeek"@,
        LlmProvider::OpenAi => "OpenAi"@,
        LlmProvider::OpenAiCompatible => "OpenAiCompatible"@,
        LlmProvider::Custom => "Custom"@,
    }
}

/// The address of the chat interface under the address of a provider.
pub open spec fn chat_url(base: Seq<char>) -> Seq<char> {
    let base = crate::strings::trim_back_char(base, '/');
    if crate::strings::ends(base, "/chat/completions"@) {
        base
    } else {
        base + "/chat/completions"@
    }
}

/// The configured address, else that of the provider.
pub open spec fn base_url(config: LlmConfig) -> Option<Seq<char>> {
    match config.base_url {
        Some(url) => Some(url@),
        None => provider_url(config.provider),
    }
}

pub fn chat_completions_endpoint(config: &LlmConfig) -> (r: Result<String, String>)
    ensures
        match r {
            Ok(url) => base_url(*config) is Some && url@ == chat_url(base_url(*config)->0),
            Err(words) => base_url(*config) is None && words@ == "base_url is required for provider "@
                + provider_text(config.provider),
        },
{
    let base = match &config.base_url {
        Some(url) => url.clone(),
        None => match config.provider {
            LlmProvider::DeepSeek => owned("https://api.deepseek.com"),
            LlmProvider::OpenAi => owned("https://api.openai.com/v1"),
            LlmProvider::OpenAiCompatible => {
                return Err(owned("base_url is required for provider ").concat("OpenAiCompatible"));
            },
            LlmProvider::Custom => {
                return Err(owned("base_url is required for provider ").concat("Custom"));
            },
        },
    };
    let base = trim_end_char(base.as_str(), '/');
    if ends_with(base.as_str(), "/chat/completions") {
        Ok(base)
    } else {
        Ok(base.concat("/chat/completions"))
    }
}

/// The message of an error and its causes in lower case, with bars between them.
pub open spec fn error_chain(causes: Seq<Seq<char>>) -> Seq<char> {
    crate::strings::join(Seq::new(causes.len(), |i: int| crate::strings::lower(causes[i])), " | "@)
}

/// The error may go away by itself.
pub open spec fn retryable(causes: Seq<Seq<char>>) -> bool {
    let message = error_chain(causes);
    crate::strings::occurs(message, "timed out"@) || crate::strings::occurs(message, "timeout"@)
        || crate::strings::occurs(message, "connection"@) || crate::strings::occurs(
        message,
        "server error"@,
    ) || crate::strings::occurs(message, "body"@)
}

/// Whether the error, given with its causes, may go away by itself.
pub fn is_retryable_llm_error(causes: &Vec<String>) -> (r: bool)
    ensures
        r == retryable(crate::strings::views(causes@)),
{
    let mut parts: Vec<String> = Vec::new();
    let ghost all = crate::strings::views(causes@);
    let ghost lowered = Seq::new(all.len(), |i: int| crate::strings::lower(all[i]));
    let mut i: usize = 0;
    assert(crate::strings::views(parts@) =~= lowered.take(0));
    while i < causes.len()
        invariant
            i <= causes@.len(),
            all == crate::strings::views(causes@),
            lowered == Seq::new(all.len(), |i: int| crate::strings::lower(all[i])),
            crate::strings::views(parts@) == lowered.take(i as int),
        decreases causes@.len() - i,
    {
        push_string(&mut parts, to_lower(causes[i].as_str()));
        assert(crate::strings::views(parts@) =~= lowered.take(i + 1));
        i += 1;
    }
    assert(lowered.take(lowered.len() as int) =~= lowered);
    let message = join_with(&parts, " | ");
    contains(message.as_str(), "timed out") || contains(message.as_str(), "timeout") || contains(
        message.as_str(),
        "connection",
    ) || contains(message.as_str(), "server error") || contains(message.as_str(), "body")
}

/// How many times a request is tried.
pub open spec fn attempts(config: LlmConfig) -> int {
    if config.max_retries == u32::MAX {
        u32::MAX as int
    } else {
        config.max_retries + 1
    }
}

/// How many seconds to wait before the next attempt after the failed attempt number `attempt`;
/// nothing where the error stands.
pub fn call_chat_retry(config: &LlmConfig, attempt: u32, causes: &Vec<String>) -> (r: Option<u64>)
    ensures
        r == (if attempt < attempts(*config) && retryable(crate::strings::views(causes@)) {
            Some(if attempt < 5 {
                attempt as u64
            } else {
                5
            })
        } else {
            None
        }),
{
    let limit: u32 = if config.max_retries == u32::MAX {
        u32::MAX
    } else {
        config.max_retries + 1
    };
    if attempt < limit && is_retryable_llm_error(causes) {
        Some(if attempt < 5 {
            attempt as u64
        } else {
            5
        })
    } else {
        None
    }
}

/// The longest time that a request may take.
pub fn request_timeout_seconds(config: &LlmConfig) -> (r: u64)
    ensures
        r == (if config.timeout_seconds < 1 {
            1
        } else {
            config.timeout_seconds
        }),
{
    if config.timeout_seconds < 1 {
        1
    } else {
        config.timeout_seconds
    }
}

/// The text at `choices[0].<part>.content` of a JSON document, as `serde_json` reads it; the words
/// of the parser where the text is no JSON.
pub uninterp spec fn choice_text(doc: Seq<char>, part: Seq<char>) -> Result<
    Option<Seq<char>>,
    Seq<char>,
>;

/// Parses with `serde_json::from_str` and reads by indexing a `serde_json::Value`, then with
/// `as_str`.
///
/// The result is a function of the arguments.
#[verifier::external_body]
fn read_choice(doc: &str, part: &str) -> (r: Result<Option<String>, String>)
    ensures
        match r {
            Ok(found) => choice_text(doc@, part@) == Ok::<Option<Seq<char>>, Seq<char>>(
                crate::strings::opt_view(found),
            ),
            Err(words) => choice_text(doc@, part@) == Err::<Option<Seq<char>>, Seq<char>>(words@),
        },
{
    let value: serde_json::Value = serde_json::from_str(doc).map_err(|e| e.to_string())?;
    Ok(value["choices"][0][part]["content"].as_str().map(str::to_owned))
}

/// The message of an answer, given what the answer holds in its place.
pub fn answer_of(found: Option<String>) -> (r: Result<String, String>)
    ensures
        match r {
            Ok(text) => found is Some && text@ == crate::strings::trimmed(found->0@),
            Err(words) => found is None && words@
                == "LLM response did not contain choices[0].message.content"@,
        },
{
    match found {
        Some(content) => Ok(trim(content.as_str())),
        None => Err(owned("LLM response did not contain choices[0].message.content")),
    }
}

/// The message of an answer.
pub fn read_answer(body: &str) -> (r: Result<String, String>)
    ensures
        match choice_text(body@, "message"@) {
            Err(_) => r is Err && r->Err_0@ == "failed to parse LLM response"@,
            Ok(None) => r is Err && r->Err_0@
                == "LLM response did not contain choices[0].message.content"@,
            Ok(Some(content)) => r is Ok && r->Ok_0@ == crate::strings::trimmed(content),
        },
{
    match read_choice(body, "message") {
        Err(_) => Err(owned("failed to parse LLM response")),
        Ok(found) => answer_of(found),
    }
}

/// What a line of a streamed answer means.
#[derive(Debug, Clone)]
pub enum StreamLine {
    /// The line is of no interest.
    Skip,
    /// The answer is complete.
    End,
    /// The document of a line of data.
    Data(String),
}

/// What a line of a streamed answer means.
#[verifier::ext_equal]
pub enum StreamPart {
    Skip,
    End,
    Data(Seq<char>),
}

impl View for StreamLine {
    type V = StreamPart;

    open spec fn view(&self) -> StreamPart {
        match *self {
            StreamLine::Skip => StreamPart::Skip,
            StreamLine::End => StreamPart::End,
            StreamLine::Data(text) => StreamPart::Data(text@),
        }
    }
}

/// `s` without any `data:` at its front.
pub open spec fn without_label(s: Seq<char>) -> Seq<char>
    decreases s.len(),
{
    if crate::strings::starts(s, "data:"@) && "data:"@.len() > 0 {
        without_label(s.skip("data:"@.len() as int))
    } else {
        s
    }
}

/// What a line of a streamed answer means.
pub open spec fn stream_part(line: Seq<char>) -> StreamPart {
    let line = crate::strings::trimmed(line);
    if line.len() == 0 || !crate::strings::starts(line, "data:"@) {
        StreamPart::Skip
    } else {
        let data = crate::strings::trimmed(without_label(line));
        if data == "[DONE]"@ {
            StreamPart::End
        } else {
            StreamPart::Data(data)
        }
    }
}

fn strip_labels(s: String) -> (r: String)
    ensures
        r@ == without_label(s@),
    decreases s@.len(),
{
    proof {
        reveal_strlit("data:");
    }
    match strip_prefix(s.as_str(), "data:") {
        None => s,
        Some(rest) => {
            assert(crate::strings::starts(s@, "data:"@)) by {
                assert(s@.subrange(0, 5) =~= "data:"@);
            }
            assert(s@.skip(5) =~= rest@);
            strip_labels(rest)
        },
    }
}

/// Reads a line of a streamed answer.
pub fn read_stream_line(line: &str) -> (r: StreamLine)
    ensures
        r@ == stream_part(line@),
{
    let line = trim(line);
    proof {
        reveal_strlit("data:");
    }
    if !starts_with(line.as_str(), "data:") {
        return StreamLine::Skip;
    }
    let data = trim(strip_labels(line).as_str());
    if same(data.as_str(), "[DONE]") {
        StreamLine::End
    } else {
        StreamLine::Data(data)
    }
}

/// The text that a piece of a streamed answer adds.
pub fn read_delta(data: &str) -> (r: Result<Option<String>, String>)
    ensures
        match choice_text(data@, "delta"@) {
            Err(_) => r is Err && r->Err_0@ == "failed to parse LLM stream"@,
            Ok(found) => r is Ok && crate::strings::opt_view(r->Ok_0) == found,
        },
{
    match read_choice(data, "delta") {
        Err(_) => Err(owned("failed to parse LLM stream")),
        Ok(found) => Ok(found),
    }
}

/// The bytes that have come and are no whole line yet.
#[derive(Debug, Clone)]
pub struct LineBuffer {
    pub pending: Vec<u8>,
}

/// The place of the first line feed.
pub open spec fn line_feed(bytes: Seq<u8>) -> Option<int>
    decreases bytes.len(),
{
    if bytes.len() == 0 {
        None
    } else if bytes[0] == 10 {
        Some(0)
    } else {
        match line_feed(bytes.drop_first()) {
            Some(i) => Some(i + 1),
            None => None,
        }
    }
}

proof fn lemma_line_feed(bytes: Seq<u8>, i: int)
    requires
        0 <= i <= bytes.len(),
        forall|k: int| 0 <= k < i ==> bytes[k] != 10,
    ensures
        i < bytes.len() && bytes[i] == 10 ==> line_feed(bytes) == Some(i),
        i == bytes.len() ==> line_feed(bytes) is None,
    decreases i,
{
    if i > 0 {
        assert forall|k: int| 0 <= k < i - 1 implies bytes.drop_first()[k] != 10 by {
            assert(bytes[k + 1] != 10);
        }
        assert(bytes[0] != 10);
        lemma_line_feed(bytes.drop_first(), i - 1);
    }
}

impl LineBuffer {
    pub fn new() -> (r: LineBuffer)
        ensures
            r.pending@ == Seq::<u8>::empty(),
    {
        LineBuffer { pending: Vec::new() }
    }

    /// Adds bytes.
    pub fn feed(&mut self, bytes: &Vec<u8>)
        ensures
            final(self).pending@ == old(self).pending@ + bytes@,
    {
        let ghost before = self.pending@;
        let mut i: usize = 0;
        assert(self.pending@ =~= before + bytes@.take(0));
        while i < bytes.len()
            invariant
                i <= bytes@.len(),
                self.pending@ == before + bytes@.take(i as int),
            decreases bytes@.len() - i,
        {
            self.pending.push(bytes[i]);
            assert(self.pending@ =~= before + bytes@.take(i + 1));
            i += 1;
        }
        assert(bytes@.take(bytes@.len() as int) =~= bytes@);
    }

    /// Takes the first whole line out, with the line feed at its end.
    pub fn next_line(&mut self) -> (r: Option<Vec<u8>>)
        ensures
            match r {
                Some(line) => line_feed(old(self).pending@) is Some && line@ == old(
                    self,
                ).pending@.take(line_feed(old(self).pending@)->0 + 1) && final(self).pending@ == old(
                    self,
                ).pending@.skip(line_feed(old(self).pending@)->0 + 1),
                None => line_feed(old(self).pending@) is None && *final(self) == *old(self),
            },
    {
        let mut i: usize = 0;
        while i < self.pending.len()
            invariant
                i <= self.pending@.len(),
                *self == *old(self),
                forall|k: int| 0 <= k < i ==> self.pending@[k] != 10,
            decreases self.pending@.len() - i,
        {
            if self.pending[i] == 10 {
                proof {
                    lemma_line_feed(self.pending@, i as int);
                }
                let ghost before = self.pending@;
                let mut line = self.pending.split_off(i + 1);
                std::mem::swap(&mut self.pending, &mut line);
                assert(line@ =~= before.take(i + 1));
                assert(self.pending@ =~= before.skip(i + 1));
                return Some(line);
            }
            i += 1;
        }
        proof {
            lemma_line_feed(self.pending@, i as int);
        }
        None
    }
}

pub fn build_conflict_prompt(request: &ConflictAnalysisRequest, config: &LlmConfig) -> (r: String)
    ensures
        r@ == rendered(
            text_or(config.prompts.conflict_user, DEFAULT_CONFLICT_USER_PROMPT@),
            request.values(),
            config.max_prompt_bytes as nat,
        ),
{
    let values = conflict_template_values(request);
    let template = or_text(&config.prompts.conflict_user, DEFAULT_CONFLICT_USER_PROMPT);
    render_template(template.as_str(), &values, config.max_prompt_bytes)
}

pub fn sync_summary_template_values(report: &str) -> (r: Vec<(&'static str, String)>)
    ensures
        pairs(r@) == seq![("report"@, report@)],
{
    let mut values: Vec<(&'static str, String)> = Vec::new();
    values.push(("report", owned(report)));
    assert(pairs(values@) =~= seq![("report"@, report@)]);
    values
}

pub fn build_sync_summary_prompt(report: &str, config: &LlmConfig) -> (r: String)
    ensures
        r@ == rendered(
            text_or(config.prompts.sync_summary_user, DEFAULT_SYNC_SUMMARY_USER_PROMPT@),
            seq![("report"@, report@)],
            config.max_prompt_bytes as nat,
        ),
{
    let values = sync_summary_template_values(report);
    let template = or_text(&config.prompts.sync_summary_user, DEFAULT_SYNC_SUMMARY_USER_PROMPT);
    render_template(template.as_str(), &values, config.max_prompt_bytes)
}

/// The request to answer again, in front of the first one.
pub fn build_json_repair_prompt(user_prompt: &str) -> (r: String)
    ensures
        r@ == JSON_REPAIR@ + user_prompt@,
{
    owned(JSON_REPAIR).concat(user_prompt)
}

/// The last place of a character.
pub open spec fn last_place(s: Seq<char>, c: char) -> Option<int>
    decreases s.len(),
{
    if s.len() == 0 {
        None
    } else if s.last() == c {
        Some(s.len() - 1)
    } else {
        last_place(s.drop_last(), c)
    }
}

fn find_last(s: &Vec<char>, c: char) -> (r: Option<usize>)
    ensures
        match r {
            Some(i) => last_place(s@, c) == Some(i as int) && i < s@.len(),
            None => last_place(s@, c) is None,
        },
{
    let mut n: usize = s.len();
    assert(s@.take(n as int) =~= s@);
    while n > 0
        invariant
            n <= s@.len(),
            last_place(s@, c) == last_place(s@.take(n as int), c),
        decreases n,
    {
        assert(s@.take(n as int).drop_last() =~= s@.take(n - 1));
        if s[n - 1] == c {
            return Some(n - 1);
        }
        n -= 1;
    }
    None
}

/// The JSON object in an answer: the whole of it, or what stands between the first and the last
/// brace.
pub open spec fn json_object(text: Seq<char>) -> Result<Seq<char>, Seq<char>> {
    let text = crate::strings::trimmed(text);
    let first = crate::strings::find_from(text, "{"@, 0);
    let end = last_place(text, '}');
    if crate::strings::starts(text, "{"@) && crate::strings::ends(text, "}"@) {
        Ok(text)
    } else if first is None {
        Err("auto resolve response did not contain JSON object"@)
    } else if end is None {
        Err("auto resolve response did not contain JSON object end"@)
    } else if first->0 >= end->0 {
        Err("auto resolve response contained invalid JSON object bounds"@)
    } else {
        Ok(text.subrange(first->0, end->0 + 1))
    }
}

/// Takes the JSON object out of an answer.
pub fn extract_json_object(text: &str) -> (r: Result<String, String>)
    ensures
        match r {
            Ok(object) => json_object(text@) == Ok::<Seq<char>, Seq<char>>(object@),
            Err(words) => json_object(text@) == Err::<Seq<char>, Seq<char>>(words@),
        },
{
    let trimmed = trim(text);
    if starts_with(trimmed.as_str(), "{") && ends_with(trimmed.as_str(), "}") {
        return Ok(trimmed);
    }
    let chars = to_chars(trimmed.as_str());
    let brace = to_chars("{");
    let start: usize = match chars_find_from(&chars, &brace, 0) {
        None => {
            return Err(owned("auto resolve response did not contain JSON object"));
        },
        Some(start) => start,
    };
    let end: usize = match find_last(&chars, '}') {
        None => {
            return Err(owned("auto resolve response did not contain JSON object end"));
        },
        Some(end) => end,
    };
    if start >= end {
        return Err(owned("auto resolve response contained invalid JSON object bounds"));
    }
    let count: usize = chars.len();
    assert(end < count);
    Ok(from_range(&chars, start, end + 1))
}

/// What comes of an answer that was to be JSON.
#[derive(Debug, Clone)]
pub enum JsonStep<T> {
    Done(T),
    /// Ask once more, with this text.
    AskAgain(String),
    Fail(String),
}

/// The first answer is taken where it could be parsed; else the model is asked once more.
pub fn after_first_answer<T>(user_prompt: &str, parsed: Result<T, String>) -> (r: JsonStep<T>)
    ensures
        match parsed {
            Ok(value) => r == JsonStep::Done(value),
            Err(_) => r is AskAgain && r->AskAgain_0@ == JSON_REPAIR@ + user_prompt@,
        },
{
    match parsed {
        Ok(value) => JsonStep::Done(value),
        Err(_) => JsonStep::AskAgain(build_json_repair_prompt(user_prompt)),
    }
}

/// The second answer is taken where it could be parsed; else the request has failed.
pub fn after_second_answer<T>(purpose: &str, first_error: &str, parsed: Result<T, String>) -> (r:
    JsonStep<T>)
    ensures
        match parsed {
            Ok(value) => r == JsonStep::Done(value),
            Err(_) => r is Fail && r->Fail_0@ == "LLM "@ + purpose@
                + " JSON repair failed after first response error: "@ + first_error@,
        },
{
    match parsed {
        Ok(value) => JsonStep::Done(value),
        Err(_) => JsonStep::Fail(
            owned("LLM ").concat(purpose).concat(
                " JSON repair failed after first response error: ",
            ).concat(first_error),
        ),
    }
}

/// The text is within the limit, but for the remark that it was cut.
pub proof fn law_prompt_is_bounded(
    template: Seq<char>,
    values: Seq<(Seq<char>, Seq<char>)>,
    max: nat,
)
    ensures
        crate::strings::byte_count(rendered(template, values, max)) <= max
            + crate::strings::byte_count("\n... prompt truncated by TermiteRS ...\n"@),
{
    let text = filled_in(template, values);
    let remark = "\n... prompt truncated by TermiteRS ...\n"@;
    if crate::strings::byte_count(text) > max {
        crate::text::law_truncated_fits(text, max);
        crate::text::lemma_encode_add(crate::text::truncated(text, max), remark);
    }
}

} // verus!
