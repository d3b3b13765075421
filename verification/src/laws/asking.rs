//! What a model is shown and asked, and what is taken of its answers.
use vstd::prelude::*;

use crate::conflict::ConflictBlock;
use crate::git::{ConflictSnapshot, SyncPatchContext};
use crate::llm::{SecurityContractVerificationRequest, SecurityReviewRequest, StreamPart};
use crate::protection::model::SecurityReviewDecision;

verus! {

pub proof fn lemma_join_holds(parts: Seq<Seq<char>>, sep: Seq<char>, i: int)
    requires
        0 <= i < parts.len(),
    ensures
        crate::laws::telling::holds(crate::strings::join(parts, sep), parts[i]),
    decreases parts.len(),
{
    let all = crate::strings::join(parts, sep);
    if parts.len() == 1 {
        assert(all =~= Seq::<char>::empty() + parts[i] + Seq::<char>::empty());
    } else {
        let rest = crate::strings::join(parts.drop_last(), sep);
        if i < parts.len() - 1 {
            lemma_join_holds(parts.drop_last(), sep, i);
            assert(parts.drop_last()[i] == parts[i]);
            crate::laws::telling::lemma_holds_more(rest, parts[i], Seq::empty(), sep + parts.last());
            assert(all =~= Seq::<char>::empty() + rest + (sep + parts.last()));
        } else {
            assert(all =~= (rest + sep) + parts[i] + Seq::<char>::empty());
        }
    }
}

/// A block is shown to the model with each of its parts under the name of that part.
pub proof fn law_block_is_shown_in_full(block: ConflictBlock)
    ensures
        ({
            let text = crate::llm::block_json(block);
            &&& crate::laws::telling::holds(
                text,
                "    \""@ + "path"@ + "\": "@ + crate::json::json_quoted(block.path@),
            )
            &&& crate::laws::telling::holds(
                text,
                "    \""@ + "id"@ + "\": "@ + crate::json::json_quoted(block.id@),
            )
            &&& crate::laws::telling::holds(
                text,
                "    \""@ + "expected_sha256"@ + "\": "@ + crate::json::json_quoted(
                    block.expected_sha256@,
                ),
            )
            &&& crate::laws::telling::holds(
                text,
                "    \""@ + "before_context"@ + "\": "@ + crate::json::json_quoted(
                    block.before_context@,
                ),
            )
            &&& crate::laws::telling::holds(
                text,
                "    \""@ + "ours"@ + "\": "@ + crate::json::json_quoted(block.ours@),
            )
            &&& crate::laws::telling::holds(
                text,
                "    \""@ + "base"@ + "\": "@ + crate::json::json_option(
                    crate::strings::opt_view(block.base),
                ),
            )
            &&& crate::laws::telling::holds(
                text,
                "    \""@ + "theirs"@ + "\": "@ + crate::json::json_quoted(block.theirs@),
            )
            &&& crate::laws::telling::holds(
                text,
                "    \""@ + "after_context"@ + "\": "@ + crate::json::json_quoted(block.after_context@),
            )
        }),
{
    let members = seq![
        crate::llm::member_line("path"@, crate::json::json_quoted(block.path@)),
        crate::llm::member_line("id"@, crate::json::json_quoted(block.id@)),
        crate::llm::member_line(
            "expected_sha256"@,
            crate::json::json_quoted(block.expected_sha256@),
        ),
        crate::llm::member_line("before_context"@, crate::json::json_quoted(block.before_context@)),
        crate::llm::member_line("ours"@, crate::json::json_quoted(block.ours@)),
        crate::llm::member_line(
            "base"@,
            crate::json::json_option(crate::strings::opt_view(block.base)),
        ),
        crate::llm::member_line("theirs"@, crate::json::json_quoted(block.theirs@)),
        crate::llm::member_line("after_context"@, crate::json::json_quoted(block.after_context@)),
    ];
    let inner = crate::strings::join(members, ",\n"@);
    lemma_member(members, inner, 0);
    lemma_member(members, inner, 1);
    lemma_member(members, inner, 2);
    lemma_member(members, inner, 3);
    lemma_member(members, inner, 4);
    lemma_member(members, inner, 5);
    lemma_member(members, inner, 6);
    lemma_member(members, inner, 7);
}

proof fn lemma_member(members: Seq<Seq<char>>, inner: Seq<char>, i: int)
    requires
        0 <= i < members.len(),
        inner == crate::strings::join(members, ",\n"@),
    ensures
        crate::laws::telling::holds("  {\n"@ + inner + "\n  }"@, members[i]),
{
    lemma_join_holds(members, ",\n"@, i);
    crate::laws::telling::lemma_holds_more(inner, members[i], "  {\n"@, "\n  }"@);
}

/// Every block is shown.
pub proof fn law_every_block_is_shown(blocks: Seq<ConflictBlock>, i: int)
    requires
        0 <= i < blocks.len(),
    ensures
        crate::laws::telling::holds(crate::llm::blocks_json(blocks), crate::llm::block_json(blocks[i])),
{
    let parts = Seq::new(blocks.len(), |k: int| crate::llm::block_json(blocks[k]));
    lemma_join_holds(parts, ",\n"@, i);
    crate::laws::telling::lemma_holds_more(
        crate::strings::join(parts, ",\n"@),
        parts[i],
        "[\n"@,
        "\n]"@,
    );
}

/// A prompt is whole exactly when the digest of every block stands in it.
pub proof fn law_when_a_prompt_is_whole(prompt: Seq<char>, blocks: Seq<ConflictBlock>, i: int)
    requires
        0 <= i,
    ensures
        crate::llm::first_cut(prompt, blocks, i) is None <==> forall|k: int|
            i <= k < blocks.len() ==> crate::strings::occurs(
                prompt,
                (#[trigger] blocks[k]).expected_sha256@,
            ),
    decreases blocks.len() - i,
{
    if i < blocks.len() {
        law_when_a_prompt_is_whole(prompt, blocks, i + 1);
    }
}

/// The values that a prompt is filled with are those of the conflict, under their names.
pub proof fn law_values_of_a_conflict(
    branch: Seq<char>,
    base: Seq<char>,
    note: Option<String>,
    context: SyncPatchContext,
    snapshot: ConflictSnapshot,
)
    ensures
        ({
            let values = crate::llm::conflict_values(branch, base, note, context, snapshot);
            &&& values.contains(("branch"@, branch))
            &&& values.contains(("base"@, base))
            &&& note matches Some(words) ==> values.contains(("branch_note"@, words@))
            &&& note is None ==> values.contains(("branch_note"@, "none"@))
            &&& values.contains(
                ("conflict_files"@, crate::strings::join(crate::strings::views(snapshot.files@), "\n"@)),
            )
            &&& values.contains(("git_status"@, snapshot.status@))
            &&& values.contains(
                (
                    "combined_diff"@,
                    crate::llm::sync_context(note, context) + "\n\nCombined diff:\n"@
                        + snapshot.combined_diff@,
                ),
            )
            &&& values.len() == 7
        }),
{
    let values = crate::llm::conflict_values(branch, base, note, context, snapshot);
    assert(values[0] == ("branch"@, branch));
    assert(values[1] == ("base"@, base));
    assert(values[2].0 == "branch_note"@);
    assert(values[4].0 == "conflict_files"@);
    assert(values[5] == ("git_status"@, snapshot.status@));
    assert(values[6].0 == "combined_diff"@);
}

/// A value takes the place of its name in curly brackets.
pub proof fn law_names_are_filled_in(
    template: Seq<char>,
    values: Seq<(Seq<char>, Seq<char>)>,
    key: Seq<char>,
    value: Seq<char>,
)
    ensures
        crate::llm::filled_in(template, values.push((key, value))) == crate::strings::replaced(
            crate::llm::filled_in(template, values),
            "{"@ + key + "}"@,
            value,
        ),
        crate::llm::filled_in(template, Seq::empty()) == template,
{
    assert(values.push((key, value)).drop_last() =~= values);
}

/// A review is asked of one commit, with its whole patch, as evidence that is not to be trusted.
pub proof fn law_what_a_review_is_asked_of(request: SecurityReviewRequest)
    ensures
        crate::llm::review_text(request) == "项目："@ + request.project@ + "\n项目安全意图："@
            + request.project_description@ + "\n启用预设："@ + crate::strings::join(
            crate::strings::views(request.profiles@),
            ","@,
        ) + "\n提交："@ + request.commit@ + "\n\n<untrusted_evidence encoding=\"json-string\">\n"@
            + crate::json::json_quoted(request.patch@) + "\n</untrusted_evidence>"@,
{
}

/// A verification is asked of one commit, with its contract, its tests, what they put out, and the whole
/// patch.
pub proof fn law_what_a_verification_is_asked_of(request: SecurityContractVerificationRequest)
    ensures
        crate::llm::verification_text(request)
            == "<untrusted_verification_evidence encoding=\"json\">\n"@ + ("{\"commit\":"@
            + crate::json::json_quoted(request.commit@) + ",\"final_candidate_patch\":"@
            + crate::json::json_quoted(request.final_patch@) + ",\"fix_contract\":"@
            + crate::llm::contract_json(request.contract) + ",\"project\":"@ + crate::json::json_quoted(
            request.project@,
        ) + ",\"test_commands\":"@ + crate::json::json_list(crate::strings::views(request.test_commands@))
            + ",\"test_output\":"@ + crate::json::json_quoted(request.test_output@) + "}"@)
            + "\n</untrusted_verification_evidence>"@,
{
}

/// A review is taken where it says what and how, gives evidence for what it claims, and has a contract
/// only for a fix, and then a complete one.
pub proof fn law_which_reviews_are_taken(d: SecurityReviewDecision)
    ensures
        crate::llm::review_fault(d) is None <==> {
            &&& crate::strings::trimmed(d.summary@).len() > 0
            &&& crate::strings::trimmed(d.mechanism@).len() > 0
            &&& d.security_fix_detected || d.introduced_risk ==> d.evidence@.len() > 0
            &&& d.fix_contract matches Some(contract) ==> d.security_fix_detected
                && crate::strings::trimmed(contract.security_property@).len() > 0
                && crate::strings::trimmed(contract.vulnerable_behavior@).len() > 0
                && crate::strings::trimmed(contract.fixed_behavior@).len() > 0
                && contract.regression_cases@.len() > 0
        },
{
}

/// The address is that of the provider, or the one that is configured, and ends in the name of the call
/// once.
pub proof fn law_where_a_model_is_asked(base: Seq<char>)
    requires
        base.len() > 0,
        base.last() != '/',
    ensures
        crate::strings::ends(base, "/chat/completions"@) ==> crate::llm::chat_url(base) == base,
        !crate::strings::ends(base, "/chat/completions"@) ==> crate::llm::chat_url(base) == base
            + "/chat/completions"@,
        crate::llm::provider_url(crate::config::LlmProvider::DeepSeek) == Some(
            "https://api.deepseek.com"@,
        ),
        crate::llm::provider_url(crate::config::LlmProvider::OpenAi) == Some(
            "https://api.openai.com/v1"@,
        ),
        crate::llm::provider_url(crate::config::LlmProvider::OpenAiCompatible) is None,
        crate::llm::provider_url(crate::config::LlmProvider::Custom) is None,
{
}

/// A call is tried again only after faults of the connection or of the server.
pub proof fn law_which_faults_are_tried_again(causes: Seq<Seq<char>>)
    ensures
        ({
            let message = crate::strings::join(
                Seq::new(causes.len(), |i: int| crate::strings::lower(causes[i])),
                " | "@,
            );
            crate::llm::retryable(causes) <==> crate::strings::occurs(message, "timed out"@)
                || crate::strings::occurs(message, "timeout"@) || crate::strings::occurs(
                message,
                "connection"@,
            ) || crate::strings::occurs(message, "server error"@) || crate::strings::occurs(
                message,
                "body"@,
            )
        }),
{
    assert(crate::llm::error_chain(causes) == crate::strings::join(
        Seq::new(causes.len(), |i: int| crate::strings::lower(causes[i])),
        " | "@,
    ));
}

/// A line of an answer that comes in pieces is data where it says so; everything else is passed over.
pub proof fn law_lines_of_an_answer(line: Seq<char>)
    ensures
        crate::strings::trimmed(line).len() == 0 ==> crate::llm::stream_part(line) is Skip,
        !crate::strings::starts(crate::strings::trimmed(line), "data:"@) ==> crate::llm::stream_part(
            line,
        ) is Skip,
        crate::llm::stream_part(line) matches StreamPart::Data(text) ==> crate::strings::starts(
            crate::strings::trimmed(line),
            "data:"@,
        ) && text != "[DONE]"@,
{
}

/// The line ends at the first line feed.
pub proof fn law_first_line_feed(bytes: Seq<u8>)
    ensures
        match crate::llm::line_feed(bytes) {
            Some(i) => 0 <= i < bytes.len() && bytes[i] == 10 && forall|k: int|
                0 <= k < i ==> #[trigger] bytes[k] != 10,
            None => forall|k: int| 0 <= k < bytes.len() ==> #[trigger] bytes[k] != 10,
        },
    decreases bytes.len(),
{
    if bytes.len() > 0 && bytes[0] != 10 {
        let rest = bytes.drop_first();
        law_first_line_feed(rest);
        assert forall|k: int| 0 < k < bytes.len() implies #[trigger] bytes[k] == rest[k - 1] by {}
        match crate::llm::line_feed(rest) {
            Some(i) => {
                assert(rest[i] == bytes[i + 1]);
            },
            None => {},
        }
    }
}

proof fn lemma_last_place(s: Seq<char>, c: char)
    ensures
        match crate::llm::last_place(s, c) {
            Some(i) => 0 <= i < s.len() && s[i] == c && forall|k: int|
                i < k < s.len() ==> #[trigger] s[k] != c,
            None => forall|k: int| 0 <= k < s.len() ==> #[trigger] s[k] != c,
        },
    decreases s.len(),
{
    if s.len() > 0 && s.last() != c {
        lemma_last_place(s.drop_last(), c);
        assert forall|k: int| 0 <= k < s.len() - 1 implies #[trigger] s[k] == s.drop_last()[k] by {}
    }
}

proof fn lemma_first_open(text: Seq<char>, a: int)
    requires
        0 <= a < text.len(),
        text[a] == '{',
        forall|k: int| 0 <= k < a ==> #[trigger] text[k] != '{',
    ensures
        crate::strings::find_from(text, "{"@, 0) == Some(a),
        crate::strings::starts(text, "{"@) ==> a == 0,
{
    reveal_strlit("{");
    assert("{"@ =~= seq!['{']);
    crate::strings::lemma_find_from(text, "{"@, 0);
    assert(text.subrange(a, a + 1) =~= "{"@);
    assert(crate::strings::matches_at(text, a, "{"@));
    assert forall|k: int| 0 <= k < a implies !#[trigger] crate::strings::matches_at(text, k, "{"@) by {
        if crate::strings::matches_at(text, k, "{"@) {
            assert(text.subrange(k, k + 1)[0] == text[k]);
        }
    }
    if crate::strings::starts(text, "{"@) {
        assert(crate::strings::matches_at(text, 0, "{"@));
    }
}

proof fn lemma_last_close(text: Seq<char>, b: int)
    requires
        0 <= b < text.len(),
        text[b] == '}',
        forall|k: int| b < k < text.len() ==> #[trigger] text[k] != '}',
    ensures
        crate::llm::last_place(text, '}') == Some(b),
        crate::strings::ends(text, "}"@) ==> b == text.len() - 1,
{
    reveal_strlit("}");
    assert("}"@ =~= seq!['}']);
    lemma_last_place(text, '}');
    if crate::strings::ends(text, "}"@) {
        let n = text.len() - 1;
        assert(text.subrange(n, n + 1)[0] == text[n]);
    }
}

/// The object in an answer goes from its first opening bracket to its last closing one, whatever stands
/// around it.
pub proof fn law_object_in_an_answer(text: Seq<char>, a: int, b: int)
    requires
        crate::strings::trimmed(text) == text,
        0 <= a < b < text.len(),
        text[a] == '{',
        text[b] == '}',
        forall|k: int| 0 <= k < a ==> #[trigger] text[k] != '{',
        forall|k: int| b < k < text.len() ==> #[trigger] text[k] != '}',
    ensures
        crate::llm::json_object(text) == Ok::<Seq<char>, Seq<char>>(text.subrange(a, b + 1)),
{
    lemma_first_open(text, a);
    lemma_last_close(text, b);
    if crate::strings::starts(text, "{"@) && crate::strings::ends(text, "}"@) {
        assert(text =~= text.subrange(a, b + 1));
    }
}

} // verus!
