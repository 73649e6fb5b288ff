//! Properties of the survey that span several operations.
use vstd::prelude::*;

use crate::commands::{command_body, command_of, param_lines, CommandView};
use crate::dialogue::{
    question_step, round, spent_sum, with_param_value, ModelAnswerView, ModelReplyView,
    QuestionStepView,
};
use crate::export::{cell, export_table, readable, user_row};
use crate::json::{as_i64, as_str, element, entry, member, Json};
use crate::reply::{completion_of, CompletionView};
use crate::survey::{
    default_params_data, formatted_prompt, gpt_messages, known_value, params_listing,
    resolved_user_data, system_message, utf8_len, history_fit, MessageView, ParamView,
    UserDataView, UserSurveyView, HISTORY_LIMIT, PROMPT_PARAMS_TEMPLATE,
};
use crate::text::{
    first_occurrence, in_class, is_white_space, lemma_first_occurrence_is_occurrence, non_empty,
    occurs_at, split_on, strip_prefix_repeated, trim, trim_end, trim_start, trim_ws, join,
    CharClass,
};

verus! {

/// The bytes of content of `msgs`, together.
pub open spec fn total_len(msgs: Seq<MessageView>) -> nat
    decreases msgs.len(),
{
    if msgs.len() == 0 {
        0
    } else {
        total_len(msgs.drop_last()) + utf8_len(msgs.last().content)
    }
}

/// Every collected parameter is numbered by its position.
pub open spec fn well_numbered(params: Seq<ParamView>) -> bool {
    forall|k: int| 0 <= k < params.len() ==> #[trigger] params[k].index as int == k
}

/// `s` neither starts nor ends with white space.
pub open spec fn no_outer_white_space(s: Seq<char>) -> bool {
    s.len() > 0 ==> !is_white_space(s[0]) && !is_white_space(s.last())
}

/// A prompt with `{params}` shows the parameter listing: the listing
/// stands in the formatted prompt.
pub proof fn lemma_prompt_shows_listing(prompt: Seq<char>, listing: Seq<char>)
    requires
        first_occurrence(prompt, PROMPT_PARAMS_TEMPLATE@) is Some,
    ensures
        exists|i: int| occurs_at(formatted_prompt(prompt, listing), listing, i),
{
    lemma_first_occurrence_is_occurrence(prompt, PROMPT_PARAMS_TEMPLATE@, 0);
    let i = first_occurrence(prompt, PROMPT_PARAMS_TEMPLATE@)->0;
    let r = formatted_prompt(prompt, listing);
    assert(r.subrange(i, i + listing.len()) =~= listing);
    assert(occurs_at(r, listing, i));
}

/// Once `/prompt` has accepted a prompt (one with `{params}`), the system
/// message of every user of the survey shows that user's parameter listing.
pub proof fn lemma_accepted_prompt_shows_listing(u: UserSurveyView)
    requires
        first_occurrence(u.config.prompt, PROMPT_PARAMS_TEMPLATE@) is Some,
    ensures
        exists|i: int|
            occurs_at(
                system_message(u).content,
                params_listing(u.config.params, u.data.params),
                i,
            ),
{
    let listing = params_listing(u.config.params, u.data.params);
    lemma_prompt_shows_listing(u.config.prompt, listing);
    let i = choose|i: int| occurs_at(formatted_prompt(u.config.prompt, listing), listing, i);
    assert(system_message(u).content == formatted_prompt(u.config.prompt, listing));
    assert(occurs_at(system_message(u).content, listing, i));
}

proof fn lemma_history_fit(budget: int, msgs: Seq<MessageView>)
    ensures
        history_fit(budget, msgs) <= msgs.len(),
        history_fit(budget, msgs) > 0 ==> total_len(
            msgs.skip(msgs.len() - history_fit(budget, msgs)),
        ) <= budget,
        history_fit(budget, msgs) < msgs.len() ==> total_len(
            msgs.skip(msgs.len() - history_fit(budget, msgs) - 1),
        ) > budget,
    decreases msgs.len(),
{
    let n = msgs.len();
    if n == 0 {
    } else {
        let l = utf8_len(msgs.last().content);
        let rest = msgs.drop_last();
        if l > budget {
            assert(msgs.skip(n - 1) =~= seq![msgs.last()]);
            assert(seq![msgs.last()].drop_last() =~= Seq::<MessageView>::empty());
        } else {
            lemma_history_fit(budget - l, rest);
            let k1 = history_fit(budget - l, rest);
            assert(msgs.skip(n - (k1 + 1)).drop_last() =~= rest.skip(rest.len() - k1));
            if k1 + 1 < n {
                assert(msgs.skip(n - (k1 + 1) - 1).drop_last() =~= rest.skip(rest.len() - k1 - 1));
            }
        }
    }
}

/// The messages sent to the model are the system message followed by the
/// newest messages of the conversation, oldest first; together with the
/// system message these fit in `HISTORY_LIMIT` bytes, and the next older
/// message, if any, would not have fit.
pub proof fn lemma_history_within_limit(u: UserSurveyView)
    ensures
        ({
            let sent = gpt_messages(u);
            let msgs = u.data.messages;
            let kept = (sent.len() - 1) as int;
            let system = utf8_len(system_message(u).content);
            &&& sent.len() >= 1
            &&& sent[0] == system_message(u)
            &&& kept <= msgs.len()
            &&& sent.skip(1) == msgs.skip(msgs.len() - kept)
            &&& kept > 0 ==> system + total_len(sent.skip(1)) <= HISTORY_LIMIT
            &&& kept < msgs.len() ==> system + total_len(msgs.skip(msgs.len() - kept - 1))
                > HISTORY_LIMIT
        }),
{
    let msgs = u.data.messages;
    let budget = HISTORY_LIMIT - utf8_len(system_message(u).content);
    lemma_history_fit(budget, msgs);
    let k = history_fit(budget, msgs);
    let sent = gpt_messages(u);
    assert(sent.skip(1) =~= msgs.skip(msgs.len() - k));
}

/// A round asks the model at most three times: from the fourth attempt
/// on, it answers the user without asking, passing on the tokens spent.
pub proof fn lemma_round_bounded(u: UserSurveyView, counter: u8, tokens: i64)
    requires
        counter > 3,
    ensures
        question_step(u, counter, tokens) == (QuestionStepView::Reply {
            spent_tokens: tokens,
            question: "Error get question"@,
        }),
{
}

/// A round that starts at attempt `counter` makes at most `4 - counter`
/// requests to the model (three for a round that starts at the first
/// attempt, none from the fourth on) and then answers the user, having
/// spent the tokens of exactly the replies it used; this holds whatever the
/// model replies, as long as the running token sum fits in an `i64`.
pub proof fn lemma_round_bounded_by_requests(
    u: UserSurveyView,
    counter: u8,
    tokens: i64,
    replies: Seq<ModelReplyView>,
)
    requires
        replies.len() >= 4 - counter,
        forall|k: nat|
            k <= replies.len() ==> i64::MIN <= tokens + #[trigger] spent_sum(replies, k)
                <= i64::MAX,
    ensures
        round(u, counter, tokens, replies).finished,
        round(u, counter, tokens, replies).requests <= if counter <= 3 {
            4 - counter
        } else {
            0
        },
        round(u, counter, tokens, replies).spent_tokens == tokens + spent_sum(
            replies,
            round(u, counter, tokens, replies).requests,
        ),
    decreases replies.len(),
{
    match question_step(u, counter, tokens) {
        QuestionStepView::Reply { .. } => {},
        QuestionStepView::AskModel(_) => {
            let reply = replies[0];
            let rest = replies.drop_first();
            assert(spent_sum(replies, 1) == reply.spent_tokens + spent_sum(rest, 0));
            match reply.answer {
                ModelAnswerView::Question(_) => {},
                ModelAnswerView::SetParams(args) => {
                    let next_tokens = (reply.spent_tokens + tokens) as i64;
                    assert forall|k: nat| k <= rest.len() implies i64::MIN <= next_tokens
                        + #[trigger] spent_sum(rest, k) <= i64::MAX by {
                        assert(spent_sum(replies, k + 1) == reply.spent_tokens + spent_sum(rest, k));
                    }
                    let v = UserSurveyView { data: crate::dialogue::apply_args(u.data, args), ..u };
                    lemma_round_bounded_by_requests(v, (counter + 1) as u8, next_tokens, rest);
                    let n = round(v, (counter + 1) as u8, next_tokens, rest).requests;
                    assert(spent_sum(replies, n + 1) == reply.spent_tokens + spent_sum(rest, n));
                },
            }
        },
    }
}

/// The fresh data of a survey with at most 65536 parameters numbers each
/// parameter by its position.
pub proof fn lemma_default_well_numbered(names: Seq<Seq<char>>)
    requires
        names.len() <= 0x10000,
    ensures
        well_numbered(default_params_data(names)),
{
    assert forall|k: int| 0 <= k < default_params_data(names).len() implies #[trigger] default_params_data(
        names,
    )[k].index as int == k by {
        assert((k as u16) as int == k);
    }
}

/// Setting a parameter keeps the numbering.
pub proof fn lemma_set_keeps_numbering(d: UserDataView, i: int, v: Seq<char>)
    requires
        well_numbered(d.params),
        0 <= i < d.params.len(),
    ensures
        well_numbered(with_param_value(d, i, v).params),
{
}

proof fn lemma_known_after_set(params: Seq<ParamView>, i: int)
    requires
        well_numbered(params),
        0 <= i < params.len(),
        params[i].value is Some,
    ensures
        known_value(params, i) == params[i].value,
    decreases params.len(),
{
    if params.len() - 1 != i {
        let rest = params.drop_last();
        assert(params.last().index as int == params.len() - 1);
        assert forall|k: int| 0 <= k < rest.len() implies #[trigger] rest[k].index as int == k by {
            assert(rest[k] == params[k]);
        }
        lemma_known_after_set(rest, i);
    }
}

/// After the model sets a parameter of a user whose parameters are
/// numbered by position, the parameter listing sent to the model shows that
/// parameter with the new value.
pub proof fn lemma_set_param_shows_in_listing(d: UserDataView, i: int, v: Seq<char>)
    requires
        well_numbered(d.params),
        0 <= i < d.params.len(),
    ensures
        known_value(with_param_value(d, i, v).params, i) == Some(v),
{
    let p = with_param_value(d, i, v).params;
    assert forall|k: int| 0 <= k < p.len() implies #[trigger] p[k].index as int == k by {
        if k != i {
            assert(p[k] == d.params[k]);
        }
    }
    lemma_known_after_set(p, i);
}

/// What was stored for a user is what the user's survey continues with.
pub proof fn lemma_stored_user_restored(
    tokens: i64,
    d: UserDataView,
    names: Seq<Seq<char>>,
    or_default: bool,
)
    ensures
        resolved_user_data(Some((tokens, Some(d))), names, or_default) == (Some((tokens, d)), false),
{
}

/// A user's survey can always start: falling back to a fresh user never
/// leaves the survey without data.
pub proof fn lemma_survey_always_starts(
    stored: Option<(i64, Option<UserDataView>)>,
    names: Seq<Seq<char>>,
)
    ensures
        resolved_user_data(stored, names, true).0 is Some,
{
}

proof fn lemma_trim_start_clean(s: Seq<char>, class: CharClass)
    ensures
        trim_start(s, class).len() > 0 ==> !in_class(trim_start(s, class)[0], class),
        trim_start(s, class).len() <= s.len(),
    decreases s.len(),
{
    if s.len() > 0 && in_class(s[0], class) {
        lemma_trim_start_clean(s.drop_first(), class);
    }
}

proof fn lemma_trim_end_clean(s: Seq<char>, class: CharClass)
    ensures
        trim_end(s, class).len() > 0 ==> {
            &&& !in_class(trim_end(s, class).last(), class)
            &&& trim_end(s, class)[0] == s[0]
        },
    decreases s.len(),
{
    if s.len() > 0 && in_class(s.last(), class) {
        lemma_trim_end_clean(s.drop_last(), class);
    }
}

/// Trimming leaves no character of the class at either end.
pub proof fn lemma_trim_clean(s: Seq<char>, class: CharClass)
    ensures
        trim(s, class).len() > 0 ==> {
            &&& !in_class(trim(s, class)[0], class)
            &&& !in_class(trim(s, class).last(), class)
        },
{
    lemma_trim_start_clean(s, class);
    lemma_trim_end_clean(trim_start(s, class), class);
}

/// The text after a command word never starts or ends with white space.
pub proof fn lemma_command_body_trimmed(prefix: Seq<char>, text: Seq<char>)
    ensures
        no_outer_white_space(command_body(prefix, text)),
{
    lemma_trim_clean(crate::text::strip_prefix_repeated(text, prefix), CharClass::WhiteSpace);
}

proof fn lemma_non_empty_from(items: Seq<Seq<char>>)
    ensures
        forall|k: int| 0 <= k < non_empty(items).len() ==> {
            &&& #[trigger] non_empty(items)[k].len() > 0
            &&& exists|j: int| 0 <= j < items.len() && items[j] == non_empty(items)[k]
        },
    decreases items.len(),
{
    if items.len() > 0 {
        let rest = items.drop_last();
        lemma_non_empty_from(rest);
        assert forall|k: int| 0 <= k < non_empty(items).len() implies {
            &&& #[trigger] non_empty(items)[k].len() > 0
            &&& exists|j: int| 0 <= j < items.len() && items[j] == non_empty(items)[k]
        } by {
            if k < non_empty(rest).len() {
                assert(non_empty(items)[k] == non_empty(rest)[k]);
                let j = choose|j: int| 0 <= j < rest.len() && rest[j] == non_empty(rest)[k];
                assert(items[j] == rest[j]);
            } else {
                assert(non_empty(items)[k] == items.last());
                assert(items[items.len() - 1] == items.last());
            }
        }
    }
}

/// Every parameter that `/params` sets is non-empty and has no white space
/// at either end.
pub proof fn lemma_param_lines_clean(text: Seq<char>)
    ensures
        forall|k: int| 0 <= k < param_lines(text).len() ==> {
            &&& #[trigger] param_lines(text)[k].len() > 0
            &&& no_outer_white_space(param_lines(text)[k])
        },
{
    let pieces = split_on(text, '\n').map_values(|p: Seq<char>| trim_ws(p));
    lemma_non_empty_from(pieces);
    assert forall|k: int| 0 <= k < param_lines(text).len() implies {
        &&& #[trigger] param_lines(text)[k].len() > 0
        &&& no_outer_white_space(param_lines(text)[k])
    } by {
        let j = choose|j: int| 0 <= j < pieces.len() && pieces[j] == non_empty(pieces)[k];
        lemma_trim_clean(split_on(text, '\n')[j], CharClass::WhiteSpace);
    }
}

/// The exported table starts with the parameters as header, has one row
/// per user whose data reads, and every row has one cell per parameter.
pub proof fn lemma_export_rows_aligned(headers: Seq<Seq<char>>, stored: Seq<Option<UserDataView>>)
    ensures
        export_table(headers, stored)[0] == headers,
        export_table(headers, stored).len() == 1 + readable(stored).len(),
        forall|r: int| 0 <= r < export_table(headers, stored).len() ==> #[trigger] export_table(
            headers,
            stored,
        )[r].len() == headers.len(),
{
    let t = export_table(headers, stored);
    assert forall|r: int| 0 <= r < t.len() implies #[trigger] t[r].len() == headers.len() by {
        if r > 0 {
            assert(t[r] == user_row(headers, readable(stored)[r - 1]));
        }
    }
}

} // verus!

verus! {

// ---------------------------------------------------------------------------
// The parameter listing shows each parameter's own value
// ---------------------------------------------------------------------------

/// For parameters numbered by position, the value the listing shows for
/// position `i` is the value of the parameter at `i`: there is one exactly
/// when that parameter has one, and it is that one.
pub proof fn lemma_known_value_by_position(params: Seq<ParamView>, i: int)
    requires
        well_numbered(params),
        0 <= i < params.len(),
    ensures
        known_value(params, i) == params[i].value,
    decreases params.len(),
{
    let last = params.len() - 1;
    assert(params[last].index as int == last);
    if last != i {
        let rest = params.drop_last();
        assert forall|k: int| 0 <= k < rest.len() implies #[trigger] rest[k].index as int == k by {
            assert(rest[k] == params[k]);
        }
        lemma_known_value_by_position(rest, i);
        assert(rest[i] == params[i]);
    } else if params[i].value is None {
        lemma_known_value_absent(params.drop_last(), i);
    }
}

/// No parameter numbered `i` at all: nothing is known for `i`.
proof fn lemma_known_value_absent(params: Seq<ParamView>, i: int)
    requires
        well_numbered(params),
        params.len() <= i,
    ensures
        known_value(params, i) is None,
    decreases params.len(),
{
    if params.len() > 0 {
        let last = params.len() - 1;
        assert(params[last].index as int == last);
        let rest = params.drop_last();
        assert forall|k: int| 0 <= k < rest.len() implies #[trigger] rest[k].index as int == k by {
            assert(rest[k] == params[k]);
        }
        lemma_known_value_absent(rest, i);
    }
}

/// Whatever the numbering, a value is shown for position `i` only when some
/// parameter numbered `i` has that value, and one is shown whenever some
/// parameter numbered `i` has a value.
pub proof fn lemma_known_value_sound(params: Seq<ParamView>, i: int)
    ensures
        known_value(params, i) matches Some(v) ==> exists|k: int|
            0 <= k < params.len() && #[trigger] params[k].index as int == i && params[k].value
                == Some(v),
        (exists|k: int|
            0 <= k < params.len() && #[trigger] params[k].index as int == i
                && params[k].value is Some) ==> known_value(params, i) is Some,
    decreases params.len(),
{
    if params.len() > 0 {
        let last = params.len() - 1;
        let rest = params.drop_last();
        lemma_known_value_sound(rest, i);
        if known_value(params, i) is Some && !(params[last].index as int == i
            && params[last].value is Some) {
            let v = known_value(params, i)->0;
            let k = choose|k: int|
                0 <= k < rest.len() && #[trigger] rest[k].index as int == i && rest[k].value
                    == Some(v);
            assert(params[k] == rest[k]);
        }
        if exists|k: int|
            0 <= k < params.len() && #[trigger] params[k].index as int == i
                && params[k].value is Some {
            let k = choose|k: int|
                0 <= k < params.len() && #[trigger] params[k].index as int == i
                    && params[k].value is Some;
            if k < last {
                assert(rest[k] == params[k]);
            }
        }
    }
}

} // verus!

verus! {

// ---------------------------------------------------------------------------
// Reading replies: lookups and the tokens charged
// ---------------------------------------------------------------------------

/// `v[key]` on an object is the value of the first entry under `key`.
pub proof fn lemma_member_of_object(entries: Seq<(String, Json)>, key: Seq<char>, j: int)
    requires
        0 <= j < entries.len(),
        entries[j].0@ == key,
        forall|k: int| 0 <= k < j ==> #[trigger] entries[k].0@ != key,
    ensures
        entry(entries, key) == Some(entries[j].1),
    decreases j,
{
    if j > 0 {
        let rest = entries.drop_first();
        assert forall|k: int| 0 <= k < j - 1 implies #[trigger] rest[k].0@ != key by {
            assert(rest[k] == entries[k + 1]);
        }
        lemma_member_of_object(rest, key, j - 1);
        assert(rest[j - 1] == entries[j]);
    }
}

/// `v[key]` on an object without an entry under `key` is `null`.
pub proof fn lemma_member_of_object_absent(entries: Seq<(String, Json)>, key: Seq<char>)
    requires
        forall|k: int| 0 <= k < entries.len() ==> #[trigger] entries[k].0@ != key,
    ensures
        entry(entries, key) is None,
    decreases entries.len(),
{
    if entries.len() > 0 {
        let rest = entries.drop_first();
        assert forall|k: int| 0 <= k < rest.len() implies #[trigger] rest[k].0@ != key by {
            assert(rest[k] == entries[k + 1]);
        }
        lemma_member_of_object_absent(rest, key);
    }
}

/// A reply read as a question or a tool call charges `usage.total_tokens`
/// whenever that is an integer, whatever else `usage` holds, and nothing
/// when it is not.
pub proof fn lemma_reply_charges_total_tokens(v: Json)
    ensures
        match completion_of(v) {
            CompletionView::Question { spent_tokens, .. } => spent_tokens == match as_i64(
                member(member(Some(v), "usage"@), "total_tokens"@),
            ) {
                Some(n) => n,
                None => 0,
            },
            CompletionView::ToolCall { spent_tokens, .. } => spent_tokens == match as_i64(
                member(member(Some(v), "usage"@), "total_tokens"@),
            ) {
                Some(n) => n,
                None => 0,
            },
            CompletionView::UnknownFinishReason => true,
        },
{
}

/// A reply is a question exactly when `choices[0].finish_reason` is
/// `"stop"`, and then its text is `choices[0].message.content` (empty when
/// that is not a string); it is a tool call exactly when the finish reason
/// is `"tool_calls"`.
pub proof fn lemma_reply_kind(v: Json)
    ensures
        ({
            let choice = element(member(Some(v), "choices"@), 0);
            let finish = as_str(member(choice, "finish_reason"@));
            &&& (completion_of(v) is Question) == (finish == Some("stop"@))
            &&& (completion_of(v) is ToolCall) == (finish == Some("tool_calls"@))
            &&& completion_of(v) matches CompletionView::Question { content, .. } ==> content
                == match as_str(member(member(choice, "message"@), "content"@)) {
                Some(c) => c,
                None => Seq::<char>::empty(),
            }
        }),
{
    reveal_strlit("stop");
    reveal_strlit("tool_calls");
    assert("stop"@.len() > 0);
    assert("tool_calls"@.len() > 0);
    assert("stop"@ != "tool_calls"@) by {
        assert("stop"@.len() != "tool_calls"@.len());
    }
}

// ---------------------------------------------------------------------------
// The export keeps every readable user
// ---------------------------------------------------------------------------

/// A single stored user whose data reads gets its row after the header,
/// whatever its conversation.
pub proof fn lemma_export_single_user(headers: Seq<Seq<char>>, d: UserDataView)
    ensures
        export_table(headers, seq![Some(d)]) == seq![headers, user_row(headers, d)],
{
    let s = seq![Some(d)];
    assert(s.drop_last() =~= Seq::<Option<UserDataView>>::empty());
    assert(readable(s.drop_last()) == Seq::<UserDataView>::empty());
    assert(s.last() == Some(d));
    assert(readable(s) =~= seq![d]);
    assert(export_table(headers, s) =~= seq![headers, user_row(headers, d)]);
}

/// One more stored user adds its row at the end when its data reads, and
/// nothing when it does not.
pub proof fn lemma_export_append(
    headers: Seq<Seq<char>>,
    stored: Seq<Option<UserDataView>>,
    d: Option<UserDataView>,
)
    ensures
        export_table(headers, stored.push(d)) == match d {
            Some(u) => export_table(headers, stored).push(user_row(headers, u)),
            None => export_table(headers, stored),
        },
{
    assert(stored.push(d).drop_last() =~= stored);
    match d {
        Some(u) => {
            assert(export_table(headers, stored.push(d)) =~= export_table(headers, stored).push(
                user_row(headers, u),
            ));
        },
        None => {
            assert(export_table(headers, stored.push(d)) =~= export_table(headers, stored));
        },
    }
}

/// The cell of a column is the value of the first parameter with the
/// column's name (empty without a value), and empty when no parameter has
/// that name.
pub proof fn lemma_cell_is_first_named(params: Seq<ParamView>, header: Seq<char>)
    ensures
        forall|k: int|
            0 <= k < params.len() && #[trigger] params[k].name == header && (forall|j: int|
                0 <= j < k ==> params[j].name != header) ==> cell(params, header) == match params[k].value {
                Some(v) => v,
                None => Seq::<char>::empty(),
            },
        (forall|k: int| 0 <= k < params.len() ==> #[trigger] params[k].name != header) ==> cell(
            params,
            header,
        ) == Seq::<char>::empty(),
    decreases params.len(),
{
    if params.len() > 0 {
        let rest = params.drop_first();
        lemma_cell_is_first_named(rest, header);
        assert forall|k: int|
            0 <= k < params.len() && #[trigger] params[k].name == header && (forall|j: int|
                0 <= j < k ==> params[j].name != header) implies cell(params, header) == match params[k].value {
            Some(v) => v,
            None => Seq::<char>::empty(),
        } by {
            if k > 0 {
                assert(params[0].name != header);
                assert(rest[k - 1] == params[k]);
                assert forall|j: int| 0 <= j < k - 1 implies rest[j].name != header by {
                    assert(rest[j] == params[j + 1]);
                }
            }
        }
        if forall|k: int| 0 <= k < params.len() ==> #[trigger] params[k].name != header {
            assert(params[0].name != header);
            assert forall|k: int| 0 <= k < rest.len() implies #[trigger] rest[k].name != header by {
                assert(rest[k] == params[k + 1]);
            }
        }
    }
}

} // verus!

verus! {

// ---------------------------------------------------------------------------
// Splitting into lines and trimming
// ---------------------------------------------------------------------------

proof fn lemma_join_extend_last(items: Seq<Seq<char>>, sep: Seq<char>, c: char)
    requires
        items.len() >= 1,
    ensures
        join(items.update(items.len() - 1, items.last().push(c)), sep) == join(items, sep).push(c),
{
    let u = items.update(items.len() - 1, items.last().push(c));
    if items.len() == 1 {
        assert(u[0] == items[0].push(c));
    } else {
        assert(u.drop_last() =~= items.drop_last());
        assert(u.last() == items.last().push(c));
        assert(join(u, sep) =~= join(items, sep).push(c));
    }
}

/// Splitting on `sep` cuts `s` only at its occurrences of `sep`: no piece
/// holds `sep`, and joining the pieces with `sep` gives `s` back.
pub proof fn lemma_split_joins_back(s: Seq<char>, sep: char)
    ensures
        split_on(s, sep).len() >= 1,
        join(split_on(s, sep), seq![sep]) == s,
        forall|k: int, i: int|
            0 <= k < split_on(s, sep).len() && 0 <= i < split_on(s, sep)[k].len() ==> #[trigger] split_on(
                s,
                sep,
            )[k][i] != sep,
    decreases s.len(),
{
    if s.len() == 0 {
        assert(join(split_on(s, sep), seq![sep]) =~= s);
    } else {
        let rest = s.drop_last();
        lemma_split_joins_back(rest, sep);
        let prev = split_on(rest, sep);
        if s.last() == sep {
            let p = prev.push(Seq::<char>::empty());
            assert(p.drop_last() =~= prev);
            assert(join(p, seq![sep]) =~= rest + seq![sep] + Seq::<char>::empty());
            assert(rest + seq![sep] + Seq::<char>::empty() =~= s);
            assert forall|k: int, i: int|
                0 <= k < p.len() && 0 <= i < p[k].len() implies #[trigger] p[k][i] != sep by {
                assert(p[k] == prev[k]);
            }
        } else {
            lemma_join_extend_last(prev, seq![sep], s.last());
            assert(rest.push(s.last()) =~= s);
            let p = prev.update(prev.len() - 1, prev.last().push(s.last()));
            assert forall|k: int, i: int|
                0 <= k < p.len() && 0 <= i < p[k].len() implies #[trigger] p[k][i] != sep by {
                if k == prev.len() - 1 {
                    if i < prev.last().len() {
                        assert(p[k][i] == prev[k][i]);
                    }
                } else {
                    assert(p[k] == prev[k]);
                }
            }
        }
    }
}

/// A text without `sep` is a single piece.
pub proof fn lemma_split_without_separator(s: Seq<char>, sep: char)
    requires
        forall|i: int| 0 <= i < s.len() ==> s[i] != sep,
    ensures
        split_on(s, sep) == seq![s],
    decreases s.len(),
{
    if s.len() > 0 {
        let rest = s.drop_last();
        lemma_split_without_separator(rest, sep);
        assert(s.last() == s[s.len() - 1]);
        assert(rest.push(s.last()) =~= s);
        assert(split_on(s, sep) =~= seq![s]);
    } else {
        assert(s =~= Seq::<char>::empty());
    }
}

/// `/params` with a single line sets exactly one parameter: that line,
/// trimmed, spaces inside it included.
pub proof fn lemma_param_lines_single_line(text: Seq<char>)
    requires
        forall|i: int| 0 <= i < text.len() ==> text[i] != '\n',
        trim_ws(text).len() > 0,
    ensures
        param_lines(text) == seq![trim_ws(text)],
{
    lemma_split_without_separator(text, '\n');
    let t = split_on(text, '\n').map_values(|p: Seq<char>| trim_ws(p));
    assert(t =~= seq![trim_ws(text)]);
    assert(t.drop_last() =~= Seq::<Seq<char>>::empty());
    assert(non_empty(t.drop_last()) == Seq::<Seq<char>>::empty());
    assert(non_empty(t) =~= seq![trim_ws(text)]);
}

proof fn lemma_trim_start_is_suffix(s: Seq<char>, class: CharClass)
    ensures
        exists|i: int|
            0 <= i <= s.len() && trim_start(s, class) == s.skip(i) && forall|k: int|
                0 <= k < i ==> in_class(#[trigger] s[k], class),
    decreases s.len(),
{
    if s.len() > 0 && in_class(s[0], class) {
        let rest = s.drop_first();
        lemma_trim_start_is_suffix(rest, class);
        let i = choose|i: int|
            0 <= i <= rest.len() && trim_start(rest, class) == rest.skip(i) && forall|k: int|
                0 <= k < i ==> in_class(#[trigger] rest[k], class);
        assert(rest.skip(i) =~= s.skip(i + 1));
        assert forall|k: int| 0 <= k < i + 1 implies in_class(#[trigger] s[k], class) by {
            if k > 0 {
                assert(s[k] == rest[k - 1]);
            }
        }
    } else {
        assert(s.skip(0) =~= s);
    }
}

proof fn lemma_trim_end_is_prefix(s: Seq<char>, class: CharClass)
    ensures
        exists|j: int|
            0 <= j <= s.len() && trim_end(s, class) == s.take(j) && forall|k: int|
                j <= k < s.len() ==> in_class(#[trigger] s[k], class),
    decreases s.len(),
{
    if s.len() > 0 && in_class(s.last(), class) {
        let rest = s.drop_last();
        lemma_trim_end_is_prefix(rest, class);
        let j = choose|j: int|
            0 <= j <= rest.len() && trim_end(rest, class) == rest.take(j) && forall|k: int|
                j <= k < rest.len() ==> in_class(#[trigger] rest[k], class);
        assert(rest.take(j) =~= s.take(j));
        assert forall|k: int| j <= k < s.len() implies in_class(#[trigger] s[k], class) by {
            if k < s.len() - 1 {
                assert(s[k] == rest[k]);
            }
        }
    } else {
        assert(s.take(s.len() as int) =~= s);
    }
}

/// Trimming removes characters of the class from the two ends only: the
/// result is a stretch of the text, and everything cut off on either side
/// is of the class.
pub proof fn lemma_trim_is_inner_stretch(s: Seq<char>, class: CharClass)
    ensures
        exists|i: int, j: int|
            0 <= i <= j <= s.len() && trim(s, class) == s.subrange(i, j) && (forall|k: int|
                0 <= k < i ==> in_class(#[trigger] s[k], class)) && (forall|k: int|
                j <= k < s.len() ==> in_class(#[trigger] s[k], class)),
{
    lemma_trim_start_is_suffix(s, class);
    let i = choose|i: int|
        0 <= i <= s.len() && trim_start(s, class) == s.skip(i) && forall|k: int|
            0 <= k < i ==> in_class(#[trigger] s[k], class);
    let t = s.skip(i);
    lemma_trim_end_is_prefix(t, class);
    let j = choose|j: int|
        0 <= j <= t.len() && trim_end(t, class) == t.take(j) && forall|k: int|
            j <= k < t.len() ==> in_class(#[trigger] t[k], class);
    assert(t.take(j) =~= s.subrange(i, i + j));
    assert forall|k: int| i + j <= k < s.len() implies in_class(#[trigger] s[k], class) by {
        assert(s[k] == t[k - i]);
    }
}

/// A text with no white space at its ends is left as it is by trimming.
pub proof fn lemma_trim_keeps_clean_text(s: Seq<char>)
    requires
        no_outer_white_space(s),
    ensures
        trim_ws(s) == s,
{
    if s.len() > 0 {
        assert(trim_start(s, CharClass::WhiteSpace) == s);
        assert(trim_end(s, CharClass::WhiteSpace) == s);
    }
}

// ---------------------------------------------------------------------------
// Commands
// ---------------------------------------------------------------------------

/// `/prompt` takes the whole text after the command word, trimmed, later
/// lines included.
pub proof fn lemma_prompt_takes_whole_text(s: Seq<char>)
    requires
        !occurs_at(s, "/prompt"@, 0),
    ensures
        command_of("/prompt"@ + s) == CommandView::Prompt(trim_ws(s)),
{
    reveal_strlit("/prompt");
    reveal_strlit("/clear_user_table");
    reveal_strlit("/export_csv");
    reveal_strlit("/start");
    reveal_strlit("/help");
    let p = "/prompt"@;
    let text = p + s;
    assert(text[1] == 'p');
    assert("/clear_user_table"@[1] == 'c');
    assert("/export_csv"@[1] == 'e');
    assert("/start"@[1] == 's');
    assert("/help"@[1] == 'h');
    assert(text.subrange(0, p.len() as int) =~= p);
    assert(occurs_at(text, p, 0));
    assert(text.skip(p.len() as int) =~= s);
    assert(strip_prefix_repeated(text, p) == strip_prefix_repeated(s, p));
    assert(strip_prefix_repeated(s, p) == s);
}

/// `/params` likewise takes the whole text after the command word,
/// trimmed.
pub proof fn lemma_params_takes_whole_text(s: Seq<char>)
    requires
        !occurs_at(s, "/params"@, 0),
    ensures
        command_of("/params"@ + s) == CommandView::Params(trim_ws(s)),
{
    reveal_strlit("/params");
    reveal_strlit("/prompt");
    reveal_strlit("/clear_user_table");
    reveal_strlit("/export_csv");
    reveal_strlit("/start");
    reveal_strlit("/help");
    let p = "/params"@;
    let text = p + s;
    assert(text[1] == 'p');
    assert(text[2] == 'a');
    assert("/prompt"@[2] == 'r');
    assert(!occurs_at(text, "/prompt"@, 0)) by {
        if occurs_at(text, "/prompt"@, 0) {
            assert(text.subrange(0, 7)[2] == text[2]);
        }
    }
    assert("/clear_user_table"@[1] == 'c');
    assert("/export_csv"@[1] == 'e');
    assert("/start"@[1] == 's');
    assert("/help"@[1] == 'h');
    assert(text.subrange(0, p.len() as int) =~= p);
    assert(occurs_at(text, p, 0));
    assert(text.skip(p.len() as int) =~= s);
    assert(strip_prefix_repeated(text, p) == strip_prefix_repeated(s, p));
    assert(strip_prefix_repeated(s, p) == s);
}

} // verus!
