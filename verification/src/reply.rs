//! Reading the chat-completion reply of the language model: either a
//! question for the user, or a call of the `set_params` tool with the
//! parameter values it has recognised.
use vstd::prelude::*;

use crate::json::{
    as_array, as_i64, as_str, element, get_array, get_element, get_i64, get_member, get_str,
    member, Json,
};
use crate::text::{
    chars_of, owned, remove_char, remove_char_chars, string_from_chars, trim, trim_chars, CharClass,
};

verus! {

/// A value the model asks to record: the parameter at position `index`
/// gets `value`.
pub struct FunctionArg {
    pub index: i32,
    pub value: String,
}

pub struct FunctionArgView {
    pub index: i32,
    pub value: Seq<char>,
}

impl View for FunctionArg {
    type V = FunctionArgView;

    open spec fn view(&self) -> FunctionArgView {
        FunctionArgView { index: self.index, value: self.value@ }
    }
}

pub open spec fn args_view(args: Seq<FunctionArg>) -> Seq<FunctionArgView> {
    args.map_values(|a: FunctionArg| a@)
}

/// What the model answered: a question to put to the user, or parameter
/// values to record.
pub enum GptAnswer {
    Question(String),
    FunctionCallArgs(Vec<FunctionArg>),
}

/// The reply of the model, as far as the first reading of it goes: the
/// arguments of a tool call are text still to be read as JSON.
pub enum Completion {
    ToolCall { arguments: String, spent_tokens: i64 },
    Question { content: String, spent_tokens: i64 },
    UnknownFinishReason,
}

pub enum CompletionView {
    ToolCall { arguments: Seq<char>, spent_tokens: i64 },
    Question { content: Seq<char>, spent_tokens: i64 },
    UnknownFinishReason,
}

impl View for Completion {
    type V = CompletionView;

    open spec fn view(&self) -> CompletionView {
        match self {
            Completion::ToolCall { arguments, spent_tokens } => CompletionView::ToolCall {
                arguments: arguments@,
                spent_tokens: *spent_tokens,
            },
            Completion::Question { content, spent_tokens } => CompletionView::Question {
                content: content@,
                spent_tokens: *spent_tokens,
            },
            Completion::UnknownFinishReason => CompletionView::UnknownFinishReason,
        }
    }
}

/// `choices[0]` of the reply.
pub open spec fn first_choice(v: Json) -> Option<Json> {
    element(member(Some(v), "choices"@), 0)
}

/// `choices[0].finish_reason`, empty when it is not a string.
pub open spec fn finish_reason(v: Json) -> Seq<char> {
    match as_str(member(first_choice(v), "finish_reason"@)) {
        Some(s) => s,
        None => Seq::empty(),
    }
}

/// `usage.total_tokens`, 0 when it is not an `i64`.
pub open spec fn spent_tokens(v: Json) -> i64 {
    match as_i64(member(member(Some(v), "usage"@), "total_tokens"@)) {
        Some(n) => n,
        None => 0,
    }
}

/// `choices[0].message`.
pub open spec fn first_message(v: Json) -> Option<Json> {
    member(first_choice(v), "message"@)
}

/// `choices[0].message.tool_calls[0].function.arguments`, empty when it is
/// not a string.
pub open spec fn raw_tool_arguments(v: Json) -> Seq<char> {
    let call = element(member(first_message(v), "tool_calls"@), 0);
    match as_str(member(member(call, "function"@), "arguments"@)) {
        Some(s) => s,
        None => Seq::empty(),
    }
}

/// The tool arguments without backslashes and without quotes around them.
pub open spec fn tool_arguments(v: Json) -> Seq<char> {
    trim(remove_char(raw_tool_arguments(v), '\\'), CharClass::Only('"'))
}

/// `choices[0].message.content`, empty when it is not a string.
pub open spec fn message_content(v: Json) -> Seq<char> {
    match as_str(member(first_message(v), "content"@)) {
        Some(s) => s,
        None => Seq::empty(),
    }
}

/// The reading of a reply: a tool call when the model finished for
/// `tool_calls`, a question when it finished for `stop`.
pub open spec fn completion_of(v: Json) -> CompletionView {
    if finish_reason(v) == "tool_calls"@ {
        CompletionView::ToolCall { arguments: tool_arguments(v), spent_tokens: spent_tokens(v) }
    } else if finish_reason(v) == "stop"@ {
        CompletionView::Question { content: message_content(v), spent_tokens: spent_tokens(v) }
    } else {
        CompletionView::UnknownFinishReason
    }
}

/// One entry of `to_set`: its `index` as an `i64` cut to `i32`, and its
/// `value` as a string; nothing when either is missing.
pub open spec fn arg_of(item: Json) -> Option<FunctionArgView> {
    match (as_i64(member(Some(item), "index"@)), as_str(member(Some(item), "value"@))) {
        (Some(i), Some(s)) => Some(FunctionArgView { index: i as i32, value: s }),
        _ => None,
    }
}

/// The entries of `to_set`, when every one of them reads.
pub open spec fn args_of(items: Seq<Json>) -> Option<Seq<FunctionArgView>>
    decreases items.len(),
{
    if items.len() == 0 {
        Some(Seq::empty())
    } else {
        match (args_of(items.drop_last()), arg_of(items.last())) {
            (Some(prev), Some(a)) => Some(prev.push(a)),
            _ => None,
        }
    }
}

/// The tool arguments: the entries of the `to_set` array, when there is one
/// and every entry reads.
pub open spec fn function_args(v: Json) -> Option<Seq<FunctionArgView>> {
    match as_array(member(Some(v), "to_set"@)) {
        Some(items) => args_of(items),
        None => None,
    }
}

fn str_or_empty(s: Option<&String>) -> (r: String)
    ensures
        r@ == match s {
            Some(t) => t@,
            None => Seq::<char>::empty(),
        },
{
    match s {
        Some(t) => t.clone(),
        None => String::new(),
    }
}

/// Reads the reply of the model (the parsed response body).
pub fn read_completion(v: &Json) -> (r: Completion)
    ensures
        r@ == completion_of(*v),
{
    let root = Some(v);
    let choice = get_element(get_member(root, "choices"), 0);
    let finish = str_or_empty(get_str(get_member(choice, "finish_reason")));
    let spent = match get_i64(get_member(get_member(root, "usage"), "total_tokens")) {
        Some(n) => n,
        None => 0,
    };
    let message = get_member(choice, "message");
    if finish.eq(&owned("tool_calls")) {
        let call = get_element(get_member(message, "tool_calls"), 0);
        let raw = str_or_empty(get_str(get_member(get_member(call, "function"), "arguments")));
        let unescaped = remove_char_chars(&chars_of(raw.as_str()), '\\');
        let arguments = string_from_chars(&trim_chars(&unescaped, CharClass::Only('"')));
        Completion::ToolCall { arguments, spent_tokens: spent }
    } else if finish.eq(&owned("stop")) {
        let content = str_or_empty(get_str(get_member(message, "content")));
        Completion::Question { content, spent_tokens: spent }
    } else {
        Completion::UnknownFinishReason
    }
}

/// Reads the tool arguments (the parsed arguments text): the `to_set`
/// entries in order, or nothing when `to_set` is not an array or one of its
/// entries lacks an integer `index` or a string `value`.
pub fn read_function_args(v: &Json) -> (r: Option<Vec<FunctionArg>>)
    ensures
        match r {
            Some(args) => function_args(*v) == Some(args_view(args@)),
            None => function_args(*v) is None,
        },
{
    let items = match get_array(get_member(Some(v), "to_set")) {
        Some(items) => items,
        None => {
            return None;
        },
    };
    let n = items.len();
    let mut args: Vec<FunctionArg> = Vec::new();
    for k in 0..n
        invariant
            n == items@.len(),
            function_args(*v) == args_of(items@),
            args_of(items@.take(k as int)) == Some(args_view(args@)),
    {
        assert(items@.take(k + 1).drop_last() =~= items@.take(k as int));
        let item = Some(&items[k]);
        let index = get_i64(get_member(item, "index"));
        let value = get_str(get_member(item, "value"));
        match (index, value) {
            (Some(i), Some(s)) => {
                let a = FunctionArg { index: i as i32, value: s.clone() };
                let ghost before = args@;
                args.push(a);
                assert(args_view(args@) =~= args_view(before).push(a@));
            },
            _ => {
                assert(args_of(items@.take(k + 1)) is None);
                proof {
                    lemma_args_of_prefix_none(items@, k + 1);
                }
                return None;
            },
        }
    }
    assert(items@.take(n as int) =~= items@);
    Some(args)
}

proof fn lemma_args_of_prefix_none(items: Seq<Json>, k: int)
    requires
        0 <= k <= items.len(),
        args_of(items.take(k)) is None,
    ensures
        args_of(items) is None,
    decreases items.len() - k,
{
    if k < items.len() {
        assert(items.take(k + 1).drop_last() =~= items.take(k));
        lemma_args_of_prefix_none(items, k + 1);
    } else {
        assert(items.take(k) =~= items);
    }
}

} // verus!
