//! One round of the survey conversation: the bot asks the model for the
//! next question, records the parameter values the model recognised (and
//! then asks again, at most three times in all), and finally charges the
//! user the tokens spent.
use vstd::prelude::*;

use crate::reply::{args_view, FunctionArg, FunctionArgView, GptAnswer};
use crate::survey::{
    gpt_messages, GptMessage, MessageView, ParamView, UserDataView, UserSurvey, UserSurveyView,
    messages_view,
};
use crate::text::{decimal, owned, push_decimal};

verus! {

/// The model the bot asks.
pub const MODEL: &'static str = "gpt-3.5-turbo";

/// A request to the model: the messages, and whether the `set_params` tool
/// (which records parameter values by position) is offered.
pub struct ChatRequest {
    pub model: String,
    pub messages: Vec<GptMessage>,
    pub offer_set_params: bool,
}

pub struct ChatRequestView {
    pub model: Seq<char>,
    pub messages: Seq<MessageView>,
    pub offer_set_params: bool,
}

impl View for ChatRequest {
    type V = ChatRequestView;

    open spec fn view(&self) -> ChatRequestView {
        ChatRequestView {
            model: self.model@,
            messages: messages_view(self.messages@),
            offer_set_params: self.offer_set_params,
        }
    }
}

/// The request for `messages` in a survey with the parameters `params`: the
/// tool is offered when there is a parameter to set.
pub fn chat_request(messages: Vec<GptMessage>, params: &Vec<String>) -> (r: ChatRequest)
    ensures
        r@ == (ChatRequestView {
            model: MODEL@,
            messages: messages_view(messages@),
            offer_set_params: params@.len() > 0,
        }),
{
    ChatRequest { model: owned(MODEL), messages, offer_set_params: params.len() > 0 }
}

/// What to do next in a round: answer the user, or ask the model.
pub enum QuestionStep {
    Reply { spent_tokens: i64, question: String },
    AskModel(ChatRequest),
}

pub enum QuestionStepView {
    Reply { spent_tokens: i64, question: Seq<char> },
    AskModel(ChatRequestView),
}

impl View for QuestionStep {
    type V = QuestionStepView;

    open spec fn view(&self) -> QuestionStepView {
        match self {
            QuestionStep::Reply { spent_tokens, question } => QuestionStepView::Reply {
                spent_tokens: *spent_tokens,
                question: question@,
            },
            QuestionStep::AskModel(req) => QuestionStepView::AskModel(req@),
        }
    }
}

/// The step of a round at its `counter`-th attempt, with `tokens` spent in
/// the round so far: after three attempts the round gives up, a user out of
/// tokens is bid goodbye, and otherwise the model is asked.
pub open spec fn question_step(u: UserSurveyView, counter: u8, tokens: i64) -> QuestionStepView {
    if counter > 3 {
        QuestionStepView::Reply { spent_tokens: tokens, question: "Error get question"@ }
    } else if u.tokens < 0 {
        QuestionStepView::Reply { spent_tokens: tokens, question: "Have a great day!"@ }
    } else {
        QuestionStepView::AskModel(
            ChatRequestView {
                model: MODEL@,
                messages: gpt_messages(u),
                offer_set_params: u.config.params.len() > 0,
            },
        )
    }
}

/// The note the bot adds to the conversation when a parameter is set.
pub open spec fn param_note(index: i32, name: Seq<char>, value: Seq<char>) -> Seq<char> {
    "Param ["@ + decimal(index as nat) + "] "@ + name + " set to "@ + value + "!"@
}

/// `d` with the parameter at position `i` given `value`.
pub open spec fn with_param_value(d: UserDataView, i: int, value: Seq<char>) -> UserDataView {
    UserDataView {
        params: d.params.update(i, ParamView { value: Some(value), ..d.params[i] }),
        messages: d.messages,
    }
}

/// `d` after recording `args` in order: each sets its parameter and adds a
/// system note about it.
pub open spec fn apply_args(d: UserDataView, args: Seq<FunctionArgView>) -> UserDataView
    decreases args.len(),
{
    if args.len() == 0 {
        d
    } else {
        let prev = apply_args(d, args.drop_last());
        let a = args.last();
        let i = a.index as int;
        let set = with_param_value(prev, i, a.value);
        UserDataView {
            params: set.params,
            messages: set.messages.push(
                MessageView {
                    role: "system"@,
                    content: param_note(a.index, prev.params[i].name, a.value),
                },
            ),
        }
    }
}

/// Every argument names a parameter position of `d`.
pub open spec fn args_in_range(d: UserDataView, args: Seq<FunctionArgView>) -> bool {
    forall|k: int| 0 <= k < args.len() ==> 0 <= #[trigger] args[k].index < d.params.len()
}

/// What the model answered, as a round reads it.
pub enum ModelAnswerView {
    Question(Seq<char>),
    SetParams(Seq<FunctionArgView>),
}

impl View for GptAnswer {
    type V = ModelAnswerView;

    open spec fn view(&self) -> ModelAnswerView {
        match self {
            GptAnswer::Question(q) => ModelAnswerView::Question(q@),
            GptAnswer::FunctionCallArgs(args) => ModelAnswerView::SetParams(args_view(args@)),
        }
    }
}

/// One reply of the model: its answer and the tokens it cost.
pub struct ModelReplyView {
    pub answer: ModelAnswerView,
    pub spent_tokens: i64,
}

/// How a round went: the requests made to the model, whether it came to an
/// end, the tokens spent in it, the text for the user, and the survey after
/// it.
pub struct RoundView {
    pub requests: nat,
    pub finished: bool,
    pub spent_tokens: int,
    pub question: Seq<char>,
    pub survey: UserSurveyView,
}

/// A round at its `counter`-th attempt, with `tokens` spent so far, when the
/// model gives `replies` in order: each step is `question_step`, and each
/// reply is taken in as `apply_gpt_answer` does. It stays unfinished only
/// when it runs out of replies.
pub open spec fn round(
    u: UserSurveyView,
    counter: u8,
    tokens: i64,
    replies: Seq<ModelReplyView>,
) -> RoundView
    decreases replies.len(),
{
    match question_step(u, counter, tokens) {
        QuestionStepView::Reply { spent_tokens, question } => RoundView {
            requests: 0,
            finished: true,
            spent_tokens: spent_tokens as int,
            question,
            survey: u,
        },
        QuestionStepView::AskModel(_) => if replies.len() == 0 {
            RoundView {
                requests: 0,
                finished: false,
                spent_tokens: tokens as int,
                question: Seq::empty(),
                survey: u,
            }
        } else {
            let reply = replies[0];
            match reply.answer {
                ModelAnswerView::Question(q) => RoundView {
                    requests: 1,
                    finished: true,
                    spent_tokens: reply.spent_tokens + tokens,
                    question: q,
                    survey: u,
                },
                ModelAnswerView::SetParams(args) => {
                    let next = round(
                        UserSurveyView { data: apply_args(u.data, args), ..u },
                        (counter + 1) as u8,
                        (reply.spent_tokens + tokens) as i64,
                        replies.drop_first(),
                    );
                    RoundView { requests: next.requests + 1, ..next }
                },
            }
        },
    }
}

/// The tokens the first `n` replies cost together.
pub open spec fn spent_sum(replies: Seq<ModelReplyView>, n: nat) -> int
    decreases n,
{
    if n == 0 || replies.len() == 0 {
        0
    } else {
        replies[0].spent_tokens + spent_sum(replies.drop_first(), (n - 1) as nat)
    }
}

/// How a round goes on after the model answered.
pub enum AnswerOutcome {
    Done { spent_tokens: i64, question: String },
    AskAgain { counter: u8, tokens: i64 },
}

pub enum AnswerOutcomeView {
    Done { spent_tokens: i64, question: Seq<char> },
    AskAgain { counter: u8, tokens: i64 },
}

impl View for AnswerOutcome {
    type V = AnswerOutcomeView;

    open spec fn view(&self) -> AnswerOutcomeView {
        match self {
            AnswerOutcome::Done { spent_tokens, question } => AnswerOutcomeView::Done {
                spent_tokens: *spent_tokens,
                question: question@,
            },
            AnswerOutcome::AskAgain { counter, tokens } => AnswerOutcomeView::AskAgain {
                counter: *counter,
                tokens: *tokens,
            },
        }
    }
}

impl UserSurvey {
    /// Gives the parameter at position `arg.index` the value `arg.value`, and
    /// returns the parameter's name.
    pub fn set_param(&mut self, arg: &FunctionArg) -> (name: String)
        requires
            0 <= arg.index < old(self).data.params@.len(),
        ensures
            name@ == old(self)@.data.params[arg.index as int].name,
            final(self)@ == (UserSurveyView {
                data: with_param_value(old(self)@.data, arg.index as int, arg.value@),
                ..old(self)@
            }),
    {
        let i = arg.index as usize;
        let name = self.data.params[i].name.clone();
        let p = crate::survey::Param {
            index: self.data.params[i].index,
            name: self.data.params[i].name.clone(),
            value: Some(arg.value.clone()),
        };
        let ghost before = self.data.params@;
        self.data.params.set(i, p);
        assert(crate::survey::params_view(self.data.params@) =~= crate::survey::params_view(
            before,
        ).update(i as int, p@));
        assert(final(self)@.data =~= with_param_value(old(self)@.data, arg.index as int, arg.value@));
        name
    }

    /// The next step of a round (see `question_step`).
    pub fn question_step(&self, counter: u8, tokens: i64) -> (r: QuestionStep)
        ensures
            r@ == question_step(self@, counter, tokens),
    {
        if counter > 3 {
            return QuestionStep::Reply { spent_tokens: tokens, question: owned("Error get question") };
        }
        if self.tokens < 0 {
            return QuestionStep::Reply { spent_tokens: tokens, question: owned("Have a great day!") };
        }
        let messages = self.get_gpt_messages();
        QuestionStep::AskModel(chat_request(messages, &self.survey_config.params))
    }

    /// Records the values in `args` in order, each with a note for the model.
    pub fn apply_function_args(&mut self, args: &Vec<FunctionArg>)
        requires
            args_in_range(old(self)@.data, args_view(args@)),
        ensures
            final(self)@ == (UserSurveyView {
                data: apply_args(old(self)@.data, args_view(args@)),
                ..old(self)@
            }),
    {
        let n = args.len();
        let ghost av = args_view(args@);
        for k in 0..n
            invariant
                n == args@.len(),
                av == args_view(args@),
                args_in_range(old(self)@.data, av),
                self@ == (UserSurveyView {
                    data: apply_args(old(self)@.data, av.take(k as int)),
                    ..old(self)@
                }),
                self.data.params@.len() == old(self).data.params@.len(),
        {
            assert(av.take(k + 1).drop_last() =~= av.take(k as int));
            assert(av.take(k + 1).last() == args@[k as int]@);
            let arg = &args[k];
            assert(0 <= av[k as int].index < old(self)@.data.params.len());
            let name = self.set_param(arg);
            assert(self@.data.params.len() == self.data.params@.len());
            let mut note = owned("Param [");
            push_decimal(&mut note, arg.index as u64);
            note.append("] ");
            note.append(name.as_str());
            note.append(" set to ");
            note.append(arg.value.as_str());
            note.append("!");
            assert(note@ =~= param_note(arg.index, name@, arg.value@));
            self.add_system_text(note.as_str());
            assert(self@.data.params.len() == self.data.params@.len());
        }
        assert(av.take(n as int) =~= av);
    }

    /// Takes in what the model answered at the `counter`-th attempt, having
    /// spent `spent_tokens` on it and `tokens` before in the round: a
    /// question ends the round; recorded parameter values lead to another
    /// attempt.
    pub fn apply_gpt_answer(&mut self, answer: GptAnswer, spent_tokens: i64, counter: u8, tokens: i64) -> (r: AnswerOutcome)
        requires
            counter <= 3,
            i64::MIN <= spent_tokens + tokens <= i64::MAX,
            answer matches GptAnswer::FunctionCallArgs(args) ==> args_in_range(
                old(self)@.data,
                args_view(args@),
            ),
        ensures
            match answer {
                GptAnswer::Question(q) => {
                    &&& final(self)@ == old(self)@
                    &&& r@ == AnswerOutcomeView::Done {
                        spent_tokens: (spent_tokens + tokens) as i64,
                        question: q@,
                    }
                },
                GptAnswer::FunctionCallArgs(args) => {
                    &&& final(self)@ == (UserSurveyView {
                        data: apply_args(old(self)@.data, args_view(args@)),
                        ..old(self)@
                    })
                    &&& r@ == AnswerOutcomeView::AskAgain {
                        counter: (counter + 1) as u8,
                        tokens: (spent_tokens + tokens) as i64,
                    }
                },
            },
    {
        match answer {
            GptAnswer::Question(question) => AnswerOutcome::Done {
                spent_tokens: spent_tokens + tokens,
                question,
            },
            GptAnswer::FunctionCallArgs(args) => {
                self.apply_function_args(&args);
                AnswerOutcome::AskAgain { counter: counter + 1, tokens: spent_tokens + tokens }
            },
        }
    }

    /// Whether every argument names a parameter position of this user.
    pub fn args_fit(&self, args: &Vec<FunctionArg>) -> (b: bool)
        ensures
            b == args_in_range(self@.data, args_view(args@)),
    {
        let n = args.len();
        for k in 0..n
            invariant
                n == args@.len(),
                forall|j: int| 0 <= j < k ==> 0 <= #[trigger] args_view(args@)[j].index < self@.data.params.len(),
        {
            if args[k].index < 0 || args[k].index as usize >= self.data.params.len() {
                assert(args_view(args@)[k as int].index == args@[k as int].index);
                return false;
            }
        }
        true
    }

    /// Ends a round: the user is charged `spent_tokens` and the model's
    /// question becomes part of the conversation.
    pub fn record_question(&mut self, spent_tokens: i64, question: &str)
        requires
            i64::MIN <= old(self).tokens - spent_tokens <= i64::MAX,
        ensures
            final(self)@ == (UserSurveyView {
                tokens: (old(self).tokens - spent_tokens) as i64,
                data: UserDataView {
                    messages: old(self)@.data.messages.push(
                        MessageView { role: "assistant"@, content: question@ },
                    ),
                    ..old(self)@.data
                },
                ..old(self)@
            }),
    {
        self.tokens = self.tokens - spent_tokens;
        self.add_assistant_question(question);
    }
}

} // verus!
