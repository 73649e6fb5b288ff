//! The survey: its configuration (the parameters to collect and the prompt
//! for the model), what is stored for each user (the collected parameter
//! values and the conversation so far), and how a user's conversation is
//! turned into the messages sent to the model.
use vstd::prelude::*;

use crate::text::{
    chars_of, decimal, owned, push_decimal, replace_first_chars, replace_first, string_from_chars,
    strings_view,
};

verus! {

/// The text in a prompt that stands for the list of parameters.
pub const PROMPT_PARAMS_TEMPLATE: &'static str = "{params}";

/// The prompt a new survey starts with.
pub const DEFAULT_PROMPT: &'static str = "# Character\nYou are an HR specialist at Google Meta. Your task is to interview candidates for the position of Marketing Manager.\n\n## Skills\n\n### Skill 1: Gathering Candidate Information\n- Inquire about the following:\n{params}\n\n## Constraints:\n- Ensure the conversation continues until all information is gathered. Once complete, bid farewell and inform the candidate that they will receive a response regarding their candidacy via the provided email address or phone number. Provide these contact details in your closing statement. No need to ask more if there is nothing in \"Inquire about the following\". If person ask to change data, do it.";

/// The bytes of conversation history (with the system message) that are sent
/// to the model at most.
pub const HISTORY_LIMIT: usize = 10000;

/// The tokens a user may spend before the survey says goodbye.
pub const MAX_USER_TOKENS: i64 = 5000;

// ---------------------------------------------------------------------------
// Data
// ---------------------------------------------------------------------------

/// What the survey asks for (`params`) and how the model is instructed
/// (`prompt`, in which `{params}` is replaced by the parameter listing).
pub struct SurveyConfig {
    pub params: Vec<String>,
    pub prompt: String,
}

/// One collected parameter of a user: its position in the survey, its name
/// and, once the user gave it, its value.
pub struct Param {
    pub index: u16,
    pub name: String,
    pub value: Option<String>,
}

/// One message of the conversation with the model.
pub struct GptMessage {
    pub role: String,
    pub content: String,
}

/// Everything stored for one user.
pub struct UserData {
    pub params: Vec<Param>,
    pub messages: Vec<GptMessage>,
}

/// One user's survey in progress.
pub struct UserSurvey {
    pub chat_id: i64,
    pub tokens: i64,
    pub survey_config: SurveyConfig,
    pub data: UserData,
}

// ---------------------------------------------------------------------------
// Views
// ---------------------------------------------------------------------------

pub struct SurveyConfigView {
    pub params: Seq<Seq<char>>,
    pub prompt: Seq<char>,
}

pub struct ParamView {
    pub index: u16,
    pub name: Seq<char>,
    pub value: Option<Seq<char>>,
}

pub struct MessageView {
    pub role: Seq<char>,
    pub content: Seq<char>,
}

pub struct UserDataView {
    pub params: Seq<ParamView>,
    pub messages: Seq<MessageView>,
}

pub struct UserSurveyView {
    pub chat_id: i64,
    pub tokens: i64,
    pub config: SurveyConfigView,
    pub data: UserDataView,
}

pub open spec fn opt_string_view(o: Option<String>) -> Option<Seq<char>> {
    match o {
        Some(s) => Some(s@),
        None => None,
    }
}

impl View for SurveyConfig {
    type V = SurveyConfigView;

    open spec fn view(&self) -> SurveyConfigView {
        SurveyConfigView { params: strings_view(self.params@), prompt: self.prompt@ }
    }
}

impl View for Param {
    type V = ParamView;

    open spec fn view(&self) -> ParamView {
        ParamView { index: self.index, name: self.name@, value: opt_string_view(self.value) }
    }
}

impl View for GptMessage {
    type V = MessageView;

    open spec fn view(&self) -> MessageView {
        MessageView { role: self.role@, content: self.content@ }
    }
}

pub open spec fn params_view(v: Seq<Param>) -> Seq<ParamView> {
    v.map_values(|p: Param| p@)
}

pub open spec fn messages_view(v: Seq<GptMessage>) -> Seq<MessageView> {
    v.map_values(|m: GptMessage| m@)
}

impl View for UserData {
    type V = UserDataView;

    open spec fn view(&self) -> UserDataView {
        UserDataView { params: params_view(self.params@), messages: messages_view(self.messages@) }
    }
}

impl View for UserSurvey {
    type V = UserSurveyView;

    open spec fn view(&self) -> UserSurveyView {
        UserSurveyView {
            chat_id: self.chat_id,
            tokens: self.tokens,
            config: self.survey_config@,
            data: self.data@,
        }
    }
}

impl Clone for GptMessage {
    fn clone(&self) -> (r: GptMessage)
        ensures
            r@ == self@,
    {
        GptMessage { role: self.role.clone(), content: self.content.clone() }
    }
}

// ---------------------------------------------------------------------------
// Specifications
// ---------------------------------------------------------------------------

/// The parameters a new survey asks for.
pub open spec fn default_params() -> Seq<Seq<char>> {
    seq!["Name"@, "Phone"@]
}

/// `prompt` with its first `{params}` replaced by `listing`.
pub open spec fn formatted_prompt(prompt: Seq<char>, listing: Seq<char>) -> Seq<char> {
    replace_first(prompt, PROMPT_PARAMS_TEMPLATE@, listing)
}

/// The collected parameters of a user who has not answered anything yet:
/// one per survey parameter, numbered by position, without a value.
pub open spec fn default_params_data(names: Seq<Seq<char>>) -> Seq<ParamView> {
    Seq::new(names.len(), |i: int| ParamView { index: i as u16, name: names[i], value: None })
}

/// What is stored for a user who has not answered anything yet.
pub open spec fn default_user_data(names: Seq<Seq<char>>) -> UserDataView {
    UserDataView { params: default_params_data(names), messages: Seq::empty() }
}

pub open spec fn stored_view(stored: Option<(i64, Option<UserData>)>) -> Option<(i64, Option<UserDataView>)> {
    match stored {
        Some((tokens, Some(d))) => Some((tokens, Some(d@))),
        Some((tokens, None)) => Some((tokens, None)),
        None => None,
    }
}

/// The user's tokens and data from what is stored (`Some((tokens, data))`,
/// where `data` is `None` when the stored text does not read back), falling
/// back to a fresh user when asked to; the flag tells whether it fell back.
pub open spec fn resolved_user_data(
    stored: Option<(i64, Option<UserDataView>)>,
    names: Seq<Seq<char>>,
    or_default: bool,
) -> (Option<(i64, UserDataView)>, bool) {
    match stored {
        Some((tokens, Some(d))) => (Some((tokens, d)), false),
        _ => if or_default {
            (Some((MAX_USER_TOKENS, default_user_data(names))), true)
        } else {
            (None, false)
        },
    }
}

/// The value the user gave for the parameter at position `i`: the last
/// collected parameter numbered `i` that has a value.
pub open spec fn known_value(params: Seq<ParamView>, i: int) -> Option<Seq<char>>
    decreases params.len(),
{
    if params.len() == 0 {
        None
    } else if params.last().index as int == i && params.last().value is Some {
        params.last().value
    } else {
        known_value(params.drop_last(), i)
    }
}

/// The line of the parameter listing for the parameter at position `i`.
pub open spec fn param_line(i: nat, name: Seq<char>, known: Option<Seq<char>>) -> Seq<char> {
    match known {
        Some(v) => "["@ + decimal(i) + "] - "@ + name + " - "@ + v + " (already set)\n"@,
        None => "["@ + decimal(i) + "] - "@ + name + " - ? (need to ask)\n"@,
    }
}

/// The listing of the survey parameters `names`, each marked with the value
/// the user gave or as still to be asked.
pub open spec fn params_listing(names: Seq<Seq<char>>, params: Seq<ParamView>) -> Seq<char>
    decreases names.len(),
{
    if names.len() == 0 {
        Seq::empty()
    } else {
        params_listing(names.drop_last(), params) + param_line(
            (names.len() - 1) as nat,
            names.last(),
            known_value(params, names.len() - 1),
        )
    }
}

/// The number of bytes a character takes in UTF-8.
pub open spec fn utf8_width(c: char) -> nat {
    if c as u32 <= 0x7f {
        1
    } else if c as u32 <= 0x7ff {
        2
    } else if c as u32 <= 0xffff {
        3
    } else {
        4
    }
}

/// The number of bytes of the UTF-8 encoding of `s` (what `str::len` gives).
pub open spec fn utf8_len(s: Seq<char>) -> nat
    decreases s.len(),
{
    if s.len() == 0 {
        0
    } else {
        utf8_len(s.drop_last()) + utf8_width(s.last())
    }
}

/// How many of the last messages fit, together, in `budget` bytes of content:
/// messages are taken from the newest back, up to the first that no longer
/// fits.
pub open spec fn history_fit(budget: int, msgs: Seq<MessageView>) -> nat
    decreases msgs.len(),
{
    if msgs.len() == 0 {
        0
    } else if utf8_len(msgs.last().content) > budget {
        0
    } else {
        1 + history_fit(budget - utf8_len(msgs.last().content), msgs.drop_last())
    }
}

/// The system message for a user: the prompt with the parameter listing.
pub open spec fn system_message(u: UserSurveyView) -> MessageView {
    MessageView {
        role: "system"@,
        content: formatted_prompt(u.config.prompt, params_listing(u.config.params, u.data.params)),
    }
}

/// The messages sent to the model: the system message, then the newest
/// messages of the conversation, oldest first, as many as fit with the system
/// message in `HISTORY_LIMIT` bytes of content.
pub open spec fn gpt_messages(u: UserSurveyView) -> Seq<MessageView> {
    let system = system_message(u);
    let msgs = u.data.messages;
    let kept = history_fit(HISTORY_LIMIT - utf8_len(system.content), msgs);
    seq![system] + msgs.skip(msgs.len() - kept)
}

// ---------------------------------------------------------------------------
// Byte lengths
// ---------------------------------------------------------------------------

proof fn lemma_utf8_len_append(a: Seq<char>, b: Seq<char>)
    ensures
        utf8_len(a + b) == utf8_len(a) + utf8_len(b),
    decreases b.len(),
{
    if b.len() == 0 {
        assert(a + b =~= a);
    } else {
        assert((a + b).drop_last() =~= a + b.drop_last());
        lemma_utf8_len_append(a, b.drop_last());
    }
}

/// `utf8_len` is the length of `encode_utf8`, the byte sequence that
/// `str::len` counts.
pub proof fn lemma_utf8_len_is_encoded_length(s: Seq<char>)
    ensures
        utf8_len(s) == vstd::utf8::encode_utf8(s).len(),
    decreases s.len(),
{
    if s.len() > 0 {
        let c = s[0];
        vstd::utf8::char_is_scalar(c);
        assert(vstd::utf8::encode_scalar(c as u32).len() == utf8_width(c));
        assert(vstd::utf8::encode_utf8(s) == vstd::utf8::encode_scalar(c as u32)
            + vstd::utf8::encode_utf8(s.drop_first()));
        lemma_utf8_len_is_encoded_length(s.drop_first());
        lemma_utf8_len_append(seq![c], s.drop_first());
        assert(seq![c] + s.drop_first() =~= s);
        assert(seq![c].drop_last() =~= Seq::<char>::empty());
        assert(utf8_len(Seq::<char>::empty()) == 0);
        assert(seq![c].last() == c);
        assert(utf8_len(seq![c]) == utf8_width(c));
    }
}

proof fn lemma_utf8_len_take_monotone(s: Seq<char>, i: int, j: int)
    requires
        0 <= i <= j <= s.len(),
    ensures
        utf8_len(s.take(i)) <= utf8_len(s.take(j)),
    decreases j - i,
{
    if i < j {
        lemma_utf8_len_take_monotone(s, i, j - 1);
        assert(s.take(j).drop_last() =~= s.take(j - 1));
    }
}

fn char_width(c: char) -> (w: usize)
    ensures
        w == utf8_width(c),
{
    if (c as u32) <= 0x7f {
        1
    } else if (c as u32) <= 0x7ff {
        2
    } else if (c as u32) <= 0xffff {
        3
    } else {
        4
    }
}

/// The UTF-8 length of `s`, or `cap` when it is larger.
pub fn utf8_len_capped(s: &str, cap: usize) -> (r: usize)
    requires
        cap <= usize::MAX - 4,
    ensures
        r == if utf8_len(s@) < cap {
            utf8_len(s@)
        } else {
            cap as nat
        },
{
    let mut acc: usize = 0;
    for c in it: s.chars()
        invariant
            it.seq() == s@,
            cap <= usize::MAX - 4,
            acc == utf8_len(s@.take(it.index() as int)),
            acc < cap || (acc == 0 && cap == 0),
    {
        let ghost i = it.index();
        assert(s@.take(i + 1).drop_last() =~= s@.take(i as int));
        if cap == 0 {
            proof {
                lemma_utf8_len_take_monotone(s@, 0, s@.len() as int);
            }
            return 0;
        }
        acc = acc + char_width(c);
        if acc >= cap {
            proof {
                lemma_utf8_len_take_monotone(s@, i + 1, s@.len() as int);
                assert(s@.take(s@.len() as int) =~= s@);
            }
            return cap;
        }
    }
    assert(s@.take(s@.len() as int) =~= s@);
    acc
}

// ---------------------------------------------------------------------------
// Survey configuration
// ---------------------------------------------------------------------------

impl SurveyConfig {
    pub fn new(params: Vec<String>, prompt: String) -> (r: SurveyConfig)
        ensures
            r.params == params,
            r.prompt == prompt,
    {
        SurveyConfig { params, prompt }
    }

    /// The prompt with its first `{params}` replaced by `unknown_str`; the
    /// prompt unchanged when it has none.
    pub fn format_prompt(&self, unknown_str: &str) -> (r: String)
        ensures
            r@ == formatted_prompt(self.prompt@, unknown_str@),
    {
        let prompt = chars_of(self.prompt.as_str());
        let template = chars_of(PROMPT_PARAMS_TEMPLATE);
        let listing = chars_of(unknown_str);
        string_from_chars(&replace_first_chars(&prompt, &template, &listing))
    }
}

/// The configuration of a new survey: the parameters "Name" and "Phone" and
/// the default prompt.
pub fn get_default_survey_config() -> (r: SurveyConfig)
    ensures
        r@.params == default_params(),
        r@.prompt == DEFAULT_PROMPT@,
{
    let mut params: Vec<String> = Vec::new();
    params.push(owned("Name"));
    params.push(owned("Phone"));
    assert(strings_view(params@) =~= default_params());
    SurveyConfig::new(params, owned(DEFAULT_PROMPT))
}

// ---------------------------------------------------------------------------
// Stored user data
// ---------------------------------------------------------------------------

impl UserData {
    /// A fresh user: one parameter per survey parameter, numbered by its
    /// position (as a `u16`), without value, and no messages.
    pub fn default(params: &Vec<String>) -> (r: UserData)
        ensures
            r@ == default_user_data(strings_view(params@)),
    {
        let n = params.len();
        let mut data: Vec<Param> = Vec::new();
        for i in 0..n
            invariant
                n == params@.len(),
                params_view(data@) == default_params_data(strings_view(params@)).take(i as int),
        {
            let p = Param { index: i as u16, name: params[i].clone(), value: None };
            assert(p@ == default_params_data(strings_view(params@))[i as int]);
            let ghost before = data@;
            data.push(p);
            assert(data@ == before.push(p));
            assert(params_view(data@) =~= params_view(before).push(p@));
            assert(params_view(data@) =~= default_params_data(strings_view(params@)).take(i + 1));
        }
        assert(default_params_data(strings_view(params@)).take(n as int) =~= default_params_data(
            strings_view(params@),
        ));
        let messages: Vec<GptMessage> = Vec::new();
        let r = UserData { params: data, messages };
        assert(r@.messages =~= Seq::<MessageView>::empty());
        r
    }
}

/// The user's tokens and data from what was read back for the user:
/// `stored` is `None` when nothing is stored, and holds `None` for the data
/// when the stored text does not read back as user data. Without readable
/// data, a fresh user with `MAX_USER_TOKENS` is returned when `or_default`
/// holds, and nothing otherwise; the flag tells whether the fresh user was
/// made.
pub fn get_user_data(
    stored: Option<(i64, Option<UserData>)>,
    params: &Vec<String>,
    or_default: bool,
) -> (r: (Option<(i64, UserData)>, bool))
    ensures
        (match r.0 {
            Some((tokens, d)) => Some((tokens, d@)),
            None => None,
        }, r.1) == resolved_user_data(stored_view(stored), strings_view(params@), or_default),
{
    match stored {
        Some((tokens, Some(data))) => (Some((tokens, data)), false),
        _ => {
            if or_default {
                (Some((MAX_USER_TOKENS, UserData::default(params))), true)
            } else {
                (None, false)
            }
        },
    }
}

// ---------------------------------------------------------------------------
// A user's survey
// ---------------------------------------------------------------------------

/// The value of the last collected parameter numbered `i` that has one.
fn find_known_value(params: &Vec<Param>, i: usize) -> (r: Option<String>)
    ensures
        opt_string_view(r) == known_value(params_view(params@), i as int),
{
    let mut j = params.len();
    assert(params_view(params@).take(j as int) =~= params_view(params@));
    while j > 0
        invariant
            j <= params@.len(),
            known_value(params_view(params@), i as int) == known_value(
                params_view(params@).take(j as int),
                i as int,
            ),
        decreases j,
    {
        let ghost pv = params_view(params@).take(j as int);
        assert(pv.drop_last() =~= params_view(params@).take(j - 1));
        let p = &params[j - 1];
        if p.index as usize == i {
            match &p.value {
                Some(v) => {
                    return Some(v.clone());
                },
                None => {},
            }
        }
        j = j - 1;
    }
    None
}

fn push_param_line(s: &mut String, i: usize, name: &String, known: &Option<String>)
    ensures
        final(s)@ == old(s)@ + param_line(i as nat, name@, opt_string_view(*known)),
{
    s.append("[");
    push_decimal(s, i as u64);
    s.append("] - ");
    s.append(name.as_str());
    match known {
        Some(v) => {
            s.append(" - ");
            s.append(v.as_str());
            s.append(" (already set)\n");
        },
        None => {
            s.append(" - ? (need to ask)\n");
        },
    }
    let ghost k = opt_string_view(*known);
    assert(final(s)@ =~= old(s)@ + param_line(i as nat, name@, k));
}

impl UserSurvey {
    /// The survey of user `chat_id` with configuration `survey_config`, from
    /// what was read back for the user (see `get_user_data`); a user with no
    /// readable data starts fresh.
    pub fn new(chat_id: i64, survey_config: SurveyConfig, stored: Option<(i64, Option<UserData>)>) -> (r: UserSurvey)
        ensures
            r.chat_id == chat_id,
            r.survey_config == survey_config,
            resolved_user_data(stored_view(stored), survey_config@.params, true).0 == Some(
                (r.tokens, r.data@),
            ),
    {
        // a survey that falls back to a fresh user always finds data
        let (tokens, data) = get_user_data(stored, &survey_config.params, true).0.unwrap();
        UserSurvey { chat_id, tokens, survey_config, data }
    }

    /// The listing of the survey parameters, each marked with the value the
    /// user gave or as still to be asked.
    pub fn params_listing(&self) -> (r: String)
        ensures
            r@ == params_listing(self.survey_config@.params, self.data@.params),
    {
        let names = &self.survey_config.params;
        let n = names.len();
        let mut listing = String::new();
        for i in 0..n
            invariant
                n == names@.len(),
                listing@ == params_listing(strings_view(names@).take(i as int), self.data@.params),
        {
            let ghost nv = strings_view(names@).take(i + 1);
            assert(nv.drop_last() =~= strings_view(names@).take(i as int));
            let known = find_known_value(&self.data.params, i);
            push_param_line(&mut listing, i, &names[i], &known);
        }
        assert(strings_view(names@).take(n as int) =~= strings_view(names@));
        listing
    }

    /// The messages to send to the model: the system message (the prompt
    /// with the parameter listing), then as many of the newest messages of
    /// the conversation as fit with it in `HISTORY_LIMIT` bytes, oldest
    /// first.
    pub fn get_gpt_messages(&self) -> (r: Vec<GptMessage>)
        ensures
            messages_view(r@) == gpt_messages(self@),
    {
        let listing = self.params_listing();
        let content = self.survey_config.format_prompt(listing.as_str());
        let system = GptMessage { role: owned("system"), content };
        let ghost sys = system@;
        assert(sys == system_message(self@));
        let system_len = utf8_len_capped(system.content.as_str(), HISTORY_LIMIT + 1);
        let msgs = &self.data.messages;
        let ghost mv = messages_view(msgs@);
        let n = msgs.len();
        let mut j = n;
        if system_len <= HISTORY_LIMIT {
            let mut budget = HISTORY_LIMIT - system_len;
            assert(mv.take(n as int) =~= mv);
            while j > 0
                invariant
                    j <= n == msgs@.len(),
                    mv == messages_view(msgs@),
                    budget <= HISTORY_LIMIT,
                    history_fit(HISTORY_LIMIT - utf8_len(sys.content), mv) == (n - j)
                        + history_fit(budget as int, mv.take(j as int)),
                ensures
                    j <= n,
                    history_fit(HISTORY_LIMIT - utf8_len(sys.content), mv) == n - j,
                decreases j,
            {
                let l = utf8_len_capped(msgs[j - 1].content.as_str(), budget + 1);
                let ghost t = mv.take(j as int);
                assert(t.drop_last() =~= mv.take(j - 1));
                assert(t.last() == msgs@[j - 1]@);
                if l > budget {
                    assert(history_fit(budget as int, t) == 0);
                    break;
                }
                budget = budget - l;
                j = j - 1;
            }
        } else {
            assert(history_fit(HISTORY_LIMIT - utf8_len(sys.content), mv) == 0);
        }
        let mut result: Vec<GptMessage> = Vec::new();
        result.push(system);
        let mut k = j;
        while k < n
            invariant
                j <= k <= n == msgs@.len(),
                mv == messages_view(msgs@),
                messages_view(result@) == seq![sys] + mv.subrange(j as int, k as int),
            decreases n - k,
        {
            let m = msgs[k].clone();
            assert(m@ == mv[k as int]);
            let ghost before = result@;
            result.push(m);
            assert(messages_view(result@) =~= messages_view(before).push(m@));
            assert(messages_view(result@) =~= seq![sys] + mv.subrange(j as int, k + 1));
            k = k + 1;
        }
        assert(mv.subrange(j as int, n as int) =~= mv.skip(j as int));
        result
    }

    /// Records a message of the conversation.
    pub fn add_message(&mut self, role: &str, content: &str)
        ensures
            final(self).chat_id == old(self).chat_id,
            final(self).tokens == old(self).tokens,
            final(self).survey_config == old(self).survey_config,
            final(self).data.params == old(self).data.params,
            final(self)@.data.messages == old(self)@.data.messages.push(
                MessageView { role: role@, content: content@ },
            ),
    {
        let m = GptMessage { role: owned(role), content: owned(content) };
        self.data.messages.push(m);
        assert(final(self)@.data.messages =~= old(self)@.data.messages.push(
            MessageView { role: role@, content: content@ },
        ));
    }

    /// Records what the user wrote.
    pub fn add_user_answer(&mut self, text: &str)
        ensures
            final(self).chat_id == old(self).chat_id,
            final(self).tokens == old(self).tokens,
            final(self).survey_config == old(self).survey_config,
            final(self).data.params == old(self).data.params,
            final(self)@.data.messages == old(self)@.data.messages.push(
                MessageView { role: "user"@, content: text@ },
            ),
    {
        self.add_message("user", text);
    }

    /// Records a note for the model.
    pub fn add_system_text(&mut self, text: &str)
        ensures
            final(self).chat_id == old(self).chat_id,
            final(self).tokens == old(self).tokens,
            final(self).survey_config == old(self).survey_config,
            final(self).data.params == old(self).data.params,
            final(self)@.data.messages == old(self)@.data.messages.push(
                MessageView { role: "system"@, content: text@ },
            ),
    {
        self.add_message("system", text);
    }

    /// Records the model's question.
    pub fn add_assistant_question(&mut self, text: &str)
        ensures
            final(self).chat_id == old(self).chat_id,
            final(self).tokens == old(self).tokens,
            final(self).survey_config == old(self).survey_config,
            final(self).data.params == old(self).data.params,
            final(self)@.data.messages == old(self)@.data.messages.push(
                MessageView { role: "assistant"@, content: text@ },
            ),
    {
        self.add_message("assistant", text);
    }
}

} // verus!
