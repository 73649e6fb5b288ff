//! The bot's commands: what a message asks for, and how the survey
//! configuration changes on `/prompt` and `/params`.
use vstd::prelude::*;

use crate::survey::{SurveyConfig, SurveyConfigView, PROMPT_PARAMS_TEMPLATE};
use crate::text::{
    chars_of, first_occurrence, find_first, join, join_strings, matches_at, non_empty, occurs_at,
    owned, split_chars, split_on, string_from_chars, strings_view, strip_prefix_chars,
    strip_prefix_repeated, trim_chars, trim_ws, CharClass,
};

verus! {

/// What a message asks the bot for.
pub enum Command {
    /// `/clear_user_table`: forget all users.
    ClearUserTable,
    /// `/export_csv`: send the collected answers as a table.
    ExportCsv,
    /// `/start` or `/help`.
    Help,
    /// `/prompt <text>`: use `<text>` as the prompt.
    Prompt(String),
    /// `/params <lines>`: ask for the parameters on the given lines.
    Params(String),
    /// Anything else: an answer in the survey.
    Answer,
}

pub enum CommandView {
    ClearUserTable,
    ExportCsv,
    Help,
    Prompt(Seq<char>),
    Params(Seq<char>),
    Answer,
}

impl View for Command {
    type V = CommandView;

    open spec fn view(&self) -> CommandView {
        match self {
            Command::ClearUserTable => CommandView::ClearUserTable,
            Command::ExportCsv => CommandView::ExportCsv,
            Command::Help => CommandView::Help,
            Command::Prompt(s) => CommandView::Prompt(s@),
            Command::Params(s) => CommandView::Params(s@),
            Command::Answer => CommandView::Answer,
        }
    }
}

/// What follows a command: the text without the command word (repeated)
/// at its front, trimmed of white space.
pub open spec fn command_body(prefix: Seq<char>, text: Seq<char>) -> Seq<char> {
    trim_ws(strip_prefix_repeated(text, prefix))
}

/// The command a message holds; commands are checked in this order.
pub open spec fn command_of(text: Seq<char>) -> CommandView {
    if text == "/clear_user_table"@ {
        CommandView::ClearUserTable
    } else if text == "/export_csv"@ {
        CommandView::ExportCsv
    } else if text == "/start"@ || text == "/help"@ {
        CommandView::Help
    } else if occurs_at(text, "/prompt"@, 0) {
        CommandView::Prompt(command_body("/prompt"@, text))
    } else if occurs_at(text, "/params"@, 0) {
        CommandView::Params(command_body("/params"@, text))
    } else {
        CommandView::Answer
    }
}

/// The parameters listed in `text`: its lines, trimmed, without the empty
/// ones.
pub open spec fn param_lines(text: Seq<char>) -> Seq<Seq<char>> {
    non_empty(split_on(text, '\n').map_values(|p: Seq<char>| trim_ws(p)))
}

/// The answer to a command and whether it changed the configuration (which
/// is then saved, and the users' data cleared).
pub struct CommandReply {
    pub reply: String,
    pub changed: bool,
}

/// The reply to a prompt without `{params}`.
pub open spec fn invalid_prompt_reply() -> Seq<char> {
    "Invalid prompt. Prompt must contain \""@ + PROMPT_PARAMS_TEMPLATE@ + "\""@
}

/// The reply to a `/params` command without parameters.
pub open spec fn no_params_reply() -> Seq<char> {
    "No valid parameters provided. Please provide valid parameters."@
}

/// What follows the command word `prefix` in `text`.
pub fn get_command_body(prefix: &str, text: &str) -> (r: String)
    ensures
        r@ == command_body(prefix@, text@),
{
    let t = chars_of(text);
    let p = chars_of(prefix);
    let stripped = strip_prefix_chars(&t, &p);
    string_from_chars(&trim_chars(&stripped, CharClass::WhiteSpace))
}

fn is_exactly(t: &Vec<char>, word: &str) -> (b: bool)
    ensures
        b == (t@ == word@),
{
    let w = chars_of(word);
    if t.len() != w.len() {
        return false;
    }
    let r = matches_at(t, &w, 0);
    proof {
        if r {
            assert(t@ =~= t@.subrange(0, w@.len() as int));
        } else {
            assert(t@.subrange(0, w@.len() as int) =~= t@);
        }
    }
    r
}

fn starts_with(t: &Vec<char>, word: &str) -> (b: bool)
    ensures
        b == occurs_at(t@, word@, 0),
{
    let w = chars_of(word);
    matches_at(t, &w, 0)
}

/// The command that `text` holds.
pub fn parse_command(text: &str) -> (c: Command)
    ensures
        c@ == command_of(text@),
{
    let t = chars_of(text);
    if is_exactly(&t, "/clear_user_table") {
        Command::ClearUserTable
    } else if is_exactly(&t, "/export_csv") {
        Command::ExportCsv
    } else if is_exactly(&t, "/start") || is_exactly(&t, "/help") {
        Command::Help
    } else if starts_with(&t, "/prompt") {
        Command::Prompt(get_command_body("/prompt", text))
    } else if starts_with(&t, "/params") {
        Command::Params(get_command_body("/params", text))
    } else {
        Command::Answer
    }
}

/// The parameters listed in `text`, one per non-empty line, trimmed.
pub fn parse_param_lines(text: &str) -> (r: Vec<String>)
    ensures
        strings_view(r@) == param_lines(text@),
{
    let pieces = split_chars(&chars_of(text), '\n');
    let ghost pv = pieces@.map_values(|p: Vec<char>| p@);
    let ghost trimmed = split_on(text@, '\n').map_values(|p: Seq<char>| trim_ws(p));
    let n = pieces.len();
    let mut r: Vec<String> = Vec::new();
    for k in 0..n
        invariant
            n == pieces@.len(),
            pv == pieces@.map_values(|p: Vec<char>| p@),
            pv == split_on(text@, '\n'),
            trimmed == pv.map_values(|p: Seq<char>| trim_ws(p)),
            strings_view(r@) == non_empty(trimmed.take(k as int)),
    {
        assert(trimmed.take(k + 1).drop_last() =~= trimmed.take(k as int));
        let line = trim_chars(&pieces[k], CharClass::WhiteSpace);
        assert(line@ == trimmed[k as int]);
        if line.len() > 0 {
            let ghost before = r@;
            r.push(string_from_chars(&line));
            assert(strings_view(r@) =~= strings_view(before).push(line@));
        }
    }
    assert(trimmed.take(n as int) =~= trimmed);
    r
}

/// `/prompt`: a prompt with `{params}` replaces the configured one; any
/// other is refused.
pub fn update_prompt(config: &mut SurveyConfig, new_prompt: &str) -> (r: CommandReply)
    ensures
        first_occurrence(new_prompt@, PROMPT_PARAMS_TEMPLATE@) is Some ==> {
            &&& r.changed
            &&& final(config)@ == (SurveyConfigView { prompt: new_prompt@, ..old(config)@ })
            &&& r.reply@ == "New prompt:\n"@ + new_prompt@
        },
        first_occurrence(new_prompt@, PROMPT_PARAMS_TEMPLATE@) is None ==> {
            &&& !r.changed
            &&& final(config)@ == old(config)@
            &&& r.reply@ == invalid_prompt_reply()
        },
{
    let p = chars_of(new_prompt);
    let template = chars_of(PROMPT_PARAMS_TEMPLATE);
    match find_first(&p, &template) {
        Some(_) => {
            config.prompt = owned(new_prompt);
            let mut reply = owned("New prompt:\n");
            reply.append(new_prompt);
            CommandReply { reply, changed: true }
        },
        None => {
            let mut reply = owned("Invalid prompt. Prompt must contain \"");
            reply.append(PROMPT_PARAMS_TEMPLATE);
            reply.append("\"");
            CommandReply { reply, changed: false }
        },
    }
}

/// `/params`: the parameters listed in `text` replace the configured ones,
/// unless there are none.
pub fn update_params(config: &mut SurveyConfig, text: &str) -> (r: CommandReply)
    ensures
        param_lines(text@).len() > 0 ==> {
            &&& r.changed
            &&& final(config)@ == (SurveyConfigView { params: param_lines(text@), ..old(config)@ })
            &&& r.reply@ == "Parameters updated:\n"@ + join(param_lines(text@), "\n"@)
        },
        param_lines(text@).len() == 0 ==> {
            &&& !r.changed
            &&& final(config)@ == old(config)@
            &&& r.reply@ == no_params_reply()
        },
{
    let params = parse_param_lines(text);
    if params.len() == 0 {
        return CommandReply { reply: owned("No valid parameters provided. Please provide valid parameters."), changed: false };
    }
    let listed = join_strings(&params, "\n");
    let mut reply = owned("Parameters updated:\n");
    reply.append(listed.as_str());
    config.params = params;
    CommandReply { reply, changed: true }
}

} // verus!
