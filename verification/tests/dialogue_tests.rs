use survey_bot::commands::{
    get_command_body, parse_command, parse_param_lines, update_params, update_prompt, Command,
};
use survey_bot::dialogue::{chat_request, AnswerOutcome, QuestionStep, MODEL};
use survey_bot::export::export_rows;
use survey_bot::json::Json;
use survey_bot::reply::{read_completion, read_function_args, Completion, FunctionArg, GptAnswer};
use survey_bot::survey::{SurveyConfig, UserData, UserSurvey};
use survey_bot::text::{
    chars_of, join_strings, push_decimal, string_from_chars, trim_chars, CharClass,
};

fn strings(items: &[&str]) -> Vec<String> {
    items.iter().map(|s| s.to_string()).collect()
}

fn config(params: &[&str], prompt: &str) -> SurveyConfig {
    SurveyConfig::new(strings(params), prompt.to_string())
}

fn fresh_survey(params: &[&str], tokens: i64) -> UserSurvey {
    let names = strings(params);
    UserSurvey::new(1, config(params, "{params}"), Some((tokens, Some(UserData::default(&names)))))
}

fn s(text: &str) -> Json {
    Json::Str(text.to_string())
}

fn obj(entries: Vec<(&str, Json)>) -> Json {
    Json::Object(entries.into_iter().map(|(k, v)| (k.to_string(), v)).collect())
}

fn reply(finish: Json, message: Json, usage: Json) -> Json {
    obj(vec![
        ("choices", Json::Array(vec![obj(vec![("finish_reason", finish), ("message", message)])])),
        ("usage", usage),
    ])
}

// ---------------------------------------------------------------- text

#[test]
fn decimal_notation() {
    let mut out = String::from("n=");
    push_decimal(&mut out, 0);
    out.push(',');
    push_decimal(&mut out, 1207);
    out.push(',');
    push_decimal(&mut out, u64::MAX);
    assert_eq!(out, "n=0,1207,18446744073709551615");
}

#[test]
fn trim_removes_unicode_white_space() {
    let v = chars_of("\u{3000}\t hello world \u{a0}\n");
    assert_eq!(string_from_chars(&trim_chars(&v, CharClass::WhiteSpace)), "hello world");
    let q = chars_of("\"\"a\"b\"");
    assert_eq!(string_from_chars(&trim_chars(&q, CharClass::Only('"'))), "a\"b");
}

#[test]
fn join_with_separator() {
    assert_eq!(join_strings(&strings(&["a", "b", "c"]), "\n"), "a\nb\nc");
    assert_eq!(join_strings(&strings(&["a"]), ", "), "a");
    assert_eq!(join_strings(&strings(&[]), ", "), "");
}

// ---------------------------------------------------------------- commands

#[test]
fn commands_are_recognised() {
    assert!(matches!(parse_command("/clear_user_table"), Command::ClearUserTable));
    assert!(matches!(parse_command("/export_csv"), Command::ExportCsv));
    assert!(matches!(parse_command("/start"), Command::Help));
    assert!(matches!(parse_command("/help"), Command::Help));
    assert!(matches!(parse_command("/help me"), Command::Answer));
    assert!(matches!(parse_command("/export_csv "), Command::Answer));
    assert!(matches!(parse_command("hello"), Command::Answer));
    match parse_command("/prompt  Ask {params} \n") {
        Command::Prompt(body) => assert_eq!(body, "Ask {params}"),
        _ => panic!("not a prompt command"),
    }
    match parse_command("/params\nName\nAge") {
        Command::Params(body) => assert_eq!(body, "Name\nAge"),
        _ => panic!("not a params command"),
    }
    match parse_command("/promptx") {
        Command::Prompt(body) => assert_eq!(body, "x"),
        _ => panic!("not a prompt command"),
    }
}

#[test]
fn command_body_strips_repeated_prefix() {
    assert_eq!(get_command_body("/prompt", "/prompt/prompt  x "), "x");
    assert_eq!(get_command_body("/prompt", "/prompt /prompt x"), "/prompt x");
    assert_eq!(get_command_body("/params", "  /params a"), "/params a");
}

#[test]
fn prompt_with_placeholder_is_accepted() {
    let mut c = config(&["Name"], "old {params}");
    let r = update_prompt(&mut c, "new {params} prompt");
    assert!(r.changed);
    assert_eq!(r.reply, "New prompt:\nnew {params} prompt");
    assert_eq!(c.prompt, "new {params} prompt");
    assert_eq!(c.params, strings(&["Name"]));
}

#[test]
fn prompt_without_placeholder_is_refused() {
    let mut c = config(&["Name"], "old {params}");
    let r = update_prompt(&mut c, "new {param} prompt");
    assert!(!r.changed);
    assert_eq!(r.reply, "Invalid prompt. Prompt must contain \"{params}\"");
    assert_eq!(c.prompt, "old {params}");
}

#[test]
fn params_are_read_from_lines() {
    assert_eq!(parse_param_lines(" Name \r\n\n  Phone\t\nE-mail"), strings(&["Name", "Phone", "E-mail"]));
    let mut c = config(&["Name"], "p");
    let r = update_params(&mut c, "Name\n\n Age \n");
    assert!(r.changed);
    assert_eq!(r.reply, "Parameters updated:\nName\nAge");
    assert_eq!(c.params, strings(&["Name", "Age"]));
}

#[test]
fn blank_params_are_refused() {
    let mut c = config(&["Name"], "p");
    let r = update_params(&mut c, " \n \t\n");
    assert!(!r.changed);
    assert_eq!(r.reply, "No valid parameters provided. Please provide valid parameters.");
    assert_eq!(c.params, strings(&["Name"]));
}

// ---------------------------------------------------------------- replies

#[test]
fn stop_reply_is_a_question() {
    let v = reply(
        s("stop"),
        obj(vec![("role", s("assistant")), ("content", s("What is your name?"))]),
        obj(vec![("total_tokens", Json::Number(Some(57)))]),
    );
    match read_completion(&v) {
        Completion::Question { content, spent_tokens } => {
            assert_eq!(content, "What is your name?");
            assert_eq!(spent_tokens, 57);
        }
        _ => panic!("expected a question"),
    }
}

#[test]
fn missing_usage_counts_no_tokens() {
    let v = reply(s("stop"), obj(vec![("content", Json::Null)]), Json::Null);
    match read_completion(&v) {
        Completion::Question { content, spent_tokens } => {
            assert_eq!(content, "");
            assert_eq!(spent_tokens, 0);
        }
        _ => panic!("expected a question"),
    }
}

#[test]
fn tool_call_arguments_are_unescaped() {
    let call = obj(vec![(
        "function",
        obj(vec![("name", s("set_params")), ("arguments", s("\"{\\\"to_set\\\": []}\""))]),
    )]);
    let v = reply(
        s("tool_calls"),
        obj(vec![("tool_calls", Json::Array(vec![call]))]),
        obj(vec![("total_tokens", Json::Number(Some(12)))]),
    );
    match read_completion(&v) {
        Completion::ToolCall { arguments, spent_tokens } => {
            assert_eq!(arguments, "{\"to_set\": []}");
            assert_eq!(spent_tokens, 12);
        }
        _ => panic!("expected a tool call"),
    }
}

#[test]
fn unknown_finish_reason_is_reported() {
    let v = reply(s("length"), Json::Null, Json::Null);
    assert!(matches!(read_completion(&v), Completion::UnknownFinishReason));
    assert!(matches!(read_completion(&Json::Null), Completion::UnknownFinishReason));
}

#[test]
fn function_args_are_read_in_order() {
    let v = obj(vec![(
        "to_set",
        Json::Array(vec![
            obj(vec![("index", Json::Number(Some(1))), ("value", s("555"))]),
            obj(vec![("value", s("Ann")), ("index", Json::Number(Some(0)))]),
        ]),
    )]);
    let args = read_function_args(&v).unwrap();
    assert_eq!(args.len(), 2);
    assert_eq!((args[0].index, args[0].value.as_str()), (1, "555"));
    assert_eq!((args[1].index, args[1].value.as_str()), (0, "Ann"));
}

#[test]
fn function_arg_index_is_cut_to_i32() {
    let v = obj(vec![(
        "to_set",
        Json::Array(vec![obj(vec![("index", Json::Number(Some(4294967297))), ("value", s("v"))])]),
    )]);
    assert_eq!(read_function_args(&v).unwrap()[0].index, 1);
}

#[test]
fn malformed_function_args_are_refused() {
    assert!(read_function_args(&obj(vec![("to_set", s("x"))])).is_none());
    let no_value = obj(vec![("to_set", Json::Array(vec![obj(vec![("index", Json::Number(Some(0)))])]))]);
    assert!(read_function_args(&no_value).is_none());
    let float_index = obj(vec![(
        "to_set",
        Json::Array(vec![obj(vec![("index", Json::Number(None)), ("value", s("v"))])]),
    )]);
    assert!(read_function_args(&float_index).is_none());
    assert_eq!(read_function_args(&obj(vec![("to_set", Json::Array(vec![]))])).unwrap().len(), 0);
}

// ---------------------------------------------------------------- rounds

#[test]
fn round_gives_up_after_three_attempts() {
    let survey = fresh_survey(&["Name"], 100);
    match survey.question_step(4, 33) {
        QuestionStep::Reply { spent_tokens, question } => {
            assert_eq!(spent_tokens, 33);
            assert_eq!(question, "Error get question");
        }
        _ => panic!("expected a reply"),
    }
}

#[test]
fn user_without_tokens_is_bid_goodbye() {
    let survey = fresh_survey(&["Name"], -1);
    match survey.question_step(1, 0) {
        QuestionStep::Reply { spent_tokens, question } => {
            assert_eq!(spent_tokens, 0);
            assert_eq!(question, "Have a great day!");
        }
        _ => panic!("expected a reply"),
    }
}

#[test]
fn model_is_asked_with_the_survey_messages() {
    let mut survey = fresh_survey(&["Name"], 0);
    survey.add_user_answer("hi");
    match survey.question_step(3, 0) {
        QuestionStep::AskModel(req) => {
            assert_eq!(req.model, MODEL);
            assert!(req.offer_set_params);
            assert_eq!(req.messages.len(), 2);
            assert_eq!(req.messages[0].content, "[0] - Name - ? (need to ask)\n");
            assert_eq!(req.messages[1].content, "hi");
        }
        _ => panic!("expected a request"),
    }
    let req = chat_request(vec![], &vec![]);
    assert!(!req.offer_set_params);
    assert_eq!(req.model, "gpt-3.5-turbo");
}

#[test]
fn tool_call_sets_params_and_asks_again() {
    let mut survey = fresh_survey(&["Name", "Phone"], 100);
    let args = vec![
        FunctionArg { index: 1, value: "555".to_string() },
        FunctionArg { index: 0, value: "Ann".to_string() },
        FunctionArg { index: 1, value: "777".to_string() },
    ];
    assert!(survey.args_fit(&args));
    match survey.apply_gpt_answer(GptAnswer::FunctionCallArgs(args), 20, 1, 5) {
        AnswerOutcome::AskAgain { counter, tokens } => {
            assert_eq!(counter, 2);
            assert_eq!(tokens, 25);
        }
        _ => panic!("expected another attempt"),
    }
    assert_eq!(survey.data.params[0].value.as_deref(), Some("Ann"));
    assert_eq!(survey.data.params[1].value.as_deref(), Some("777"));
    let notes: Vec<&str> = survey.data.messages.iter().map(|m| m.content.as_str()).collect();
    assert_eq!(
        notes,
        vec!["Param [1] Phone set to 555!", "Param [0] Name set to Ann!", "Param [1] Phone set to 777!"]
    );
    assert!(survey.data.messages.iter().all(|m| m.role == "system"));
    assert_eq!(
        survey.params_listing(),
        "[0] - Name - Ann (already set)\n[1] - Phone - 777 (already set)\n"
    );
    assert_eq!(survey.tokens, 100);
}

#[test]
fn set_param_returns_name() {
    let mut survey = fresh_survey(&["Name", "Phone"], 100);
    let name = survey.set_param(&FunctionArg { index: 1, value: "1".to_string() });
    assert_eq!(name, "Phone");
    assert_eq!(survey.data.params[1].value.as_deref(), Some("1"));
    assert!(survey.data.messages.is_empty());
}

#[test]
fn out_of_range_args_do_not_fit() {
    let survey = fresh_survey(&["Name"], 100);
    assert!(!survey.args_fit(&vec![FunctionArg { index: 1, value: "x".to_string() }]));
    assert!(!survey.args_fit(&vec![FunctionArg { index: -1, value: "x".to_string() }]));
    assert!(survey.args_fit(&vec![]));
}

#[test]
fn question_ends_the_round() {
    let mut survey = fresh_survey(&["Name"], 100);
    match survey.apply_gpt_answer(GptAnswer::Question("Name?".to_string()), 30, 2, 12) {
        AnswerOutcome::Done { spent_tokens, question } => {
            assert_eq!(spent_tokens, 42);
            assert_eq!(question, "Name?");
        }
        _ => panic!("expected the end of the round"),
    }
    survey.record_question(42, "Name?");
    assert_eq!(survey.tokens, 58);
    assert_eq!(survey.data.messages.last().unwrap().role, "assistant");
    assert_eq!(survey.data.messages.last().unwrap().content, "Name?");
}

// ---------------------------------------------------------------- export

#[test]
fn export_table_has_header_and_one_row_per_readable_user() {
    let headers = strings(&["Name", "Phone"]);
    let mut ann = UserData::default(&headers);
    ann.params[0].value = Some("Ann".to_string());
    let mut bob = UserData::default(&strings(&["Phone", "Name"]));
    bob.params[1].value = Some("Bob".to_string());
    bob.params[0].value = Some("123".to_string());
    let other = UserData::default(&strings(&["City"]));
    let rows = export_rows(&headers, &vec![Some(ann), None, Some(bob), Some(other)]);
    assert_eq!(
        rows,
        vec![
            strings(&["Name", "Phone"]),
            strings(&["Ann", ""]),
            strings(&["Bob", "123"]),
            strings(&["", ""]),
        ]
    );
}

#[test]
fn round_of_tool_calls_ends_after_three_requests() {
    let mut survey = fresh_survey(&["Name"], 100);
    let mut counter: u8 = 1;
    let mut tokens: i64 = 0;
    let mut requests = 0;
    let outcome = loop {
        match survey.question_step(counter, tokens) {
            QuestionStep::Reply { spent_tokens, question } => break (spent_tokens, question),
            QuestionStep::AskModel(_) => {
                requests += 1;
                let args = vec![FunctionArg { index: 0, value: format!("v{}", requests) }];
                match survey.apply_gpt_answer(GptAnswer::FunctionCallArgs(args), 10, counter, tokens) {
                    AnswerOutcome::AskAgain { counter: c, tokens: t } => {
                        counter = c;
                        tokens = t;
                    }
                    AnswerOutcome::Done { .. } => panic!("a tool call does not end the round"),
                }
            }
        }
    };
    assert_eq!(requests, 3);
    assert_eq!(outcome, (30, "Error get question".to_string()));
    assert_eq!(survey.data.params[0].value.as_deref(), Some("v3"));
}
