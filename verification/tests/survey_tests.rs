use survey_bot::survey::{
    get_default_survey_config, get_user_data, utf8_len_capped, GptMessage, Param, SurveyConfig,
    UserData, UserSurvey, DEFAULT_PROMPT, HISTORY_LIMIT, MAX_USER_TOKENS,
};

fn strings(items: &[&str]) -> Vec<String> {
    items.iter().map(|s| s.to_string()).collect()
}

fn config(params: &[&str], prompt: &str) -> SurveyConfig {
    SurveyConfig::new(strings(params), prompt.to_string())
}

fn message(role: &str, content: &str) -> GptMessage {
    GptMessage { role: role.to_string(), content: content.to_string() }
}

fn survey(params: &[&str], prompt: &str, data: UserData) -> UserSurvey {
    UserSurvey::new(7, config(params, prompt), Some((100, Some(data))))
}

#[test]
fn format_prompt_replaces_first_placeholder_only() {
    let c = config(&[], "Ask:\n{params}\nagain {params}");
    assert_eq!(c.format_prompt("LIST"), "Ask:\nLIST\nagain {params}");
}

#[test]
fn format_prompt_without_placeholder_keeps_prompt() {
    let c = config(&[], "No list here {param}");
    assert_eq!(c.format_prompt("LIST"), "No list here {param}");
}

#[test]
fn format_prompt_handles_non_ascii_text() {
    let c = config(&[], "Привет {params}!");
    assert_eq!(c.format_prompt("имя"), "Привет имя!");
}

#[test]
fn default_survey_config_asks_name_and_phone() {
    let c = get_default_survey_config();
    assert_eq!(c.params, strings(&["Name", "Phone"]));
    assert_eq!(c.prompt, DEFAULT_PROMPT);
    assert!(c.prompt.contains("{params}"));
}

#[test]
fn default_user_data_numbers_params() {
    let d = UserData::default(&strings(&["Name", "Phone", "Email"]));
    assert_eq!(d.params.len(), 3);
    for (i, p) in d.params.iter().enumerate() {
        assert_eq!(p.index as usize, i);
        assert!(p.value.is_none());
    }
    assert_eq!(d.params[2].name, "Email");
    assert!(d.messages.is_empty());
}

#[test]
fn stored_user_data_is_restored() {
    let mut d = UserData::default(&strings(&["Name"]));
    d.params[0].value = Some("Ann".to_string());
    let (found, fresh) = get_user_data(Some((42, Some(d))), &strings(&["Name"]), true);
    let (tokens, data) = found.unwrap();
    assert_eq!(tokens, 42);
    assert_eq!(data.params[0].value.as_deref(), Some("Ann"));
    assert!(!fresh);
}

#[test]
fn unreadable_user_data_falls_back_when_asked() {
    let (found, fresh) = get_user_data(Some((42, None)), &strings(&["Name", "Phone"]), true);
    let (tokens, data) = found.unwrap();
    assert_eq!(tokens, MAX_USER_TOKENS);
    assert_eq!(data.params.len(), 2);
    assert!(fresh);
    let (found, fresh) = get_user_data(Some((42, None)), &strings(&["Name"]), false);
    assert!(found.is_none());
    assert!(!fresh);
}

#[test]
fn missing_user_falls_back_when_asked() {
    let (found, fresh) = get_user_data(None, &strings(&["Name"]), true);
    assert_eq!(found.unwrap().0, 5000);
    assert!(fresh);
    let (found, fresh) = get_user_data(None, &strings(&["Name"]), false);
    assert!(found.is_none());
    assert!(!fresh);
}

#[test]
fn new_survey_for_unknown_user_is_fresh() {
    let s = UserSurvey::new(3, config(&["Name"], "{params}"), None);
    assert_eq!(s.chat_id, 3);
    assert_eq!(s.tokens, MAX_USER_TOKENS);
    assert_eq!(s.data.params.len(), 1);
}

#[test]
fn listing_marks_known_and_unknown_params() {
    let mut d = UserData::default(&strings(&["Name", "Phone"]));
    d.params[1].value = Some("555".to_string());
    let s = survey(&["Name", "Phone"], "Collect:\n{params}", d);
    let msgs = s.get_gpt_messages();
    assert_eq!(msgs.len(), 1);
    assert_eq!(msgs[0].role, "system");
    assert_eq!(
        msgs[0].content,
        "Collect:\n[0] - Name - ? (need to ask)\n[1] - Phone - 555 (already set)\n"
    );
}

#[test]
fn listing_uses_last_value_for_an_index() {
    let d = UserData {
        params: vec![
            Param { index: 0, name: "Name".to_string(), value: Some("Old".to_string()) },
            Param { index: 0, name: "Name".to_string(), value: Some("New".to_string()) },
            Param { index: 0, name: "Name".to_string(), value: None },
        ],
        messages: vec![],
    };
    let s = survey(&["Name"], "{params}", d);
    assert_eq!(s.params_listing(), "[0] - Name - New (already set)\n");
}

#[test]
fn listing_numbers_beyond_nine() {
    let names: Vec<String> = (0..11).map(|i| format!("P{}", i)).collect();
    let refs: Vec<&str> = names.iter().map(|s| s.as_str()).collect();
    let s = survey(&refs, "{params}", UserData::default(&names));
    let listing = s.params_listing();
    assert!(listing.ends_with("[10] - P10 - ? (need to ask)\n"));
}

#[test]
fn history_keeps_all_short_messages_in_order() {
    let mut d = UserData::default(&strings(&[]));
    d.messages.push(message("user", "hello"));
    d.messages.push(message("assistant", "what is your name?"));
    d.messages.push(message("user", "Ann"));
    let s = survey(&[], "P", d);
    let msgs = s.get_gpt_messages();
    let contents: Vec<&str> = msgs.iter().map(|m| m.content.as_str()).collect();
    assert_eq!(contents, vec!["P", "hello", "what is your name?", "Ann"]);
    assert_eq!(msgs[2].role, "assistant");
}

#[test]
fn history_drops_oldest_messages_over_limit() {
    let mut d = UserData::default(&strings(&[]));
    d.messages.push(message("user", &"a".repeat(3000)));
    d.messages.push(message("user", &"b".repeat(4000)));
    d.messages.push(message("user", &"c".repeat(5000)));
    d.messages.push(message("user", &"d".repeat(990)));
    // 10 + 990 + 5000 + 4000 = 10000 fits exactly; 3000 more does not.
    let s = survey(&[], &"p".repeat(10), d);
    let msgs = s.get_gpt_messages();
    assert_eq!(msgs.len(), 4);
    assert!(msgs[1].content.starts_with('b'));
    assert!(msgs[3].content.starts_with('d'));
}

#[test]
fn history_stops_at_first_message_that_does_not_fit() {
    let mut d = UserData::default(&strings(&[]));
    d.messages.push(message("user", "x"));
    d.messages.push(message("user", &"y".repeat(HISTORY_LIMIT)));
    d.messages.push(message("user", "z"));
    let s = survey(&[], "P", d);
    let msgs = s.get_gpt_messages();
    let contents: Vec<&str> = msgs.iter().map(|m| m.content.as_str()).collect();
    assert_eq!(contents, vec!["P", "z"]);
}

#[test]
fn history_counts_bytes_not_characters() {
    let mut d = UserData::default(&strings(&[]));
    d.messages.push(message("user", "old"));
    // 4999 two-byte characters: 9998 bytes, with a one-byte prompt 9999.
    d.messages.push(message("user", &"ж".repeat(4999)));
    let s = survey(&[], "P", d);
    assert_eq!(s.get_gpt_messages().len(), 2);
}

#[test]
fn long_system_prompt_leaves_no_history() {
    let mut d = UserData::default(&strings(&[]));
    d.messages.push(message("user", ""));
    let s = survey(&[], &"p".repeat(HISTORY_LIMIT + 1), d);
    assert_eq!(s.get_gpt_messages().len(), 1);
}

#[test]
fn empty_messages_fit_a_full_budget() {
    let mut d = UserData::default(&strings(&[]));
    d.messages.push(message("user", ""));
    let s = survey(&[], &"p".repeat(HISTORY_LIMIT), d);
    assert_eq!(s.get_gpt_messages().len(), 2);
}

#[test]
fn utf8_length_is_capped() {
    assert_eq!(utf8_len_capped("héllo", 100), 6);
    assert_eq!(utf8_len_capped("héllo", 3), 3);
    assert_eq!(utf8_len_capped("😀", 10), 4);
    assert_eq!(utf8_len_capped("abc", 0), 0);
}

#[test]
fn messages_are_recorded_with_roles() {
    let mut s = survey(&["Name"], "{params}", UserData::default(&strings(&["Name"])));
    s.add_user_answer("hi");
    s.add_system_text("note");
    s.add_assistant_question("who?");
    s.add_message("tool", "x");
    let roles: Vec<&str> = s.data.messages.iter().map(|m| m.role.as_str()).collect();
    assert_eq!(roles, vec!["user", "system", "assistant", "tool"]);
    assert_eq!(s.data.messages[2].content, "who?");
    assert_eq!(s.tokens, 100);
}
