use smart_commit::open_ai::{
    BackendReply, ChatCompletionResponse, Choice, Message, ResponseConvention, Role,
};
use smart_commit::prompt::candidates::{
    candidate, candidates_of_messages, read_completion, read_json, read_messages,
    read_plain_text, read_reply, wrong_count_text,
};
use smart_commit::prompt::PromptError;

fn choice(index: u32, content: Option<&str>) -> Choice {
    Choice {
        finish_reason: Some("stop".to_string()),
        index,
        message: Message {
            content: content.map(|c| c.to_string()),
            tool_calls: None,
            role: "assistant".to_string(),
        },
    }
}

fn choices(contents: &[Option<&str>]) -> Vec<Choice> {
    contents.iter().enumerate().map(|(i, c)| choice(i as u32, *c)).collect()
}

fn response(contents: &[Option<&str>]) -> ChatCompletionResponse {
    ChatCompletionResponse {
        id: "chatcmpl-1".to_string(),
        choices: choices(contents),
        created: 1700000000,
        model: "gpt-4".to_string(),
        system_fingerprint: None,
        object: "chat.completion".to_string(),
        usage: None,
    }
}

fn wrong_content<T: std::fmt::Debug>(outcome: Result<T, PromptError>) -> String {
    match outcome {
        Err(PromptError::OpenAiWrongContent(text)) => text,
        other => panic!("not a wrong content: {:?}", other),
    }
}

#[test]
fn candidate_is_the_first_line_that_is_not_empty() {
    assert_eq!(candidate("Fix bug\nextra trailing text"), Some("Fix bug".to_string()));
    assert_eq!(candidate("Fix bug"), Some("Fix bug".to_string()));
    assert_eq!(candidate("  Fix bug  \n"), Some("Fix bug".to_string()));
    assert_eq!(candidate("\n\nFix bug\nmore"), Some("Fix bug".to_string()));
    assert_eq!(candidate("\r\nFix bug\r\nmore\r\n"), Some("Fix bug".to_string()));
    assert_eq!(candidate("\r\n\nFix bug\r"), Some("Fix bug".to_string()));
}

#[test]
fn candidate_of_a_line_of_white_space_is_empty() {
    assert_eq!(candidate(" "), Some(String::new()));
    assert_eq!(candidate("  \nFix bug"), Some(String::new()));
    assert_eq!(candidate("   \n\t\nFix bug"), Some(String::new()));
    assert_eq!(candidate("\n \t \n"), Some(String::new()));
    assert_eq!(candidate("\r"), Some(String::new()));
    assert_eq!(candidate("\n\r\r\nFix bug"), Some(String::new()));
}

#[test]
fn candidate_is_missing_where_no_line_is_not_empty() {
    assert_eq!(candidate(""), None);
    assert_eq!(candidate("\n"), None);
    assert_eq!(candidate("\n\n\n"), None);
    assert_eq!(candidate("\r\n"), None);
    assert_eq!(candidate("\r\n\n\r\n"), None);
}

#[test]
fn candidate_agrees_with_the_lines_of_std() {
    for content in [
        "", " ", "a", "a\n", "\na", "\n\n a \nb", "\r\na\r\n", "a\r", "\r", "\r\r\n x",
        "  \n x", "\t\r\nx", "x\r\n\r\ny", "\n\r\n\n", "\u{a0}y\u{3000}\nz", "a\rb\nc",
    ] {
        let expected = content.lines().find(|l| !l.is_empty()).map(|l| l.trim().to_string());
        assert_eq!(candidate(content), expected, "{:?}", content);
    }
}

#[test]
fn three_choices_with_trailing_text_give_three_first_lines() {
    let text = "Fix bug\nextra trailing text";
    let read = read_plain_text(&choices(&[Some(text), Some(text), Some(text)]), 3).unwrap();
    assert_eq!(read.candidates, vec!["Fix bug", "Fix bug", "Fix bug"]);
    assert_eq!(read.assistant.role, Role::Assistant);
    assert_eq!(
        read.assistant.content,
        "Fix bug\nextra trailing text\nFix bug\nextra trailing text\nFix bug\nextra trailing text"
    );
}

#[test]
fn plain_text_candidates_come_in_the_order_of_the_choices() {
    let read = read_plain_text(&choices(&[Some("one"), Some(" two "), Some("\nthree\n")]), 3)
        .unwrap();
    assert_eq!(read.candidates, vec!["one", "two", "three"]);
    assert_eq!(read.assistant.content, "one\n two \n\nthree\n");
}

#[test]
fn plain_text_without_choices_is_no_choices() {
    assert!(matches!(read_plain_text(&Vec::new(), 3), Err(PromptError::OpenAiNoChoices)));
    assert!(matches!(read_plain_text(&Vec::new(), 0), Err(PromptError::OpenAiNoChoices)));
}

#[test]
fn plain_text_choice_without_content_is_no_content() {
    let outcome = read_plain_text(&choices(&[Some("one"), None, Some("three")]), 3);
    assert!(matches!(outcome, Err(PromptError::OpenAiNoContent)));
}

#[test]
fn plain_text_choice_of_empty_lines_is_wrong_content_with_the_payload() {
    let outcome = read_plain_text(&choices(&[Some("one"), Some("\n\r\n\n"), Some("three")]), 3);
    assert_eq!(wrong_content(outcome), "\n\r\n\n");
    let outcome = read_plain_text(&choices(&[Some("")]), 1);
    assert_eq!(wrong_content(outcome), "");
}

#[test]
fn plain_text_choice_of_white_space_gives_an_empty_proposal() {
    let read = read_plain_text(&choices(&[Some("one"), Some(" \n\n"), Some(" ")]), 3).unwrap();
    assert_eq!(read.candidates, vec!["one", "", ""]);
    assert_eq!(read.assistant.content, "one\n \n\n\n ");
    let read = read_plain_text(&choices(&[Some("  \nFix bug")]), 1).unwrap();
    assert_eq!(read.candidates, vec![""]);
}

#[test]
fn first_bad_choice_decides_the_error() {
    let outcome = read_plain_text(&choices(&[Some("\n"), None]), 2);
    assert_eq!(wrong_content(outcome), "\n");
    let outcome = read_plain_text(&choices(&[None, Some("\n")]), 2);
    assert!(matches!(outcome, Err(PromptError::OpenAiNoContent)));
}

#[test]
fn plain_text_with_another_number_of_choices_is_wrong_content() {
    let outcome = read_plain_text(&choices(&[Some("one"), Some("two")]), 3);
    assert_eq!(wrong_content(outcome), "wrong number of choices (expected 3, found 2): one\ntwo");
    let outcome = read_plain_text(&choices(&[Some("one"), Some("two")]), 1);
    assert_eq!(wrong_content(outcome), "wrong number of choices (expected 1, found 2): one\ntwo");
}

#[test]
fn wrong_count_text_cites_both_numbers_and_the_payload() {
    assert_eq!(
        wrong_count_text("messages", 3, 2, "{}"),
        "wrong number of messages (expected 3, found 2): {}"
    );
    assert_eq!(
        wrong_count_text("choices", 10, 0, ""),
        "wrong number of choices (expected 10, found 0): "
    );
}

#[test]
fn json_messages_are_the_candidates() {
    let content = "{\"messages\":[\"Fix bug\",\"Add test\",\"Update docs\"]}";
    let read = read_json(&choices(&[Some(content)]), 3).unwrap();
    assert_eq!(read.candidates, vec!["Fix bug", "Add test", "Update docs"]);
    assert_eq!(read.assistant.role, Role::Assistant);
    assert_eq!(read.assistant.content, content);
}

#[test]
fn json_messages_give_one_line_each() {
    let content = " { \"messages\" : [ \" padded \", \"two\\nlines\", \"\\n\\nlate\" ] } ";
    let read = read_json(&choices(&[Some(content)]), 3).unwrap();
    assert_eq!(read.candidates, vec!["padded", "two", "late"]);
    assert_eq!(read.assistant.content, content);
}

#[test]
fn json_message_without_a_line_is_wrong_content_with_the_payload() {
    for content in ["{\"messages\":[\"a\",\"\"]}", "{\"messages\":[\"\\n\\r\\n\",\"b\"]}"] {
        assert_eq!(wrong_content(read_json(&choices(&[Some(content)]), 2)), content);
    }
}

#[test]
fn json_message_of_white_space_gives_an_empty_proposal() {
    let content = "{\"messages\":[\" \\n\\t\",\"b\"]}";
    let read = read_json(&choices(&[Some(content)]), 2).unwrap();
    assert_eq!(read.candidates, vec!["", "b"]);
}

#[test]
fn candidates_of_messages_reads_each_message() {
    let messages = vec![" one ".to_string(), "\ntwo\nmore".to_string()];
    assert_eq!(candidates_of_messages(&messages), Some(vec!["one".to_string(), "two".to_string()]));
    assert_eq!(candidates_of_messages(&Vec::new()), Some(Vec::new()));
    let messages = vec!["one".to_string(), "  ".to_string(), "three".to_string()];
    assert_eq!(
        candidates_of_messages(&messages),
        Some(vec!["one".to_string(), String::new(), "three".to_string()])
    );
    let messages = vec!["one".to_string(), "\n".to_string(), "three".to_string()];
    assert_eq!(candidates_of_messages(&messages), None);
    let messages = vec!["one".to_string(), String::new()];
    assert_eq!(candidates_of_messages(&messages), None);
}

#[test]
fn json_with_two_messages_where_three_were_asked_is_wrong_content() {
    let content = "{\"messages\":[\"a\",\"b\"]}";
    let outcome = read_json(&choices(&[Some(content)]), 3);
    assert_eq!(
        wrong_content(outcome),
        "wrong number of messages (expected 3, found 2): {\"messages\":[\"a\",\"b\"]}"
    );
    let outcome = read_completion(ResponseConvention::Json, &response(&[Some(content)]), 3);
    assert_eq!(
        wrong_content(outcome),
        "wrong number of messages (expected 3, found 2): {\"messages\":[\"a\",\"b\"]}"
    );
    assert!(read_json(&choices(&[Some(content)]), 2).is_ok());
}

#[test]
fn json_that_is_no_object_of_string_arrays_is_wrong_content_with_the_payload() {
    for content in [
        "Fix bug",
        "",
        "[\"a\",\"b\"]",
        "{\"messages\":\"a\"}",
        "{\"messages\":[1,2]}",
        "{\"messages\":[\"a\"]} trailing",
        "{\"messages\":[\"a\"],\"count\":1}",
        "{\"messages\":[\"a\"",
    ] {
        assert_eq!(wrong_content(read_json(&choices(&[Some(content)]), 1)), content);
    }
}

#[test]
fn json_without_messages_is_wrong_content_with_the_payload() {
    for content in ["{}", "{\"message\":[\"a\"]}", "{\"Messages\":[\"a\"]}"] {
        assert_eq!(wrong_content(read_json(&choices(&[Some(content)]), 1)), content);
    }
}

#[test]
fn json_messages_are_found_among_other_lists() {
    let content = "{\"zeta\":[\"z\"],\"messages\":[\"a\"],\"alpha\":[]}";
    let read = read_json(&choices(&[Some(content)]), 1).unwrap();
    assert_eq!(read.candidates, vec!["a"]);
}

#[test]
fn json_without_choices_is_no_choices() {
    assert!(matches!(read_json(&Vec::new(), 3), Err(PromptError::OpenAiNoChoices)));
}

#[test]
fn json_choice_without_content_is_no_content() {
    assert!(matches!(read_json(&choices(&[None]), 3), Err(PromptError::OpenAiNoContent)));
    assert!(matches!(
        read_json(&choices(&[None, Some("{\"messages\":[]}")]), 0),
        Err(PromptError::OpenAiNoContent)
    ));
}

#[test]
fn json_with_more_than_one_choice_is_wrong_content() {
    let content = "{\"messages\":[\"a\"]}";
    let outcome = read_json(&choices(&[Some(content), Some(content)]), 1);
    assert_eq!(
        wrong_content(outcome),
        "wrong number of choices (expected 1, found 2): {\"messages\":[\"a\"]}"
    );
}

#[test]
fn read_messages_takes_the_list_named_messages() {
    let parsed = Some(vec![
        ("alpha".to_string(), vec!["x".to_string()]),
        ("messages".to_string(), vec!["a".to_string(), "b".to_string()]),
    ]);
    assert_eq!(read_messages(parsed, "payload", 2).unwrap(), vec!["a", "b"]);
    let parsed = Some(vec![("messages".to_string(), vec!["a".to_string()])]);
    assert_eq!(
        wrong_content(read_messages(parsed, "payload", 2)),
        "wrong number of messages (expected 2, found 1): payload"
    );
    let parsed = Some(vec![("other".to_string(), vec!["a".to_string()])]);
    assert_eq!(wrong_content(read_messages(parsed, "payload", 1)), "payload");
    assert_eq!(wrong_content(read_messages(Some(Vec::new()), "payload", 0)), "payload");
    assert_eq!(wrong_content(read_messages(None, "payload", 1)), "payload");
    let parsed = Some(vec![("messages".to_string(), Vec::new())]);
    assert_eq!(read_messages(parsed, "payload", 0).unwrap(), Vec::<String>::new());
    let parsed = Some(vec![("messages".to_string(), vec![" a\nb".to_string()])]);
    assert_eq!(read_messages(parsed, "payload", 1).unwrap(), vec!["a"]);
    let parsed = Some(vec![("messages".to_string(), vec!["\n".to_string()])]);
    assert_eq!(wrong_content(read_messages(parsed, "payload", 1)), "payload");
}

#[test]
fn convention_is_taken_from_configuration_not_from_the_answer() {
    let json = "{\"messages\":[\"a\"]}";
    let as_plain = read_completion(ResponseConvention::PlainText, &response(&[Some(json)]), 1)
        .unwrap();
    assert_eq!(as_plain.candidates, vec![json]);
    let as_json = read_completion(ResponseConvention::Json, &response(&[Some(json)]), 1).unwrap();
    assert_eq!(as_json.candidates, vec!["a"]);
    let plain = "Fix bug";
    let outcome = read_completion(ResponseConvention::Json, &response(&[Some(plain)]), 1);
    assert_eq!(wrong_content(outcome), "Fix bug");
}

#[test]
fn reply_is_read_by_what_came() {
    let reply = BackendReply::Completion(response(&[Some("one\nmore")]));
    let read = read_reply(ResponseConvention::PlainText, &reply, 1).unwrap();
    assert_eq!(read.candidates, vec!["one"]);
    assert_eq!(read.assistant.content, "one\nmore");
    let reply = BackendReply::Malformed("not json".to_string());
    assert_eq!(wrong_content(read_reply(ResponseConvention::PlainText, &reply, 1)), "not json");
    let reply = BackendReply::Unreachable("dns".to_string());
    assert!(matches!(
        read_reply(ResponseConvention::Json, &reply, 1),
        Err(PromptError::OpenAiUnreachable(reason)) if reason == "dns"
    ));
}
