use smart_commit::git::{FileDiff, FileDiffType};
use smart_commit::open_ai::{ResponseConvention, Role};
use smart_commit::prompt::common::{
    assemble_prompt, model_propmpt_length, most_recent, PromptData, DIFF_HEADER,
    RESERVED_OVERHEAD, STYLE_GUIDE_HEADER, SYSTEM_PROMPT,
};
use smart_commit::prompt::{CommitCompletionData, PromptError};
use smart_commit::text::same_text;

fn diff(path: &str, text: &str) -> FileDiff {
    FileDiff {
        path: path.to_string(),
        delta_type: FileDiffType::Added,
        formatted_diff: text.to_string(),
    }
}

fn owned(items: &[&str]) -> Vec<String> {
    items.iter().map(|s| s.to_string()).collect()
}

#[test]
fn window_is_four_bytes_to_the_token() {
    assert_eq!(model_propmpt_length("gpt-3.5-turbo"), 16384);
    assert_eq!(model_propmpt_length("gpt-3.5-turbo-0125"), 65540);
    assert_eq!(model_propmpt_length("gpt-4"), 32768);
    assert_eq!(model_propmpt_length("some-other-model"), 16384);
    assert_eq!(model_propmpt_length(""), 16384);
}

#[test]
fn budget_is_the_window_less_the_reserve() {
    assert_eq!(RESERVED_OVERHEAD, 2048);
    assert_eq!(CommitCompletionData::get_length_for_model("gpt-3.5-turbo"), 14336);
    assert_eq!(CommitCompletionData::get_length_for_model("gpt-3.5-turbo-0125"), 63492);
    assert_eq!(CommitCompletionData::get_length_for_model("gpt-4"), 30720);
    assert_eq!(CommitCompletionData::get_length_for_model("gpt-4 "), 14336);
}

#[test]
fn same_text_compares_character_by_character() {
    assert!(same_text("", ""));
    assert!(same_text("gpt-4", "gpt-4"));
    assert!(!same_text("gpt-4", "gpt-4o"));
    assert!(!same_text("gpt-4", "gpt-5"));
    assert!(!same_text("a", ""));
    assert!(same_text("\u{e9}t\u{e9}", "\u{e9}t\u{e9}"));
}

#[test]
fn system_prompt_is_four_lines() {
    assert_eq!(SYSTEM_PROMPT.lines().count(), 4);
    assert!(SYSTEM_PROMPT.starts_with("You are a CLI program designed to generate clear, concise"));
    assert!(SYSTEM_PROMPT.ends_with("affected by the changes."));
}

#[test]
fn prompt_without_history_omits_the_style_guide() {
    let turn = assemble_prompt(&Vec::new(), &vec![diff("a.rs", "+fn a() {}")]);
    assert_eq!(turn.role, Role::User);
    let expected = format!("{}\n\n# Git diff:\n```diff\n+fn a() {{}}\n```\n", SYSTEM_PROMPT);
    assert_eq!(turn.content, expected);
    assert!(!turn.content.contains("style guide"));
}

#[test]
fn prompt_with_history_lists_the_messages_in_order() {
    let turn = assemble_prompt(
        &owned(&["Fix parser", "Add tests"]),
        &vec![diff("b.rs", "+b\n"), diff("a.rs", "-a\n")],
    );
    let expected = format!(
        "{}\n{}  - Fix parser\n  - Add tests\n\n{}```diff\n+b\n\n```\n```diff\n-a\n\n```\n",
        SYSTEM_PROMPT, STYLE_GUIDE_HEADER, DIFF_HEADER
    );
    assert_eq!(turn.content, expected);
    assert_eq!(
        STYLE_GUIDE_HEADER,
        "Use the following previous commits as a style guide for consistency and clarity:\n"
    );
    assert_eq!(DIFF_HEADER, "# Git diff:\n");
}

#[test]
fn prompt_keeps_collection_order_of_patches() {
    let one = assemble_prompt(&Vec::new(), &vec![diff("z", "Z"), diff("a", "A"), diff("m", "M")]);
    let z = one.content.find("```diff\nZ\n```").unwrap();
    let a = one.content.find("```diff\nA\n```").unwrap();
    let m = one.content.find("```diff\nM\n```").unwrap();
    assert!(z < a && a < m);
    let two = assemble_prompt(&Vec::new(), &vec![diff("z", "Z"), diff("a", "A"), diff("m", "M")]);
    assert_eq!(one.content, two.content);
}

#[test]
fn most_recent_keeps_the_first_messages() {
    assert_eq!(most_recent(owned(&["a", "b", "c"]), 2), owned(&["a", "b"]));
    assert_eq!(most_recent(owned(&["a", "b", "c"]), 3), owned(&["a", "b", "c"]));
    assert_eq!(most_recent(owned(&["a", "b", "c"]), 5), owned(&["a", "b", "c"]));
    assert_eq!(most_recent(owned(&["a"]), 0), owned(&[]));
    assert_eq!(most_recent(owned(&[]), 4), owned(&[]));
}

#[test]
fn collected_data_keeps_the_most_recent_history() {
    let history: Vec<String> = (0..12).map(|i| format!("commit {}", i)).collect();
    let data = CommitCompletionData::new(history, vec![diff("a.rs", "+a\n")], "gpt-4");
    assert_eq!(data.previous_messages.len(), 10);
    assert_eq!(data.previous_messages[0], "commit 0");
    assert_eq!(data.previous_messages[9], "commit 9");
    assert_eq!(data.diff.len(), 1);
    assert_eq!(data.diff[0].formatted_diff, "+a\n");
    assert_eq!(data.model, "gpt-4");
    assert_eq!(data.refinement_prompt, None);
    assert!(data.fits());
}

#[test]
fn collected_data_fits_up_to_the_budget_of_the_model() {
    let at_budget = "x".repeat(14336);
    let over_budget = "x".repeat(14337);
    assert!(CommitCompletionData::new(Vec::new(), vec![diff("a", &at_budget)], "m").fits());
    assert!(!CommitCompletionData::new(Vec::new(), vec![diff("a", &over_budget)], "m").fits());
    assert!(CommitCompletionData::new(Vec::new(), vec![diff("a", &over_budget)], "gpt-4").fits());
    assert!(CommitCompletionData::new(Vec::new(), Vec::new(), "gpt-4").fits());
}

#[test]
fn prompt_data_is_made_from_what_was_collected() {
    let data = PromptData::from_collected(
        CommitCompletionData::new(owned(&["Fix parser"]), vec![diff("a.rs", "+a\n")], "gpt-4"),
        Some(vec![diff("a.rs", "+0\n")]),
        ResponseConvention::Json,
    )
    .unwrap();
    assert_eq!(data.previous_commit_messages, owned(&["Fix parser"]));
    assert_eq!(data.diff.len(), 1);
    assert_eq!(data.diff[0].formatted_diff, "+a\n");
    assert_eq!(data.model, "gpt-4");
    assert_eq!(data.convention, ResponseConvention::Json);
    assert_eq!(data.refinement_prompt, None);
}

#[test]
fn prompt_data_fits_the_patches_into_the_budget_of_the_model() {
    let mut long = String::new();
    for i in 0..2000 {
        long.push_str(&format!("{:09}\n", i));
    }
    assert_eq!(long.len(), 20000);
    let zero: String = long.lines().skip(500).take(1000).map(|l| format!("{}\n", l)).collect();
    let data = PromptData::from_collected(
        CommitCompletionData::new(Vec::new(), vec![diff("a.rs", &long)], "gpt-3.5-turbo"),
        Some(vec![diff("a.rs", &zero)]),
        ResponseConvention::PlainText,
    )
    .unwrap();
    assert_eq!(data.diff[0].formatted_diff, zero);
    let data = PromptData::from_collected(
        CommitCompletionData::new(Vec::new(), vec![diff("a.rs", &long)], "gpt-3.5-turbo"),
        Some(vec![diff("a.rs", &long)]),
        ResponseConvention::PlainText,
    )
    .unwrap();
    assert_eq!(data.diff[0].formatted_diff.len(), 14320);
    assert_eq!(data.diff[0].formatted_diff, long[2840..17160]);
    let data = PromptData::from_collected(
        CommitCompletionData::new(Vec::new(), vec![diff("a.rs", &long)], "gpt-4"),
        None,
        ResponseConvention::PlainText,
    )
    .unwrap();
    assert_eq!(data.diff[0].formatted_diff, long);
}

#[test]
fn prompt_data_without_staged_files_is_refused() {
    let made = PromptData::from_collected(
        CommitCompletionData::new(owned(&["a"]), Vec::new(), "gpt-4"),
        Some(Vec::new()),
        ResponseConvention::PlainText,
    );
    assert!(matches!(made, Err(PromptError::NoStagedFiles)));
    let made = PromptData::from_collected(
        CommitCompletionData::new(owned(&["a"]), Vec::new(), "gpt-4"),
        None,
        ResponseConvention::PlainText,
    );
    assert!(matches!(made, Err(PromptError::NoStagedFiles)));
    let over = "x".repeat(40000);
    let made = PromptData::from_collected(
        CommitCompletionData::new(Vec::new(), vec![diff("a.rs", &over)], "gpt-4"),
        Some(Vec::new()),
        ResponseConvention::PlainText,
    );
    assert!(matches!(made, Err(PromptError::NoStagedFiles)));
}

#[test]
fn refinement_prompt_is_kept() {
    let mut collected = CommitCompletionData::new(Vec::new(), vec![diff("a.rs", "+a\n")], "gpt-4");
    collected.refinement_prompt = Some("as before".to_string());
    let mut data =
        PromptData::from_collected(collected, None, ResponseConvention::PlainText).unwrap();
    assert_eq!(data.refinement_prompt, Some("as before".to_string()));
    data.update_refinement_prompt("shorter".to_string());
    assert_eq!(data.refinement_prompt, Some("shorter".to_string()));
    data.update_refinement_prompt("in French".to_string());
    assert_eq!(data.refinement_prompt, Some("in French".to_string()));
    assert_eq!(data.diff.len(), 1);
    assert_eq!(data.model, "gpt-4");
}

#[test]
fn error_messages() {
    assert_eq!(PromptError::NoStagedFiles.message(), "No staged files");
    assert_eq!(PromptError::OpenAiNoChoices.message(), "OpenAI returned no choices");
    assert_eq!(PromptError::OpenAiNoContent.message(), "OpenAI returned no content");
    assert_eq!(
        PromptError::OpenAiWrongContent("{}".to_string()).message(),
        "OpenAI returned wrong content: {}"
    );
    assert_eq!(
        PromptError::OpenAiUnreachable("timed out".to_string()).message(),
        "Reqwest Error: timed out"
    );
    assert_eq!(PromptError::GitError.message(), "Git error");
}

#[test]
fn prompt_data_needs_the_zero_context_patches_only_over_the_budget() {
    let over = "x".repeat(40000);
    let made = PromptData::from_collected(
        CommitCompletionData::new(Vec::new(), vec![diff("a.rs", &over)], "gpt-4"),
        None,
        ResponseConvention::PlainText,
    );
    assert!(matches!(made, Err(PromptError::GitError)));
    let made = PromptData::from_collected(
        CommitCompletionData::new(Vec::new(), vec![diff("a.rs", &over)], "gpt-3.5-turbo-0125"),
        None,
        ResponseConvention::PlainText,
    );
    assert_eq!(made.unwrap().diff[0].formatted_diff, over);
}

#[test]
fn prompt_data_is_no_longer_than_what_was_collected() {
    let full: String = (0..3000).map(|i| format!("{:09}\n", i)).collect();
    let zero: String = (500..2500).map(|i| format!("{:09}\n", i)).collect();
    for model in ["gpt-3.5-turbo", "gpt-4", "gpt-3.5-turbo-0125"] {
        let made = PromptData::from_collected(
            CommitCompletionData::new(Vec::new(), vec![diff("a.rs", &full)], model),
            Some(vec![diff("a.rs", &zero)]),
            ResponseConvention::PlainText,
        )
        .unwrap();
        let budget = CommitCompletionData::get_length_for_model(model);
        assert!(made.diff[0].formatted_diff.len() <= full.len());
        assert!(made.diff[0].formatted_diff.len() <= budget);
        if full.len() > budget {
            assert!(made.diff[0].formatted_diff.len() <= zero.len());
        }
    }
}

#[test]
fn collected_data_from_a_repository_that_cannot_be_read_is_a_git_error() {
    let read = CommitCompletionData::from_path(
        Some(owned(&["Fix parser"])),
        Some(vec![diff("a.rs", "+a\n")]),
        "gpt-4",
    )
    .unwrap();
    assert_eq!(read.previous_messages, owned(&["Fix parser"]));
    assert_eq!(read.diff.len(), 1);
    assert_eq!(read.diff[0].formatted_diff, "+a\n");
    assert_eq!(read.model, "gpt-4");
    assert_eq!(read.refinement_prompt, None);
    let history: Vec<String> = (0..15).map(|i| format!("commit {}", i)).collect();
    let read = CommitCompletionData::from_path(Some(history), Some(Vec::new()), "m").unwrap();
    assert_eq!(read.previous_messages.len(), 10);
    assert_eq!(read.previous_messages[9], "commit 9");
    assert!(read.diff.is_empty());
    assert!(matches!(
        CommitCompletionData::from_path(None, Some(vec![diff("a.rs", "+a\n")]), "gpt-4"),
        Err(PromptError::GitError)
    ));
    assert!(matches!(
        CommitCompletionData::from_path(Some(Vec::new()), None, "gpt-4"),
        Err(PromptError::GitError)
    ));
    assert!(matches!(
        CommitCompletionData::from_path(None, None, "gpt-4"),
        Err(PromptError::GitError)
    ));
}
