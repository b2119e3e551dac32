use smart_commit::tui::common::{
    cycle_decrement, cycle_increment, Key, ReadAction, Span, Style,
};
use smart_commit::tui::input::{InputAction, InputEffect};
use smart_commit::tui::options_menu::{MenuStep, OptionsMenuAction, MENU_HINT};
use smart_commit::tui::{Input, OptionsMenu};

fn menu(options: &[&str]) -> OptionsMenu {
    OptionsMenu::new("Pick one".to_string(), options.iter().map(|o| o.to_string()).collect())
}

fn plain(line: &Vec<Span>) -> String {
    line.iter().map(|s| s.text.as_str()).collect()
}

fn styles(line: &Vec<Span>) -> Vec<Style> {
    line.iter().map(|s| s.style).collect()
}

#[test]
fn cycle_wraps_at_both_ends() {
    let max = 4usize;
    let mut at = 0usize;
    cycle_decrement(&mut at, &max);
    assert_eq!(at, 3);
    cycle_increment(&mut at, &max);
    assert_eq!(at, 0);
    cycle_increment(&mut at, &max);
    assert_eq!(at, 1);
    cycle_decrement(&mut at, &max);
    assert_eq!(at, 0);
}

#[test]
fn cycle_on_a_ring_of_one_stays() {
    let max = 1usize;
    let mut at = 0usize;
    cycle_increment(&mut at, &max);
    assert_eq!(at, 0);
    cycle_decrement(&mut at, &max);
    assert_eq!(at, 0);
}

#[test]
fn cycle_follows_the_formulas() {
    for max in 1..7usize {
        for start in 0..max {
            let mut up = start;
            cycle_increment(&mut up, &max);
            assert_eq!(up, (start + 1) % max);
            let mut down = start;
            cycle_decrement(&mut down, &max);
            assert_eq!(down, (start + max - 1) % max);
        }
    }
}

#[test]
fn menu_keys() {
    let m = menu(&["a", "b"]);
    assert_eq!(m.match_action(Key::ArrowUp), Some(OptionsMenuAction::PrevItem));
    assert_eq!(m.match_action(Key::Char('\u{10}')), Some(OptionsMenuAction::PrevItem));
    assert_eq!(m.match_action(Key::ArrowDown), Some(OptionsMenuAction::NextItem));
    assert_eq!(m.match_action(Key::Tab), Some(OptionsMenuAction::NextItem));
    assert_eq!(m.match_action(Key::Char('\u{e}')), Some(OptionsMenuAction::NextItem));
    assert_eq!(m.match_action(Key::Enter), Some(OptionsMenuAction::Confirm));
    assert_eq!(m.match_action(Key::Char('a')), None);
    assert_eq!(m.match_action(Key::Char(' ')), None);
    assert_eq!(m.match_action(Key::Backspace), None);
    assert_eq!(m.match_action(Key::Other), None);
}

#[test]
fn menu_wraps_from_first_to_last_and_back() {
    let m = menu(&["a", "b", "c"]);
    assert_eq!(m.count(), 3);
    assert_eq!(
        m.step(0, OptionsMenuAction::PrevItem),
        MenuStep::Redraw { selected: 2, erase: 4 }
    );
    assert_eq!(
        m.step(2, OptionsMenuAction::NextItem),
        MenuStep::Redraw { selected: 0, erase: 4 }
    );
    assert_eq!(
        m.step(1, OptionsMenuAction::PrevItem),
        MenuStep::Redraw { selected: 0, erase: 4 }
    );
    assert_eq!(
        m.step(1, OptionsMenuAction::NextItem),
        MenuStep::Redraw { selected: 2, erase: 4 }
    );
}

#[test]
fn menu_confirm_returns_the_selected_index() {
    let m = menu(&["a", "b", "c"]);
    assert_eq!(m.step(0, OptionsMenuAction::Confirm), MenuStep::Confirmed(0));
    assert_eq!(m.step(2, OptionsMenuAction::Confirm), MenuStep::Confirmed(2));
}

#[test]
fn menu_run_over_a_sequence_of_keys() {
    let m = menu(&["a", "b", "c"]);
    let keys = [
        Key::ArrowUp,
        Key::Char('x'),
        Key::Tab,
        Key::ArrowDown,
        Key::Char('\u{e}'),
        Key::Char('\u{10}'),
        Key::Enter,
    ];
    let mut selected = 0usize;
    let mut redraws = 0usize;
    let mut picked = None;
    for key in keys {
        if let Some(action) = m.match_action(key) {
            match m.step(selected, action) {
                MenuStep::Redraw { selected: next, erase } => {
                    assert_eq!(erase, 4);
                    selected = next;
                    redraws += 1;
                },
                MenuStep::Confirmed(at) => {
                    picked = Some(at);
                    break;
                },
            }
        }
    }
    assert_eq!(redraws, 5);
    assert_eq!(picked, Some(1));
}

#[test]
fn menu_header_and_option_lines() {
    let m = menu(&["a", "b"]);
    let header = m.format_message();
    assert_eq!(plain(&header), "? Pick one [use arrows to move, enter to select]");
    assert_eq!(
        styles(&header),
        vec![Style::Cyan, Style::Plain, Style::Bold, Style::Plain, Style::White]
    );
    assert_eq!(header[0].text, "?");
    assert_eq!(header[2].text, "Pick one");
    assert_eq!(header[4].text, MENU_HINT);
    let selected = m.format_selected_option(&"first".to_string());
    assert_eq!(selected.text, "> first");
    assert_eq!(selected.style, Style::Cyan);
    assert_eq!(m.format_unselected_option(&"first".to_string()), "  first");
}

#[test]
fn menu_frame_has_a_header_and_one_line_for_each_option() {
    let m = menu(&["a", "b", "c"]);
    let frame = m.frame(1);
    assert_eq!(frame.len(), 4);
    let lines: Vec<String> = frame.iter().map(plain).collect();
    assert_eq!(
        lines,
        vec!["? Pick one [use arrows to move, enter to select]", "  a", "> b", "  c"]
    );
    assert_eq!(styles(&frame[1]), vec![Style::Plain]);
    assert_eq!(styles(&frame[2]), vec![Style::Cyan]);
    assert_eq!(styles(&frame[3]), vec![Style::Plain]);
    let lines: Vec<String> = m.frame(0).iter().map(plain).collect();
    assert_eq!(lines[1..], ["> a", "  b", "  c"]);
    let none: Vec<String> = m.frame(7).iter().map(plain).collect();
    assert_eq!(none[1..], ["  a", "  b", "  c"]);
    assert_eq!(menu(&[]).frame(0).len(), 1);
}

#[test]
fn input_keys() {
    let input = Input::new("What".to_string());
    assert_eq!(input.match_action(Key::Enter), Some(InputAction::Confirm));
    assert_eq!(input.match_action(Key::Char('a')), Some(InputAction::Char('a')));
    assert_eq!(input.match_action(Key::Backspace), Some(InputAction::OtherKey(Key::Backspace)));
    assert_eq!(input.match_action(Key::Tab), Some(InputAction::OtherKey(Key::Tab)));
    assert_eq!(input.match_action(Key::ArrowUp), Some(InputAction::OtherKey(Key::ArrowUp)));
    assert_eq!(input.match_action(Key::Other), Some(InputAction::OtherKey(Key::Other)));
}

#[test]
fn input_header() {
    let input = Input::new("What would you like to change".to_string());
    let header = input.format_message();
    assert_eq!(plain(&header), "? What would you like to change: ");
    assert_eq!(styles(&header), vec![Style::Cyan, Style::Plain, Style::Bold, Style::Plain]);
}

#[test]
fn input_starts_from_the_prefill() {
    let input = Input::new("What".to_string());
    assert_eq!(input.start(&Some("make it shorter")), "make it shorter");
    assert_eq!(input.start(&None), "");
    assert_eq!(input.start(&Some("")), "");
}

#[test]
fn input_appends_and_echoes_characters_that_can_be_shown() {
    let input = Input::new("What".to_string());
    let mut text = String::from("ab");
    assert_eq!(input.edit(&mut text, InputAction::Char('c')), InputEffect::Echo('c'));
    assert_eq!(text, "abc");
    assert_eq!(input.edit(&mut text, InputAction::Char(' ')), InputEffect::Echo(' '));
    assert_eq!(input.edit(&mut text, InputAction::Char('\u{e9}')), InputEffect::Echo('\u{e9}'));
    assert_eq!(text, "abc \u{e9}");
    for control in ['\u{0}', '\u{10}', '\u{e}', '\u{1f}', '\u{7f}', '\u{9f}', '\t'] {
        assert_eq!(input.edit(&mut text, InputAction::Char(control)), InputEffect::Nothing);
        assert!(!Input::can_show(control));
    }
    assert_eq!(text, "abc \u{e9}");
    assert!(Input::can_show('~'));
    assert!(Input::can_show('\u{a0}'));
}

#[test]
fn input_backspace_removes_the_last_character() {
    let input = Input::new("What".to_string());
    let mut text = String::from("a\u{e9}");
    let back = InputAction::OtherKey(Key::Backspace);
    assert_eq!(input.edit(&mut text, back), InputEffect::Erase);
    assert_eq!(text, "a");
    assert_eq!(input.edit(&mut text, back), InputEffect::Erase);
    assert_eq!(text, "");
    assert_eq!(input.edit(&mut text, back), InputEffect::Nothing);
    assert_eq!(text, "");
}

#[test]
fn input_passes_over_other_keys_and_finishes_on_enter() {
    let input = Input::new("What".to_string());
    let mut text = String::from("kept");
    for key in [Key::ArrowUp, Key::ArrowDown, Key::Tab, Key::Other] {
        assert_eq!(input.edit(&mut text, InputAction::OtherKey(key)), InputEffect::Nothing);
    }
    assert_eq!(input.edit(&mut text, InputAction::Confirm), InputEffect::Finish);
    assert_eq!(text, "kept");
}

#[test]
fn input_run_over_a_sequence_of_keys_with_prefill() {
    let input = Input::new("What".to_string());
    let mut text = input.start(&Some("short"));
    let keys = [
        Key::Backspace,
        Key::Backspace,
        Key::Char('e'),
        Key::ArrowUp,
        Key::Char('r'),
        Key::Char('\u{10}'),
        Key::Enter,
        Key::Char('!'),
    ];
    let mut shown = String::from("short");
    let mut finished = false;
    for key in keys {
        let action = input.match_action(key).unwrap();
        match input.edit(&mut text, action) {
            InputEffect::Finish => {
                finished = true;
                break;
            },
            InputEffect::Echo(c) => shown.push(c),
            InputEffect::Erase => {
                shown.pop();
            },
            InputEffect::Nothing => {},
        }
    }
    assert!(finished);
    assert_eq!(text, "shoer");
    assert_eq!(shown, text);
}
