//! A list of options of which one is picked with the arrow keys.

use crate::tui::common::{
    cycle_decrement, cycle_increment, frame_view, lemma_wrap_back, line_view, next_on_ring,
    prev_on_ring, styled, Key, ReadAction, Span, SpanView, Style,
};
use vstd::arithmetic::div_mod::{lemma_mod_self_0, lemma_small_mod};
use crate::text::views;
use vstd::prelude::*;
use vstd::string::StringExecFns;

verus! {

/// What the header of a menu tells about its keys.
pub const MENU_HINT: &'static str = "[use arrows to move, enter to select]";

/// What a key means to a menu.
#[derive(Clone, Copy, Debug, PartialEq, Eq, Structural)]
pub enum OptionsMenuAction {
    PrevItem,
    NextItem,
    Confirm,
}

/// What a menu does after an action.
#[derive(Clone, Copy, Debug, PartialEq, Eq, Structural)]
pub enum MenuStep {
    /// The highlight moved to `selected`: the `erase` lines that are on display are wiped
    /// out and the menu is drawn again.
    Redraw { selected: usize, erase: usize },
    /// The option at this place was picked; the menu is over.
    Confirmed(usize),
}

/// What `key` means to a menu: up and Ctrl-P go to the item before, down, Tab and Ctrl-N to
/// the next, Enter confirms. Every other key is passed over.
pub open spec fn menu_action(key: Key) -> Option<OptionsMenuAction> {
    match key {
        Key::ArrowUp => Some(OptionsMenuAction::PrevItem),
        Key::ArrowDown => Some(OptionsMenuAction::NextItem),
        Key::Tab => Some(OptionsMenuAction::NextItem),
        Key::Enter => Some(OptionsMenuAction::Confirm),
        Key::Char(c) => if c == '\u{10}' {
            Some(OptionsMenuAction::PrevItem)
        } else if c == '\u{E}' {
            Some(OptionsMenuAction::NextItem)
        } else {
            None
        },
        _ => None,
    }
}

/// What a menu of `count` options does when `action` comes while `selected` is highlighted.
pub open spec fn menu_step(count: nat, selected: nat, action: OptionsMenuAction) -> MenuStep {
    match action {
        OptionsMenuAction::PrevItem => MenuStep::Redraw {
            selected: prev_on_ring(selected as int, count as int) as usize,
            erase: (count + 1) as usize,
        },
        OptionsMenuAction::NextItem => MenuStep::Redraw {
            selected: next_on_ring(selected as int, count as int) as usize,
            erase: (count + 1) as usize,
        },
        OptionsMenuAction::Confirm => MenuStep::Confirmed(selected as usize),
    }
}

/// The place that is highlighted after the keys of `keys`, one after the other, in a menu
/// of `count` options that starts with `selected` highlighted. With the first key that
/// confirms the menu is over, and the keys behind it are not looked at.
pub open spec fn selected_after(count: nat, selected: nat, keys: Seq<Key>) -> nat
    decreases keys.len(),
{
    if keys.len() == 0 {
        selected
    } else {
        match menu_action(keys[0]) {
            None => selected_after(count, selected, keys.drop_first()),
            Some(action) => match menu_step(count, selected, action) {
                MenuStep::Redraw { selected: next, .. } => selected_after(
                    count,
                    next as nat,
                    keys.drop_first(),
                ),
                MenuStep::Confirmed(at) => at as nat,
            },
        }
    }
}

/// Whatever keys come, the highlight stays on an option of the menu.
pub proof fn lemma_selection_stays_in_menu(count: nat, selected: nat, keys: Seq<Key>)
    requires
        selected < count < usize::MAX,
    ensures
        selected_after(count, selected, keys) < count,
    decreases keys.len(),
{
    if keys.len() > 0 {
        lemma_wrap_back(selected as int, count as int);
        if selected + 1 < count {
            lemma_small_mod((selected + 1) as nat, count);
        } else {
            lemma_mod_self_0(count as int);
        }
        match menu_action(keys[0]) {
            None => {
                lemma_selection_stays_in_menu(count, selected, keys.drop_first());
            },
            Some(action) => {
                match menu_step(count, selected, action) {
                    MenuStep::Redraw { selected: next, .. } => {
                        lemma_selection_stays_in_menu(count, next as nat, keys.drop_first());
                    },
                    MenuStep::Confirmed(_) => {},
                }
            },
        }
    }
}

/// The header of a menu that asks `message`.
pub open spec fn menu_header(message: Seq<char>) -> Seq<SpanView> {
    seq![
        styled("?"@, Style::Cyan),
        styled(" "@, Style::Plain),
        styled(message, Style::Bold),
        styled(" "@, Style::Plain),
        styled(MENU_HINT@, Style::White),
    ]
}

/// The line of the option that is highlighted.
pub open spec fn selected_line(option: Seq<char>) -> SpanView {
    styled("> "@ + option, Style::Cyan)
}

/// The line of an option that is not highlighted.
pub open spec fn unselected_line(option: Seq<char>) -> Seq<char> {
    "  "@ + option
}

/// The line at place `at` of a menu that is drawn with `selected` highlighted.
pub open spec fn menu_line(
    message: Seq<char>,
    options: Seq<Seq<char>>,
    selected: int,
    at: int,
) -> Seq<SpanView> {
    if at == 0 {
        menu_header(message)
    } else if at - 1 == selected {
        seq![selected_line(options[at - 1])]
    } else {
        seq![styled(unselected_line(options[at - 1]), Style::Plain)]
    }
}

/// A menu as it is drawn with `selected` highlighted: the header, then one line for each
/// option.
pub open spec fn menu_frame(message: Seq<char>, options: Seq<Seq<char>>, selected: int) -> Seq<
    Seq<SpanView>,
> {
    Seq::new(options.len() + 1, |at: int| menu_line(message, options, selected, at))
}

/// A question with a list of options to pick one from.
pub struct OptionsMenu {
    message: String,
    options: Vec<String>,
}

impl ReadAction<OptionsMenuAction> for OptionsMenu {
    fn match_action(&self, key: Key) -> (action: Option<OptionsMenuAction>)
        ensures
            action == menu_action(key),
    {
        match key {
            Key::ArrowUp => Some(OptionsMenuAction::PrevItem),
            Key::ArrowDown => Some(OptionsMenuAction::NextItem),
            Key::Tab => Some(OptionsMenuAction::NextItem),
            Key::Enter => Some(OptionsMenuAction::Confirm),
            Key::Char(c) => {
                if c == '\u{10}' {
                    Some(OptionsMenuAction::PrevItem)
                } else if c == '\u{E}' {
                    Some(OptionsMenuAction::NextItem)
                } else {
                    None
                }
            },
            _ => None,
        }
    }
}

impl OptionsMenu {
    /// The header and the options can be counted together.
    #[verifier::type_invariant]
    spec fn countable(&self) -> bool {
        self.options@.len() < usize::MAX
    }

    /// The question that is asked.
    pub closed spec fn message(&self) -> Seq<char> {
        self.message@
    }

    /// The options, in the order in which they are shown.
    pub closed spec fn options(&self) -> Seq<Seq<char>> {
        views(self.options@)
    }

    /// A menu that asks `message` and offers `options`.
    pub fn new(message: String, options: Vec<String>) -> (menu: OptionsMenu)
        requires
            options@.len() < usize::MAX,
        ensures
            menu.message() == message@,
            menu.options() == views(options@),
    {
        OptionsMenu { message, options }
    }

    /// The number of options.
    pub fn count(&self) -> (count: usize)
        ensures
            count == self.options().len(),
            count < usize::MAX,
    {
        proof {
            use_type_invariant(self);
        }
        self.options.len()
    }

    /// The header: a question mark, the question and the hint about the keys.
    pub fn format_message(&self) -> (line: Vec<Span>)
        ensures
            line_view(line@) == menu_header(self.message()),
    {
        let mut line: Vec<Span> = Vec::new();
        line.push(Span { text: "?".to_owned(), style: Style::Cyan });
        line.push(Span { text: " ".to_owned(), style: Style::Plain });
        line.push(Span { text: self.message.clone(), style: Style::Bold });
        line.push(Span { text: " ".to_owned(), style: Style::Plain });
        line.push(Span { text: MENU_HINT.to_owned(), style: Style::White });
        line
    }

    /// The line of `option` when it is highlighted.
    pub fn format_selected_option(&self, option: &String) -> (span: Span)
        ensures
            span@ == selected_line(option@),
    {
        Span { text: "> ".to_owned().concat(option.as_str()), style: Style::Cyan }
    }

    /// The line of `option` when it is not highlighted.
    pub fn format_unselected_option(&self, option: &String) -> (line: String)
        ensures
            line@ == unselected_line(option@),
    {
        "  ".to_owned().concat(option.as_str())
    }

    /// The lines of the menu with the option at `selected` highlighted: the header, then
    /// the options in their order.
    pub fn frame(&self, selected: usize) -> (lines: Vec<Vec<Span>>)
        ensures
            frame_view(lines@) == menu_frame(self.message(), self.options(), selected as int),
            lines@.len() == self.options().len() + 1,
    {
        let ghost want = menu_frame(self.message(), self.options(), selected as int);
        let mut lines: Vec<Vec<Span>> = Vec::new();
        lines.push(self.format_message());
        let mut i: usize = 0;
        while i < self.options.len()
            invariant
                i <= self.options.len(),
                want == menu_frame(self.message(), self.options(), selected as int),
                lines@.len() == i + 1,
                frame_view(lines@) == want.take(i + 1),
            decreases self.options.len() - i,
        {
            let mut line: Vec<Span> = Vec::new();
            if i == selected {
                line.push(self.format_selected_option(&self.options[i]));
            } else {
                line.push(
                    Span {
                        text: self.format_unselected_option(&self.options[i]),
                        style: Style::Plain,
                    },
                );
            }
            assert(line_view(line@) =~= want[i + 1]);
            lines.push(line);
            i += 1;
        }
        lines
    }

    /// What the menu does when `action` comes while the option at `selected` is
    /// highlighted. Going back from the first option leads to the last, and going on from
    /// the last leads to the first.
    pub fn step(&self, selected: usize, action: OptionsMenuAction) -> (step: MenuStep)
        requires
            selected < self.options().len(),
        ensures
            step == menu_step(self.options().len(), selected as nat, action),
            step matches MenuStep::Redraw { selected: next, erase } ==> next < self.options().len()
                && erase == self.options().len() + 1,
            action == OptionsMenuAction::PrevItem ==> step == (MenuStep::Redraw {
                selected: if selected == 0 {
                    (self.options().len() - 1) as usize
                } else {
                    (selected - 1) as usize
                },
                erase: (self.options().len() + 1) as usize,
            }),
            action == OptionsMenuAction::NextItem ==> step == (MenuStep::Redraw {
                selected: if selected + 1 == self.options().len() {
                    0
                } else {
                    (selected + 1) as usize
                },
                erase: (self.options().len() + 1) as usize,
            }),
    {
        proof {
            use_type_invariant(self);
        }
        let count = self.options.len();
        let mut next = selected;
        match action {
            OptionsMenuAction::PrevItem => {
                cycle_decrement(&mut next, &count);
                MenuStep::Redraw { selected: next, erase: count + 1 }
            },
            OptionsMenuAction::NextItem => {
                cycle_increment(&mut next, &count);
                MenuStep::Redraw { selected: next, erase: count + 1 }
            },
            OptionsMenuAction::Confirm => MenuStep::Confirmed(selected),
        }
    }
}

} // verus!
