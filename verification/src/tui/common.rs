//! What the widgets share: keys, styled pieces of a line, and steps on a ring.

use vstd::arithmetic::div_mod::{lemma_mod_self_0, lemma_small_mod};
use vstd::prelude::*;

verus! {

/// A key of the terminal, as far as the widgets tell keys apart.
#[derive(Clone, Copy, Debug, PartialEq, Eq, Structural)]
pub enum Key {
    ArrowUp,
    ArrowDown,
    Enter,
    Tab,
    Backspace,
    Char(char),
    /// Any other key.
    Other,
}

/// How a piece of a line is shown.
#[derive(Clone, Copy, Debug, PartialEq, Eq, Structural)]
pub enum Style {
    Plain,
    Cyan,
    Bold,
    White,
}

/// A piece of a line, to be shown in one style.
#[derive(Debug)]
pub struct Span {
    pub text: String,
    pub style: Style,
}

/// A `Span` as plain values.
pub ghost struct SpanView {
    pub text: Seq<char>,
    pub style: Style,
}

impl View for Span {
    type V = SpanView;

    open spec fn view(&self) -> SpanView {
        SpanView { text: self.text@, style: self.style }
    }
}

/// The views of the spans of `line`, in order.
pub open spec fn line_view(line: Seq<Span>) -> Seq<SpanView> {
    line.map_values(|s: Span| s@)
}

/// The views of the lines of `frame`, in order.
pub open spec fn frame_view(frame: Seq<Vec<Span>>) -> Seq<Seq<SpanView>> {
    frame.map_values(|l: Vec<Span>| line_view(l@))
}

/// `text` in `style`.
pub open spec fn styled(text: Seq<char>, style: Style) -> SpanView {
    SpanView { text, style }
}

/// A widget that is driven by keys: it says what a key means to it. Keys are read until
/// one means something.
pub trait ReadAction<T> {
    /// What `key` means to this widget; `None` where the key is passed over.
    fn match_action(&self, key: Key) -> Option<T>;
}

/// The index that follows `num` on a ring of `max` places.
pub open spec fn next_on_ring(num: int, max: int) -> int {
    (num + 1) % max
}

/// The index that precedes `num` on a ring of `max` places.
pub open spec fn prev_on_ring(num: int, max: int) -> int {
    (num - 1 + max) % max
}

/// Moves `num` one place forward on a ring of `max` places; the last place is followed by 0.
pub fn cycle_increment(num: &mut usize, max: &usize)
    requires
        *max > 0,
        *old(num) < *max,
    ensures
        *final(num) == next_on_ring(*old(num) as int, *max as int),
        *final(num) < *max,
        *old(num) + 1 < *max ==> *final(num) == *old(num) + 1,
        *old(num) + 1 == *max ==> *final(num) == 0,
{
    proof {
        if *num + 1 < *max {
            lemma_small_mod((*num + 1) as nat, *max as nat);
        } else {
            lemma_mod_self_0(*max as int);
        }
    }
    *num = (*num + 1) % *max;
}

/// Moves `num` one place back on a ring of `max` places; place 0 is preceded by the last.
pub fn cycle_decrement(num: &mut usize, max: &usize)
    requires
        *max > 0,
        *old(num) < *max,
    ensures
        *final(num) == prev_on_ring(*old(num) as int, *max as int),
        *final(num) < *max,
        *old(num) > 0 ==> *final(num) == *old(num) - 1,
        *old(num) == 0 ==> *final(num) == *max - 1,
{
    proof {
        lemma_wrap_back(*num as int, *max as int);
    }
    *num = if *num == 0 { *max - 1 } else { *num - 1 };
}

/// On a ring of `max` places, the place before `num` is `num - 1`, and before 0 it is `max - 1`.
pub proof fn lemma_wrap_back(num: int, max: int)
    requires
        0 <= num < max,
    ensures
        prev_on_ring(num, max) == (if num == 0 { max - 1 } else { num - 1 }),
        0 <= prev_on_ring(num, max) < max,
{
    if num == 0 {
        lemma_small_mod((max - 1) as nat, max as nat);
    } else {
        assert((num - 1 + max) % max == num - 1) by (nonlinear_arith)
            requires
                0 < num < max,
        ;
    }
}

} // verus!
