//! Fitting the staged patches into a byte budget.

use crate::git::{diff_views, FileDiff, FileDiffView};
use crate::lines::{
    count_lines, lemma_lines_of_filled, lemma_strip_ends, lemma_strip_ends_is_piece, line_count,
    strip_ends, strip_outer_lines,
};
use crate::prompt::{PromptError, PromptErrorView};
use crate::text::{
    byte_len, is_piece_of, lemma_byte_len_piece, lemma_byte_len_zero, lemma_piece_of_piece,
};
use vstd::prelude::*;

verus! {

/// The sum of the numbers of `s`.
pub open spec fn sum(s: Seq<nat>) -> nat
    decreases s.len(),
{
    if s.len() == 0 {
        0
    } else {
        sum(s.drop_last()) + s.last()
    }
}

/// The byte length of each patch of `diffs`.
pub open spec fn lengths(diffs: Seq<FileDiffView>) -> Seq<nat> {
    Seq::new(diffs.len(), |i: int| byte_len(diffs[i].formatted_diff))
}

/// The number of lines of each patch of `diffs`.
pub open spec fn line_counts(diffs: Seq<FileDiffView>) -> Seq<nat> {
    Seq::new(diffs.len(), |i: int| line_count(diffs[i].formatted_diff))
}

/// The serialized length of `diffs`: the bytes of all its patches together.
pub open spec fn total_len(diffs: Seq<FileDiffView>) -> nat {
    sum(lengths(diffs))
}

/// The lines of all patches of `diffs` together.
pub open spec fn total_lines(diffs: Seq<FileDiffView>) -> nat {
    sum(line_counts(diffs))
}

/// The place of the longest patch of `diffs`; of several of that length, the earliest.
pub open spec fn longest(diffs: Seq<FileDiffView>) -> int
    decreases diffs.len(),
{
    if diffs.len() <= 1 {
        0
    } else {
        let best = longest(diffs.drop_last());
        if byte_len(diffs.last().formatted_diff) > byte_len(diffs[best].formatted_diff) {
            diffs.len() - 1
        } else {
            best
        }
    }
}

/// No patch of `diffs` has more than two lines.
pub open spec fn all_short(diffs: Seq<FileDiffView>) -> bool {
    forall|i: int| 0 <= i < diffs.len() ==> line_count(#[trigger] diffs[i].formatted_diff) <= 2
}

/// Trimming `diffs` for `budget` is over: they fit, or nothing is left to take away.
pub open spec fn settled(diffs: Seq<FileDiffView>, budget: nat) -> bool {
    total_len(diffs) <= budget || all_short(diffs)
}

/// `d` without the first and the last line of its patch.
pub open spec fn stripped(d: FileDiffView) -> FileDiffView {
    FileDiffView {
        path: d.path,
        delta_type: d.delta_type,
        formatted_diff: strip_ends(d.formatted_diff),
    }
}

/// One cycle of trimming: the longest patch of `diffs` loses its first and its last line; the
/// others, and the order, stay.
pub open spec fn trim_once(diffs: Seq<FileDiffView>) -> Seq<FileDiffView> {
    diffs.update(longest(diffs), stripped(diffs[longest(diffs)]))
}

/// `diffs` trimmed for `budget`: cycle after cycle until they are settled.
pub open spec fn trimmed(diffs: Seq<FileDiffView>, budget: nat) -> Seq<FileDiffView>
    decreases total_lines(diffs),
{
    if settled(diffs, budget) {
        diffs
    } else {
        proof {
            lemma_cycle_takes_lines(diffs, budget);
        }
        trimmed(trim_once(diffs), budget)
    }
}

/// The number of cycles that trimming `diffs` for `budget` takes.
pub open spec fn trim_cycles(diffs: Seq<FileDiffView>, budget: nat) -> nat
    decreases total_lines(diffs),
{
    if settled(diffs, budget) {
        0
    } else {
        proof {
            lemma_cycle_takes_lines(diffs, budget);
        }
        1 + trim_cycles(trim_once(diffs), budget)
    }
}

/// Replacing one number of a sequence changes the sum by the difference.
pub proof fn lemma_sum_update(s: Seq<nat>, at: int, value: nat)
    requires
        0 <= at < s.len(),
    ensures
        sum(s.update(at, value)) == sum(s) - s[at] + value,
        s[at] <= sum(s),
    decreases s.len(),
{
    if at == s.len() - 1 {
        assert(s.update(at, value).drop_last() == s.drop_last());
    } else {
        lemma_sum_update(s.drop_last(), at, value);
        assert(s.update(at, value).drop_last() == s.drop_last().update(at, value));
    }
}

/// A sum of nothing but zeros is zero.
pub proof fn lemma_sum_zero(s: Seq<nat>)
    requires
        forall|i: int| 0 <= i < s.len() ==> s[i] == 0,
    ensures
        sum(s) == 0,
    decreases s.len(),
{
    if s.len() > 0 {
        lemma_sum_zero(s.drop_last());
    }
}

/// `longest` is a place of `diffs` whose patch is at least as long as every other and longer
/// than every earlier one.
pub proof fn lemma_longest(diffs: Seq<FileDiffView>)
    requires
        diffs.len() > 0,
    ensures
        0 <= longest(diffs) < diffs.len(),
        forall|i: int|
            0 <= i < diffs.len() ==> byte_len(#[trigger] diffs[i].formatted_diff) <= byte_len(
                diffs[longest(diffs)].formatted_diff,
            ),
        forall|i: int|
            0 <= i < longest(diffs) ==> byte_len(#[trigger] diffs[i].formatted_diff) < byte_len(
                diffs[longest(diffs)].formatted_diff,
            ),
    decreases diffs.len(),
{
    if diffs.len() > 1 {
        let front = diffs.drop_last();
        lemma_longest(front);
        assert forall|i: int| 0 <= i < diffs.len() - 1 implies diffs[i] == front[i] by {}
    }
}

/// A place whose patch is at least as long as every other and longer than every earlier one
/// is `longest`.
pub proof fn lemma_longest_is(diffs: Seq<FileDiffView>, at: int)
    requires
        0 <= at < diffs.len(),
        forall|i: int|
            0 <= i < diffs.len() ==> byte_len(#[trigger] diffs[i].formatted_diff) <= byte_len(
                diffs[at].formatted_diff,
            ),
        forall|i: int|
            0 <= i < at ==> byte_len(#[trigger] diffs[i].formatted_diff) < byte_len(
                diffs[at].formatted_diff,
            ),
    ensures
        longest(diffs) == at,
{
    lemma_longest(diffs);
    let best = longest(diffs);
    if best < at {
        assert(byte_len(diffs[best].formatted_diff) < byte_len(diffs[at].formatted_diff));
    } else if at < best {
        assert(byte_len(diffs[at].formatted_diff) < byte_len(diffs[best].formatted_diff));
    }
}

/// What one cycle does to the totals: the longest patch gives up the bytes and the lines of
/// its first and last line.
pub proof fn lemma_trim_once(diffs: Seq<FileDiffView>)
    requires
        diffs.len() > 0,
    ensures
        trim_once(diffs).len() == diffs.len(),
        total_len(trim_once(diffs)) <= total_len(diffs),
        total_lines(trim_once(diffs)) <= total_lines(diffs),
        line_count(diffs[longest(diffs)].formatted_diff) > 0 ==> total_lines(trim_once(diffs))
            < total_lines(diffs),
{
    lemma_longest(diffs);
    let at = longest(diffs);
    let before = diffs[at].formatted_diff;
    let after = strip_ends(before);
    lemma_strip_ends(before);
    lemma_strip_ends_is_piece(before);
    let (from, to) = choose|from: int, to: int|
        0 <= from <= to <= before.len() && after == before.subrange(from, to);
    lemma_byte_len_piece(before, from, to);
    lemma_sum_update(lengths(diffs), at, byte_len(after));
    lemma_sum_update(line_counts(diffs), at, line_count(after));
    assert(lengths(trim_once(diffs)) == lengths(diffs).update(at, byte_len(after)));
    assert(line_counts(trim_once(diffs)) == line_counts(diffs).update(at, line_count(after)));
}

/// While trimming is not over, a cycle takes at least one line away.
pub proof fn lemma_cycle_takes_lines(diffs: Seq<FileDiffView>, budget: nat)
    requires
        !settled(diffs, budget),
    ensures
        total_lines(trim_once(diffs)) < total_lines(diffs),
{
    if diffs.len() == 0 {
        assert(all_short(diffs));
    } else {
        lemma_longest(diffs);
        let at = longest(diffs);
        let text = diffs[at].formatted_diff;
        if text.len() == 0 {
            lemma_byte_len_zero(text);
            assert forall|i: int| 0 <= i < diffs.len() implies lengths(diffs)[i] == 0 by {
                assert(byte_len(diffs[i].formatted_diff) <= byte_len(text));
            }
            lemma_sum_zero(lengths(diffs));
        } else {
            lemma_lines_of_filled(text);
            lemma_trim_once(diffs);
        }
    }
}

/// The sum of the first numbers of a sequence is no more than the sum of all of them.
pub proof fn lemma_sum_prefix(s: Seq<nat>, n: int)
    requires
        0 <= n <= s.len(),
    ensures
        sum(s.take(n)) <= sum(s),
    decreases s.len(),
{
    if n == s.len() {
        assert(s.take(n) == s);
    } else {
        lemma_sum_prefix(s.drop_last(), n);
        assert(s.drop_last().take(n) == s.take(n));
    }
}

/// Trimming ends settled: within the budget, or with no patch of more than two lines.
pub proof fn lemma_trimmed_settled(diffs: Seq<FileDiffView>, budget: nat)
    ensures
        settled(trimmed(diffs, budget), budget),
    decreases total_lines(diffs),
{
    if !settled(diffs, budget) {
        lemma_cycle_takes_lines(diffs, budget);
        lemma_trimmed_settled(trim_once(diffs), budget);
    }
}

/// Trimming never makes the set longer in bytes.
pub proof fn lemma_trimming_never_grows(diffs: Seq<FileDiffView>, budget: nat)
    ensures
        total_len(trimmed(diffs, budget)) <= total_len(diffs),
        total_lines(trimmed(diffs, budget)) <= total_lines(diffs),
    decreases total_lines(diffs),
{
    if !settled(diffs, budget) {
        lemma_cycle_takes_lines(diffs, budget);
        if diffs.len() > 0 {
            lemma_trim_once(diffs);
        }
        lemma_trimming_never_grows(trim_once(diffs), budget);
    }
}

/// Trimming takes no more cycles than the set has lines, and each cycle takes a line away:
/// the cycles and the lines that are left are together no more than the lines at the start.
pub proof fn lemma_trim_cycles_bounded(diffs: Seq<FileDiffView>, budget: nat)
    ensures
        trim_cycles(diffs, budget) + total_lines(trimmed(diffs, budget)) <= total_lines(diffs),
        trim_cycles(diffs, budget) <= total_lines(diffs),
    decreases total_lines(diffs),
{
    if !settled(diffs, budget) {
        lemma_cycle_takes_lines(diffs, budget);
        lemma_trim_cycles_bounded(trim_once(diffs), budget);
    }
}

/// The same file as `before`, with a contiguous piece of its patch.
pub open spec fn same_file_less_text(after: FileDiffView, before: FileDiffView) -> bool {
    &&& after.path == before.path
    &&& after.delta_type == before.delta_type
    &&& is_piece_of(after.formatted_diff, before.formatted_diff)
}

/// Every patch of `after` is for the same file as the patch in its place in `before`, with
/// a contiguous piece of its text.
pub open spec fn same_files_less_text(after: Seq<FileDiffView>, before: Seq<FileDiffView>) -> bool {
    &&& after.len() == before.len()
    &&& forall|i: int| 0 <= i < before.len() ==> same_file_less_text(#[trigger] after[i], before[i])
}

/// A set stands in this relation to itself.
pub proof fn lemma_same_files_self(diffs: Seq<FileDiffView>)
    ensures
        same_files_less_text(diffs, diffs),
{
    assert forall|i: int| 0 <= i < diffs.len() implies same_file_less_text(
        #[trigger] diffs[i],
        diffs[i],
    ) by {
        let text = diffs[i].formatted_diff;
        assert(text == text.subrange(0, text.len() as int));
    }
}

/// The relation carries over two steps.
pub proof fn lemma_same_files_chain(
    last: Seq<FileDiffView>,
    mid: Seq<FileDiffView>,
    first: Seq<FileDiffView>,
)
    requires
        same_files_less_text(last, mid),
        same_files_less_text(mid, first),
    ensures
        same_files_less_text(last, first),
{
    assert forall|i: int| 0 <= i < first.len() implies same_file_less_text(
        #[trigger] last[i],
        first[i],
    ) by {
        lemma_piece_of_piece(
            last[i].formatted_diff,
            mid[i].formatted_diff,
            first[i].formatted_diff,
        );
    }
}

/// One cycle keeps every file in its place and takes text away from one patch only.
pub proof fn lemma_trim_once_keeps_files(diffs: Seq<FileDiffView>)
    requires
        diffs.len() > 0,
    ensures
        same_files_less_text(trim_once(diffs), diffs),
{
    lemma_longest(diffs);
    lemma_same_files_self(diffs);
    let at = longest(diffs);
    lemma_strip_ends_is_piece(diffs[at].formatted_diff);
    let once = trim_once(diffs);
    assert forall|i: int| 0 <= i < diffs.len() implies same_file_less_text(
        #[trigger] once[i],
        diffs[i],
    ) by {
        if i != at {
            assert(once[i] == diffs[i]);
        }
    }
}

/// Trimming keeps every file in its place, with its path and its kind of change, and what is
/// left of a patch is a contiguous piece of what it was.
pub proof fn lemma_trimmed_keeps_files(diffs: Seq<FileDiffView>, budget: nat)
    ensures
        same_files_less_text(trimmed(diffs, budget), diffs),
    decreases total_lines(diffs),
{
    if settled(diffs, budget) {
        lemma_same_files_self(diffs);
    } else {
        lemma_cycle_takes_lines(diffs, budget);
        if diffs.len() == 0 {
            assert(all_short(diffs));
        }
        let once = trim_once(diffs);
        lemma_trim_once_keeps_files(diffs);
        lemma_trimmed_keeps_files(once, budget);
        lemma_same_files_chain(trimmed(once, budget), once, diffs);
    }
}

/// Where all patches but one are empty, trimming touches only that one.
pub proof fn lemma_only_filled_patch_is_trimmed(
    diffs: Seq<FileDiffView>,
    at: int,
    budget: nat,
)
    requires
        0 <= at < diffs.len(),
        forall|i: int| 0 <= i < diffs.len() && i != at ==> diffs[i].formatted_diff.len() == 0,
    ensures
        trimmed(diffs, budget).len() == diffs.len(),
        forall|i: int|
            0 <= i < diffs.len() && i != at ==> #[trigger] trimmed(diffs, budget)[i] == diffs[i],
    decreases total_lines(diffs),
{
    if !settled(diffs, budget) {
        lemma_cycle_takes_lines(diffs, budget);
        lemma_longest(diffs);
        let text = diffs[at].formatted_diff;
        assert forall|i: int| 0 <= i < diffs.len() && i != at implies byte_len(
            #[trigger] diffs[i].formatted_diff,
        ) == 0 by {
            lemma_byte_len_zero(diffs[i].formatted_diff);
        }
        if byte_len(text) == 0 {
            assert forall|i: int| 0 <= i < diffs.len() implies lengths(diffs)[i] == 0 by {
                assert(byte_len(diffs[i].formatted_diff) == 0);
            }
            lemma_sum_zero(lengths(diffs));
        }
        lemma_longest_is(diffs, at);
        let once = trim_once(diffs);
        assert forall|i: int| 0 <= i < once.len() && i != at implies once[i].formatted_diff.len()
            == 0 by {
            assert(once[i] == diffs[i]);
        }
        lemma_only_filled_patch_is_trimmed(once, at, budget);
        assert forall|i: int| 0 <= i < diffs.len() && i != at implies #[trigger] trimmed(
            diffs,
            budget,
        )[i] == diffs[i] by {
            assert(trimmed(once, budget)[i] == once[i]);
        }
    }
}

/// The set that is handed on: the full-context patches where they fit the budget; else the
/// zero-context patches, as they are where they fit, and trimmed where they do not.
pub open spec fn fitted(
    full: Seq<FileDiffView>,
    zero_context: Seq<FileDiffView>,
    budget: nat,
) -> Seq<FileDiffView> {
    if total_len(full) <= budget {
        full
    } else if total_len(zero_context) <= budget {
        zero_context
    } else {
        trimmed(zero_context, budget)
    }
}

/// Nothing is staged in the set that `fitted` starts from.
pub open spec fn nothing_staged(
    full: Seq<FileDiffView>,
    zero_context: Seq<FileDiffView>,
    budget: nat,
) -> bool {
    full.len() == 0 || (total_len(full) > budget && zero_context.len() == 0)
}

/// From phase to phase the serialized length does not grow: where the zero-context patches
/// are no longer than the full-context ones, what is handed on is no longer than either set
/// it was made from.
pub proof fn lemma_phases_never_grow(
    full: Seq<FileDiffView>,
    zero_context: Seq<FileDiffView>,
    budget: nat,
)
    requires
        total_len(zero_context) <= total_len(full),
    ensures
        total_len(trimmed(zero_context, budget)) <= total_len(zero_context) <= total_len(full),
        total_len(fitted(full, zero_context, budget)) <= total_len(full),
{
    lemma_trimming_never_grows(zero_context, budget);
}

/// The number of bytes of the patch of `diff`.
pub fn patch_len(diff: &FileDiff) -> (len: usize)
    ensures
        len == byte_len(diff@.formatted_diff),
{
    diff.formatted_diff.as_str().as_bytes().len()
}

/// Whether `diffs` fit `budget`.
pub fn fits_budget(diffs: &Vec<FileDiff>, budget: usize) -> (fits: bool)
    ensures
        fits == (total_len(diff_views(diffs@)) <= budget),
{
    let ghost all = diff_views(diffs@);
    let mut total: usize = 0;
    let mut i: usize = 0;
    while i < diffs.len()
        invariant
            i <= diffs.len(),
            all == diff_views(diffs@),
            total == sum(lengths(all).take(i as int)),
            total <= budget,
        decreases diffs.len() - i,
    {
        let len = patch_len(&diffs[i]);
        proof {
            let next = lengths(all).take(i + 1);
            assert(next.drop_last() == lengths(all).take(i as int));
            lemma_sum_prefix(lengths(all), i + 1);
        }
        if len > budget - total {
            return false;
        }
        total = total + len;
        i += 1;
    }
    assert(lengths(all).take(diffs.len() as int) == lengths(all));
    true
}

/// The place of the longest patch of `diffs`; of several of that length, the earliest.
pub fn longest_index(diffs: &Vec<FileDiff>) -> (at: usize)
    requires
        diffs.len() > 0,
    ensures
        at == longest(diff_views(diffs@)),
        at < diffs.len(),
{
    let ghost all = diff_views(diffs@);
    let mut at: usize = 0;
    let mut best: usize = patch_len(&diffs[0]);
    let mut i: usize = 1;
    while i < diffs.len()
        invariant
            1 <= i <= diffs.len(),
            at < i,
            all == diff_views(diffs@),
            best == byte_len(all[at as int].formatted_diff),
            forall|j: int| 0 <= j < i ==> byte_len(#[trigger] all[j].formatted_diff) <= best,
            forall|j: int| 0 <= j < at ==> byte_len(#[trigger] all[j].formatted_diff) < best,
        decreases diffs.len() - i,
    {
        let len = patch_len(&diffs[i]);
        if len > best {
            at = i;
            best = len;
        }
        i += 1;
    }
    proof {
        lemma_longest_is(all, at as int);
    }
    at
}

/// What trimming made of a set of patches.
pub struct Trimmed {
    /// The patches, in the order in which they came.
    pub diffs: Vec<FileDiff>,
    /// The number of cycles in which a patch lost its first and last line; `usize::MAX` if
    /// there were more than that.
    pub cycles: usize,
    /// Whether the patches fit the budget.
    pub within_budget: bool,
}

/// The line counts of the patches of `diffs`.
fn count_all(diffs: &Vec<FileDiff>) -> (counts: Vec<usize>)
    ensures
        counts@.len() == diffs@.len(),
        forall|i: int|
            0 <= i < diffs@.len() ==> counts@[i] == line_count(
                #[trigger] diffs@[i]@.formatted_diff,
            ),
{
    let mut counts: Vec<usize> = Vec::new();
    let mut i: usize = 0;
    while i < diffs.len()
        invariant
            i <= diffs.len(),
            counts@.len() == i,
            forall|j: int|
                0 <= j < i ==> counts@[j] == line_count(#[trigger] diffs@[j]@.formatted_diff),
        decreases diffs.len() - i,
    {
        counts.push(count_lines(diffs[i].formatted_diff.as_str()));
        i += 1;
    }
    counts
}

/// Whether none of `counts` is more than two.
fn none_above_two(counts: &Vec<usize>) -> (none: bool)
    ensures
        none == forall|i: int| 0 <= i < counts@.len() ==> counts@[i] <= 2,
{
    let mut i: usize = 0;
    while i < counts.len()
        invariant
            i <= counts.len(),
            forall|j: int| 0 <= j < i ==> counts@[j] <= 2,
        decreases counts.len() - i,
    {
        if counts[i] > 2 {
            return false;
        }
        i += 1;
    }
    true
}

/// Trims `diffs` for `budget`. While the patches are over the budget and one of them has
/// more than two lines, the longest patch, the earliest of several, loses its first and its
/// last line. The order of the patches stays. The result may still be over the budget; it
/// is never longer than what was given, and it takes no more cycles than there were lines.
pub fn trim_to_budget(diffs: Vec<FileDiff>, budget: usize) -> (out: Trimmed)
    ensures
        diff_views(out.diffs@) == trimmed(diff_views(diffs@), budget as nat),
        out.cycles == if trim_cycles(diff_views(diffs@), budget as nat) <= usize::MAX {
            trim_cycles(diff_views(diffs@), budget as nat)
        } else {
            usize::MAX as nat
        },
        out.within_budget == (total_len(diff_views(out.diffs@)) <= budget),
        trim_cycles(diff_views(diffs@), budget as nat) == 0 ==> out.diffs == diffs,
        settled(diff_views(out.diffs@), budget as nat),
        total_len(diff_views(out.diffs@)) <= total_len(diff_views(diffs@)),
        same_files_less_text(diff_views(out.diffs@), diff_views(diffs@)),
        out.cycles <= total_lines(diff_views(diffs@)),
{
    let ghost start = diff_views(diffs@);
    let mut work = diffs;
    let mut counts = count_all(&work);
    let mut cycles: usize = 0;
    let ghost mut done: nat = 0;
    loop
        invariant
            counts@.len() == work@.len(),
            forall|i: int|
                0 <= i < work@.len() ==> counts@[i] == line_count(
                    #[trigger] work@[i]@.formatted_diff,
                ),
            trimmed(diff_views(work@), budget as nat) == trimmed(start, budget as nat),
            done + trim_cycles(diff_views(work@), budget as nat) == trim_cycles(
                start,
                budget as nat,
            ),
            cycles == if done <= usize::MAX {
                done
            } else {
                usize::MAX as nat
            },
            done == 0 ==> work == diffs,
            start == diff_views(diffs@),
        decreases total_lines(diff_views(work@)),
    {
        let ghost now = diff_views(work@);
        let fits = fits_budget(&work, budget);
        let short = none_above_two(&counts);
        proof {
            if short {
                assert forall|i: int| 0 <= i < now.len() implies line_count(
                    #[trigger] now[i].formatted_diff,
                ) <= 2 by {
                    assert(now[i] == work@[i]@);
                }
            } else {
                let i = choose|i: int| 0 <= i < counts@.len() && counts@[i] > 2;
                assert(line_count(now[i].formatted_diff) > 2);
            }
        }
        if fits || short {
            proof {
                assert(settled(now, budget as nat));
                lemma_trimming_never_grows(start, budget as nat);
                lemma_trimmed_keeps_files(start, budget as nat);
                lemma_trim_cycles_bounded(start, budget as nat);
            }
            return Trimmed { diffs: work, cycles, within_budget: fits };
        }
        proof {
            lemma_cycle_takes_lines(now, budget as nat);
        }
        let at = longest_index(&work);
        let text = strip_outer_lines(work[at].formatted_diff.as_str());
        let left: usize = if counts[at] >= 2 {
            counts[at] - 2
        } else {
            0
        };
        proof {
            lemma_strip_ends(work@[at as int]@.formatted_diff);
        }
        work[at].formatted_diff = text;
        counts.set(at, left);
        if cycles < usize::MAX {
            cycles += 1;
        }
        proof {
            done = done + 1;
            assert(diff_views(work@) == trim_once(now));
        }
    }
}

/// Fits the staged patches into `budget`. The full-context patches are handed on as they
/// are where they fit; else the zero-context patches are, trimmed where they too are over
/// the budget. Fails with `NoStagedFiles` where the set to hand on holds no file. Where the
/// zero-context patches are no longer than the full-context ones, what is handed on is no
/// longer than either.
pub fn fit_diffs(full: Vec<FileDiff>, zero_context: Vec<FileDiff>, budget: usize) -> (out: Result<
    Trimmed,
    PromptError,
>)
    ensures
        out is Err <==> nothing_staged(
            diff_views(full@),
            diff_views(zero_context@),
            budget as nat,
        ),
        out matches Err(e) ==> e@ == PromptErrorView::NoStagedFiles,
        out matches Ok(fit) ==> {
            &&& diff_views(fit.diffs@) == fitted(
                diff_views(full@),
                diff_views(zero_context@),
                budget as nat,
            )
            &&& fit.within_budget == (total_len(diff_views(fit.diffs@)) <= budget)
            &&& total_len(diff_views(full@)) <= budget ==> fit.diffs == full && fit.cycles == 0
            &&& total_len(diff_views(zero_context@)) <= total_len(diff_views(full@))
                ==> total_len(diff_views(fit.diffs@)) <= total_len(diff_views(full@))
            &&& total_len(diff_views(full@)) > budget ==> fit.cycles == (if trim_cycles(
                diff_views(zero_context@),
                budget as nat,
            ) <= usize::MAX {
                trim_cycles(diff_views(zero_context@), budget as nat)
            } else {
                usize::MAX as nat
            })
        },
{
    proof {
        if total_len(diff_views(zero_context@)) <= total_len(diff_views(full@)) {
            lemma_phases_never_grow(diff_views(full@), diff_views(zero_context@), budget as nat);
        }
    }
    if full.len() == 0 {
        return Err(PromptError::NoStagedFiles);
    }
    if fits_budget(&full, budget) {
        return Ok(Trimmed { diffs: full, cycles: 0, within_budget: true });
    }
    if zero_context.len() == 0 {
        return Err(PromptError::NoStagedFiles);
    }
    Ok(trim_to_budget(zero_context, budget))
}

} // verus!
