//! The lines of a text. A line ends with a line feed; the last line may go without one.
//! Patches are cut at line feeds alone; the lines of a message may also end with a carriage
//! return before the line feed.

use crate::text::{chars_of, is_piece_of, lemma_piece_of_piece, string_of_range, views};
use vstd::prelude::*;

verus! {

/// The place of the first line feed in `s`, or the length of `s` if it holds none.
pub open spec fn line_end(s: Seq<char>) -> int
    decreases s.len(),
{
    if s.len() == 0 || s[0] == '\n' {
        0
    } else {
        1 + line_end(s.drop_first())
    }
}

/// The lines of `s`, each without its line feed. A text that ends with a line feed has no
/// empty line after it; the empty text has no line.
pub open spec fn split_lines(s: Seq<char>) -> Seq<Seq<char>>
    decreases s.len(),
{
    if s.len() == 0 {
        Seq::empty()
    } else if 0 <= line_end(s) < s.len() {
        seq![s.take(line_end(s))] + split_lines(s.skip(line_end(s) + 1))
    } else {
        seq![s]
    }
}

/// The number of characters of `s` up to and including its last line feed; 0 if it holds none.
pub open spec fn last_break(s: Seq<char>) -> int
    decreases s.len(),
{
    if s.len() == 0 {
        0
    } else if s.last() == '\n' {
        s.len() as int
    } else {
        last_break(s.drop_last())
    }
}

/// The place at which the last line of `s` begins.
pub open spec fn last_line_start(s: Seq<char>) -> int {
    if s.len() > 0 && s.last() == '\n' {
        last_break(s.drop_last())
    } else {
        last_break(s)
    }
}

/// `s` without its first line.
pub open spec fn drop_first_line(s: Seq<char>) -> Seq<char> {
    if line_end(s) < s.len() {
        s.skip(line_end(s) + 1)
    } else {
        Seq::empty()
    }
}

/// `s` without its last line.
pub open spec fn drop_last_line(s: Seq<char>) -> Seq<char> {
    s.take(last_line_start(s))
}

/// `s` without its first and its last line. A text of one or two lines becomes empty.
pub open spec fn strip_ends(s: Seq<char>) -> Seq<char> {
    drop_last_line(drop_first_line(s))
}

/// The number of lines of `s`.
pub open spec fn line_count(s: Seq<char>) -> nat {
    split_lines(s).len()
}

/// `line_end` is the first place that holds a line feed.
pub proof fn lemma_line_end(s: Seq<char>)
    ensures
        0 <= line_end(s) <= s.len(),
        forall|i: int| 0 <= i < line_end(s) ==> s[i] != '\n',
        line_end(s) < s.len() ==> s[line_end(s)] == '\n',
    decreases s.len(),
{
    if s.len() > 0 && s[0] != '\n' {
        lemma_line_end(s.drop_first());
        assert forall|i: int| 0 <= i < line_end(s) implies s[i] != '\n' by {
            if i > 0 {
                assert(s[i] == s.drop_first()[i - 1]);
            }
        }
    }
}

/// A place with a line feed before which there is none is `line_end`; so is the length of a
/// text without line feeds.
pub proof fn lemma_line_end_is(s: Seq<char>, k: int)
    requires
        0 <= k <= s.len(),
        forall|i: int| 0 <= i < k ==> s[i] != '\n',
        k < s.len() ==> s[k] == '\n',
    ensures
        line_end(s) == k,
{
    lemma_line_end(s);
    let e = line_end(s);
    if e < k {
        assert(s[e] == '\n');
    } else if k < e {
        assert(s[k] == '\n');
    }
}

/// `last_break` is just behind the last line feed.
pub proof fn lemma_last_break(s: Seq<char>)
    ensures
        0 <= last_break(s) <= s.len(),
        forall|i: int| last_break(s) <= i < s.len() ==> s[i] != '\n',
        last_break(s) > 0 ==> s[last_break(s) - 1] == '\n',
    decreases s.len(),
{
    if s.len() > 0 && s.last() != '\n' {
        lemma_last_break(s.drop_last());
        assert forall|i: int| last_break(s) <= i < s.len() implies s[i] != '\n' by {
            if i < s.len() - 1 {
                assert(s[i] == s.drop_last()[i]);
            }
        }
    }
}

/// A place just behind a line feed after which there is none is `last_break`; so is 0 for a
/// text without line feeds.
pub proof fn lemma_last_break_is(s: Seq<char>, k: int)
    requires
        0 <= k <= s.len(),
        forall|i: int| k <= i < s.len() ==> s[i] != '\n',
        k > 0 ==> s[k - 1] == '\n',
    ensures
        last_break(s) == k,
{
    lemma_last_break(s);
    let b = last_break(s);
    if b < k {
        assert(s[k - 1] == '\n');
    } else if k < b {
        assert(s[b - 1] == '\n');
    }
}

/// The last line begins inside the text, just behind a line feed or at the start, and holds no
/// line feed but a closing one.
pub proof fn lemma_last_line_start(s: Seq<char>)
    ensures
        0 <= last_line_start(s) <= s.len(),
        s.len() > 0 ==> last_line_start(s) < s.len(),
        last_line_start(s) > 0 ==> s[last_line_start(s) - 1] == '\n',
        forall|i: int| last_line_start(s) <= i < s.len() - 1 ==> s[i] != '\n',
{
    lemma_last_break(s);
    if s.len() > 0 && s.last() == '\n' {
        lemma_last_break(s.drop_last());
        assert forall|i: int| last_line_start(s) <= i < s.len() - 1 implies s[i] != '\n' by {
            assert(s[i] == s.drop_last()[i]);
        }
    }
}

/// A text that is not empty has a line.
pub proof fn lemma_lines_of_filled(s: Seq<char>)
    requires
        s.len() > 0,
    ensures
        split_lines(s).len() > 0,
{
}

/// The lines of a text that begins with a whole line `head` and its line feed.
pub proof fn lemma_lines_after_head(head: Seq<char>, rest: Seq<char>)
    requires
        forall|i: int| 0 <= i < head.len() ==> head[i] != '\n',
    ensures
        split_lines((head + seq!['\n']) + rest) == seq![head] + split_lines(rest),
{
    let s = (head + seq!['\n']) + rest;
    lemma_line_end_is(s, head.len() as int);
    assert(s.take(head.len() as int) == head);
    assert(s.skip(head.len() as int + 1) == rest);
}

/// Dropping the first line of a text drops the first of its lines.
pub proof fn lemma_drop_first_line(s: Seq<char>)
    ensures
        split_lines(s).len() > 0 ==> split_lines(drop_first_line(s)) == split_lines(
            s,
        ).drop_first(),
        split_lines(s).len() == 0 ==> drop_first_line(s).len() == 0,
{
    lemma_line_end(s);
    if s.len() > 0 && line_end(s) >= s.len() {
        assert(seq![s].drop_first() == Seq::<Seq<char>>::empty());
    }
}

/// Dropping the last line of a text drops the last of its lines.
pub proof fn lemma_drop_last_line(s: Seq<char>)
    ensures
        split_lines(s).len() > 0 ==> split_lines(drop_last_line(s)) == split_lines(s).drop_last(),
        split_lines(s).len() == 0 ==> drop_last_line(s).len() == 0,
    decreases s.len(),
{
    lemma_line_end(s);
    lemma_last_line_start(s);
    if s.len() > 0 {
        let k = line_end(s);
        if k >= s.len() {
            lemma_last_break_is(s, 0);
        } else {
            let head = s.take(k);
            let rest = s.skip(k + 1);
            if rest.len() == 0 {
                lemma_last_break_is(s.drop_last(), 0);
            } else {
                lemma_drop_last_line(rest);
                lemma_last_line_start(rest);
                let start = last_line_start(rest);
                assert(last_line_start(s) == k + 1 + start) by {
                    if rest.last() == '\n' {
                        let body = s.drop_last();
                        assert forall|i: int| k + 1 + start <= i < body.len() implies body[i]
                            != '\n' by {
                            assert(body[i] == rest[i - (k + 1)]);
                        }
                        if start > 0 {
                            assert(body[k + 1 + start - 1] == rest[start - 1]);
                        }
                        lemma_last_break_is(body, k + 1 + start);
                    } else {
                        assert forall|i: int| k + 1 + start <= i < s.len() implies s[i]
                            != '\n' by {
                            assert(s[i] == rest[i - (k + 1)]);
                            if i == s.len() - 1 {
                                assert(s[i] == rest.last());
                            }
                        }
                        if start > 0 {
                            assert(s[k + 1 + start - 1] == rest[start - 1]);
                        }
                        lemma_last_break_is(s, k + 1 + start);
                    }
                }
                assert(drop_last_line(s) == (head + seq!['\n']) + drop_last_line(rest));
                lemma_lines_after_head(head, drop_last_line(rest));
                lemma_lines_of_filled(rest);
            }
        }
    }
}

/// The lines of a text without its first and last line are the lines between the two.
pub proof fn lemma_strip_ends(s: Seq<char>)
    ensures
        line_count(s) >= 2 ==> split_lines(strip_ends(s)) == split_lines(s).subrange(
            1,
            line_count(s) - 1,
        ),
        line_count(s) <= 2 ==> strip_ends(s).len() == 0,
        line_count(strip_ends(s)) == if line_count(s) >= 2 {
            line_count(s) - 2
        } else {
            0
        },
{
    lemma_drop_first_line(s);
    let inner = drop_first_line(s);
    lemma_drop_last_line(inner);
    let lines = split_lines(s);
    if lines.len() == 2 && strip_ends(s).len() > 0 {
        lemma_lines_of_filled(strip_ends(s));
    } else if lines.len() == 1 {
        assert(split_lines(inner).len() == 0);
    }
}

/// What is left of a text without its first and last line is a contiguous piece of it.
pub proof fn lemma_strip_ends_is_piece(s: Seq<char>)
    ensures
        exists|from: int, to: int|
            0 <= from <= to <= s.len() && strip_ends(s) == s.subrange(from, to),
{
    lemma_line_end(s);
    let inner = drop_first_line(s);
    lemma_last_line_start(inner);
    let from = s.len() - inner.len();
    let to = from + last_line_start(inner);
    assert(strip_ends(s) == s.subrange(from, to));
}

/// The place of the first line feed of `chars` at or after `from`, or the length of `chars`.
pub fn find_line_end(chars: &Vec<char>, from: usize) -> (end: usize)
    requires
        from <= chars.len(),
    ensures
        from <= end <= chars.len(),
        end - from == line_end(chars@.skip(from as int)),
{
    let mut end: usize = from;
    while end < chars.len() && chars[end] != '\n'
        invariant
            from <= end <= chars.len(),
            forall|i: int| from <= i < end ==> chars@[i] != '\n',
        decreases chars.len() - end,
    {
        end += 1;
    }
    proof {
        lemma_line_end_is(chars@.skip(from as int), end - from);
    }
    end
}

/// The lines of `text`, each without its line feed.
pub fn lines_of(text: &str) -> (out: Vec<String>)
    ensures
        views(out@) == split_lines(text@),
{
    let chars = chars_of(text);
    let mut out: Vec<String> = Vec::new();
    let mut at: usize = 0;
    assert(chars@.skip(0) == chars@);
    while at < chars.len()
        invariant
            at <= chars.len(),
            chars@ == text@,
            views(out@) + split_lines(chars@.skip(at as int)) == split_lines(chars@),
        decreases chars.len() - at,
    {
        let end = find_line_end(&chars, at);
        let line = string_of_range(&chars, at, end);
        proof {
            let rest = chars@.skip(at as int);
            assert(rest.take(end - at) == chars@.subrange(at as int, end as int));
            if end < chars.len() {
                assert(rest.skip(end - at + 1) == chars@.skip(end + 1));
            } else {
                assert(rest.take(end - at) == rest);
            }
        }
        out.push(line);
        at = if end < chars.len() {
            end + 1
        } else {
            end
        };
    }
    out
}

/// The number of lines of `text`.
pub fn count_lines(text: &str) -> (count: usize)
    ensures
        count == line_count(text@),
{
    let chars = chars_of(text);
    let mut count: usize = 0;
    let mut at: usize = 0;
    assert(chars@.skip(0) == chars@);
    while at < chars.len()
        invariant
            at <= chars.len(),
            count <= at,
            count + line_count(chars@.skip(at as int)) == line_count(chars@),
        decreases chars.len() - at,
    {
        let end = find_line_end(&chars, at);
        proof {
            let rest = chars@.skip(at as int);
            if end < chars.len() {
                assert(rest.skip(end - at + 1) == chars@.skip(end + 1));
            } else {
                assert(split_lines(chars@.skip(chars@.len() as int)) == Seq::<Seq<char>>::empty());
            }
        }
        count += 1;
        at = if end < chars.len() {
            end + 1
        } else {
            end
        };
    }
    count
}

/// `text` without its first and its last line.
pub fn strip_outer_lines(text: &str) -> (out: String)
    ensures
        out@ == strip_ends(text@),
{
    let chars = chars_of(text);
    let first_end = find_line_end(&chars, 0);
    assert(chars@.skip(0) == chars@);
    if first_end >= chars.len() {
        proof {
            lemma_last_break_is(Seq::<char>::empty(), 0);
        }
        return String::new();
    }
    let from = first_end + 1;
    let ghost inner = chars@.skip(from as int);
    let closed = chars.len() > from && chars[chars.len() - 1] == '\n';
    let stop: usize = if closed {
        chars.len() - 1
    } else {
        chars.len()
    };
    let ghost body = if closed {
        inner.drop_last()
    } else {
        inner
    };
    let mut start: usize = stop;
    while start > from && chars[start - 1] != '\n'
        invariant
            from <= start <= stop <= chars.len(),
            forall|i: int| start <= i < stop ==> chars@[i] != '\n',
        decreases start,
    {
        start -= 1;
    }
    proof {
        lemma_last_break_is(body, start - from);
    }
    string_of_range(&chars, from, start)
}

/// `line` without the carriage return at its end, if it has one.
pub open spec fn without_return(line: Seq<char>) -> Seq<char> {
    if line.len() > 0 && line.last() == '\r' {
        line.drop_last()
    } else {
        line
    }
}

/// The lines of `s` as `str::lines` gives them: a line ends with a line feed, or with a
/// carriage return and a line feed, and comes without either; the last line may go without
/// an end and is then taken as it stands. A text that ends with a line feed has no empty
/// line after it; the empty text has no line.
pub open spec fn text_lines(s: Seq<char>) -> Seq<Seq<char>>
    decreases s.len(),
{
    if s.len() == 0 {
        Seq::empty()
    } else if 0 <= line_end(s) < s.len() {
        seq![without_return(s.take(line_end(s)))] + text_lines(s.skip(line_end(s) + 1))
    } else {
        seq![s]
    }
}

/// `line` is a piece of `whole` that holds no line feed.
pub open spec fn is_line_of(line: Seq<char>, whole: Seq<char>) -> bool {
    &&& is_piece_of(line, whole)
    &&& forall|j: int| 0 <= j < line.len() ==> line[j] != '\n'
}

/// Every line of a text is a contiguous piece of it and holds no line feed.
pub proof fn lemma_text_lines(s: Seq<char>)
    ensures
        forall|i: int| 0 <= i < text_lines(s).len() ==> is_line_of(#[trigger] text_lines(s)[i], s),
    decreases s.len(),
{
    lemma_line_end(s);
    let lines = text_lines(s);
    let k = line_end(s);
    assert(s == s.subrange(0, s.len() as int));
    if s.len() > 0 && k < s.len() {
        let rest = s.skip(k + 1);
        lemma_text_lines(rest);
        assert(rest == s.subrange(k + 1, s.len() as int));
        assert forall|i: int| 0 <= i < lines.len() implies is_line_of(#[trigger] lines[i], s) by {
            if i == 0 {
                let first = without_return(s.take(k));
                if first.len() < k {
                    assert(first == s.subrange(0, k - 1));
                } else {
                    assert(first == s.subrange(0, k));
                }
                assert forall|j: int| 0 <= j < first.len() implies first[j] != '\n' by {
                    assert(first[j] == s[j]);
                }
            } else {
                assert(lines[i] == text_lines(rest)[i - 1]);
                assert(is_line_of(text_lines(rest)[i - 1], rest));
                lemma_piece_of_piece(lines[i], rest, s);
            }
        }
    } else if s.len() > 0 {
        assert(lines[0] == s);
    }
}

/// The lines of `text` as `str::lines` gives them.
pub fn text_lines_of(text: &str) -> (out: Vec<String>)
    ensures
        views(out@) == text_lines(text@),
{
    let chars = chars_of(text);
    let mut out: Vec<String> = Vec::new();
    let mut at: usize = 0;
    assert(chars@.skip(0) == chars@);
    assert(views(out@) + text_lines(chars@) == text_lines(chars@));
    while at < chars.len()
        invariant
            at <= chars.len(),
            chars@ == text@,
            views(out@) + text_lines(chars@.skip(at as int)) == text_lines(chars@),
        decreases chars.len() - at,
    {
        let end = find_line_end(&chars, at);
        let closed = end < chars.len();
        let stop: usize = if closed && end > at && chars[end - 1] == '\r' {
            end - 1
        } else {
            end
        };
        let line = string_of_range(&chars, at, stop);
        proof {
            let rest = chars@.skip(at as int);
            assert(rest.take(end - at) == chars@.subrange(at as int, end as int));
            assert(views(out@.push(line)) == views(out@).push(line@));
            if closed {
                assert(without_return(rest.take(end - at)) == line@);
                assert(rest.skip(end - at + 1) == chars@.skip(end + 1));
                assert(views(out@).push(line@) + text_lines(chars@.skip(end + 1)) == views(out@)
                    + (seq![line@] + text_lines(chars@.skip(end + 1))));
            } else {
                assert(rest.take(end - at) == rest);
                assert(text_lines(chars@.skip(chars@.len() as int)) == Seq::<Seq<char>>::empty());
                assert(views(out@).push(line@) + Seq::<Seq<char>>::empty() == views(out@)
                    + seq![line@]);
            }
        }
        out.push(line);
        at = if closed {
            end + 1
        } else {
            end
        };
    }
    assert(views(out@) + Seq::<Seq<char>>::empty() == views(out@));
    out
}

} // verus!
