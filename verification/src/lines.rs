//! The line structure of a text: where its line breaks are, where each line
//! starts and how long it is.
//!
//! A text of `n` line breaks has `n + 1` lines, numbered from 0. Line 0 starts
//! at offset 0; every other line starts just behind a line break. A line's
//! length does not count the break that ends it. All offsets and lengths are
//! counted in characters.

use vstd::prelude::*;

verus! {

/// The character that ends a line.
pub const LINE_BREAK: char = '\n';

/// The number of line breaks in `s`.
pub open spec fn count_breaks(s: Seq<char>) -> nat
    decreases s.len(),
{
    if s.len() == 0 {
        0
    } else {
        count_breaks(s.drop_last()) + if s.last() == LINE_BREAK {
            1nat
        } else {
            0nat
        }
    }
}

/// The number of characters from offset `from` up to the next line break, or
/// up to the end of `s` where no break follows.
pub open spec fn run_len(s: Seq<char>, from: int) -> nat
    decreases s.len() - from,
{
    if from < 0 || from >= s.len() || s[from] == LINE_BREAK {
        0
    } else {
        1 + run_len(s, from + 1)
    }
}

/// The offset at which line `row` starts: the lengths of all lines before it,
/// plus one for each of their breaks.
pub open spec fn line_start(s: Seq<char>, row: nat) -> int
    decreases row,
{
    if row == 0 {
        0
    } else {
        let before = line_start(s, (row - 1) as nat);
        before + run_len(s, before) + 1
    }
}

/// The length of line `row`, its break not counted.
pub open spec fn line_len(s: Seq<char>, row: nat) -> nat {
    run_len(s, line_start(s, row))
}

/// No offset in `[from, to)` holds a line break.
pub open spec fn break_free(s: Seq<char>, from: int, to: int) -> bool {
    forall|i: int| from <= i < to ==> s[i] != LINE_BREAK
}

/// Taking one more character into a prefix adds one to its count of breaks
/// exactly when that character is a break.
pub proof fn lemma_count_step(s: Seq<char>, i: int)
    requires
        0 <= i < s.len(),
    ensures
        count_breaks(s.take(i + 1)) == count_breaks(s.take(i)) + if s[i] == LINE_BREAK {
            1nat
        } else {
            0nat
        },
{
    assert(s.take(i + 1).drop_last() =~= s.take(i));
}

/// A longer prefix has at least as many breaks as a shorter one, and at most
/// as many more as it has more characters.
pub proof fn lemma_count_monotone(s: Seq<char>, i: int, j: int)
    requires
        0 <= i <= j <= s.len(),
    ensures
        count_breaks(s.take(i)) <= count_breaks(s.take(j)) <= count_breaks(s.take(i)) + (j - i),
    decreases j - i,
{
    if i < j {
        lemma_count_monotone(s, i, j - 1);
        lemma_count_step(s, j - 1);
    }
}

/// Two prefixes hold the same number of breaks exactly when no break lies
/// between their ends.
pub proof fn lemma_count_break_free(s: Seq<char>, i: int, j: int)
    requires
        0 <= i <= j <= s.len(),
    ensures
        break_free(s, i, j) <==> count_breaks(s.take(j)) == count_breaks(s.take(i)),
    decreases j - i,
{
    if i < j {
        lemma_count_break_free(s, i, j - 1);
        lemma_count_step(s, j - 1);
        lemma_count_monotone(s, i, j - 1);
        if break_free(s, i, j) {
            assert(break_free(s, i, j - 1));
        }
        if count_breaks(s.take(j)) == count_breaks(s.take(i)) {
            assert(break_free(s, i, j - 1));
            assert(s[j - 1] != LINE_BREAK);
        }
    }
}

/// Inserting a character adds one to the count of breaks exactly when the
/// character is a break.
pub proof fn lemma_count_after_insert(s: Seq<char>, at: int, c: char)
    requires
        0 <= at <= s.len(),
    ensures
        count_breaks(s.insert(at, c)) == count_breaks(s) + if c == LINE_BREAK {
            1nat
        } else {
            0nat
        },
    decreases s.len() - at,
{
    let t = s.insert(at, c);
    if at == s.len() {
        assert(t.drop_last() =~= s);
    } else {
        assert(t.drop_last() =~= s.drop_last().insert(at, c));
        lemma_count_after_insert(s.drop_last(), at, c);
    }
}

/// A text has no more breaks than characters, and its whole length is the
/// longest prefix.
pub proof fn lemma_count_whole(s: Seq<char>)
    ensures
        count_breaks(s) <= s.len(),
        s.take(s.len() as int) == s,
        count_breaks(s.take(0)) == 0,
{
    assert(s.take(s.len() as int) =~= s);
    lemma_count_monotone(s, 0, s.len() as int);
}

/// A run that starts at `from` ends at the first break at or behind `from`,
/// or at the end of the text.
pub proof fn lemma_run_len_ends(s: Seq<char>, from: int)
    requires
        0 <= from <= s.len(),
    ensures
        from + run_len(s, from) <= s.len(),
        break_free(s, from, from + run_len(s, from)),
        from + run_len(s, from) == s.len() || s[from + run_len(s, from)] == LINE_BREAK,
    decreases s.len() - from,
{
    if from < s.len() && s[from] != LINE_BREAK {
        lemma_run_len_ends(s, from + 1);
    }
}

/// A break-free stretch that ends at a break, or at the end of the text, is
/// a whole run.
pub proof fn lemma_run_len_is(s: Seq<char>, from: int, to: int)
    requires
        0 <= from <= to <= s.len(),
        break_free(s, from, to),
        to == s.len() || s[to] == LINE_BREAK,
    ensures
        run_len(s, from) == to - from,
    decreases to - from,
{
    if from < to {
        lemma_run_len_is(s, from + 1, to);
    }
}

/// Line `row` of a text with at least `row` breaks starts inside the text,
/// with exactly `row` breaks before it, the last of them directly before it.
pub proof fn lemma_line_start_counts(s: Seq<char>, row: nat)
    requires
        row <= count_breaks(s),
    ensures
        0 <= line_start(s, row) <= s.len(),
        count_breaks(s.take(line_start(s, row))) == row,
        row > 0 ==> s[line_start(s, row) - 1] == LINE_BREAK,
        row > 0 ==> line_start(s, row) == line_start(s, (row - 1) as nat) + line_len(
            s,
            (row - 1) as nat,
        ) + 1,
    decreases row,
{
    lemma_count_whole(s);
    if row > 0 {
        let before = line_start(s, (row - 1) as nat);
        lemma_line_start_counts(s, (row - 1) as nat);
        lemma_run_len_ends(s, before);
        let end = before + run_len(s, before);
        lemma_count_break_free(s, before, end);
        if end < s.len() {
            lemma_count_step(s, end);
        }
    }
}

/// Lines start in the order of their numbers.
pub proof fn lemma_line_start_monotone(s: Seq<char>, low: nat, high: nat)
    requires
        low <= high,
    ensures
        line_start(s, low) <= line_start(s, high),
        low < high ==> line_start(s, low) + line_len(s, low) < line_start(s, high),
    decreases high,
{
    if low < high {
        lemma_line_start_monotone(s, low, (high - 1) as nat);
        if low < high - 1 {
            assert(line_start(s, low) + line_len(s, low) < line_start(s, (high - 1) as nat));
        }
    }
}

/// The line that holds offset `at` is the one numbered by the breaks before
/// `at`: it starts at or before `at`, and no break lies between its start and
/// `at`.
pub proof fn lemma_line_of_offset(s: Seq<char>, at: int)
    requires
        0 <= at <= s.len(),
    ensures
        count_breaks(s.take(at)) <= count_breaks(s),
        0 <= line_start(s, count_breaks(s.take(at))) <= at,
        break_free(s, line_start(s, count_breaks(s.take(at))), at),
        at <= line_start(s, count_breaks(s.take(at))) + line_len(s, count_breaks(s.take(at))),
{
    let row = count_breaks(s.take(at));
    lemma_count_whole(s);
    lemma_count_monotone(s, at, s.len() as int);
    lemma_line_start_counts(s, row);
    let start = line_start(s, row);
    if start > at {
        // A line that started behind `at` would have its break at or behind `at`.
        lemma_count_monotone(s, at, start - 1);
        lemma_count_step(s, start - 1);
        lemma_count_monotone(s, 0, at);
        assert(row > 0);
    }
    lemma_count_break_free(s, start, at);
    lemma_run_len_ends(s, start);
    let end = start + run_len(s, start);
    if end < at {
        assert(s[end] == LINE_BREAK);
    }
}

/// An offset with `row` breaks before it, the last of them directly before
/// it, is where line `row` starts; so is offset 0 for line 0.
pub proof fn lemma_line_start_is(s: Seq<char>, row: nat, at: int)
    requires
        0 <= at <= s.len(),
        count_breaks(s.take(at)) == row,
        at == 0 || s[at - 1] == LINE_BREAK,
    ensures
        line_start(s, row) == at,
{
    lemma_line_of_offset(s, at);
}

/// Every offset of a line, from its start to its end, has the line's number
/// of breaks before it.
pub proof fn lemma_offset_in_line(s: Seq<char>, row: nat, col: nat)
    requires
        row <= count_breaks(s),
        col <= line_len(s, row),
    ensures
        0 <= line_start(s, row) + col <= s.len(),
        count_breaks(s.take(line_start(s, row) + col)) == row,
{
    lemma_line_start_counts(s, row);
    let start = line_start(s, row);
    lemma_run_len_ends(s, start);
    assert(break_free(s, start, start + col));
    lemma_count_break_free(s, start, start + col);
}

} // verus!
