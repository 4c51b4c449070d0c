//! Cursor positions and word extraction.
//!
//! [`get_current_word`] returns the word under a cursor: the run of
//! non-whitespace characters on the cursor's line that ends exactly at the
//! cursor column. Characters at or after the cursor are never included, so a
//! cursor at column 0 always yields the empty word.

use vstd::prelude::*;
use vstd::string::StrSliceExecFns;

verus! {

/// A cursor position: zero-based line and character offsets, counted in
/// characters.
#[derive(Clone, Copy, PartialEq, Eq, Structural, Debug)]
pub struct Position {
    pub line: u32,
    pub character: u32,
}

/// The whitespace the word scan stops at: ASCII whitespace.
pub open spec fn is_space_char(c: char) -> bool {
    c == ' ' || c == '\t' || c == '\n' || c == '\r' || c == '\x0c'
}

fn is_space(c: char) -> (r: bool)
    ensures
        r == is_space_char(c),
{
    c == ' ' || c == '\t' || c == '\n' || c == '\r' || c == '\x0c'
}

/// Index of the first newline at or after `from`, or the text's length if
/// there is none.
pub open spec fn find_newline(s: Seq<char>, from: int) -> int
    recommends
        0 <= from <= s.len(),
    decreases s.len() - from,
{
    if from >= s.len() {
        s.len() as int
    } else if s[from] == '\n' {
        from
    } else {
        find_newline(s, from + 1)
    }
}

proof fn lemma_find_newline(s: Seq<char>, from: int)
    requires
        0 <= from <= s.len(),
    ensures
        from <= find_newline(s, from) <= s.len(),
        forall|k: int| from <= k < find_newline(s, from) ==> s[k] != '\n',
        find_newline(s, from) < s.len() ==> s[find_newline(s, from)] == '\n',
    decreases s.len() - from,
{
    if from < s.len() && s[from] != '\n' {
        lemma_find_newline(s, from + 1);
    }
}

proof fn lemma_find_newline_is(s: Seq<char>, from: int, j: int)
    requires
        0 <= from <= j <= s.len(),
        forall|k: int| from <= k < j ==> s[k] != '\n',
        j == s.len() || s[j] == '\n',
    ensures
        find_newline(s, from) == j,
    decreases j - from,
{
    if from < j {
        lemma_find_newline_is(s, from + 1, j);
    }
}

/// A line piece with a trailing carriage return removed, as happens to pieces
/// that ended in a `\r\n` sequence.
pub open spec fn strip_cr(l: Seq<char>) -> Seq<char> {
    if l.len() > 0 && l.last() == '\r' {
        l.drop_last()
    } else {
        l
    }
}

/// The text's lines: pieces split at `\n`, with a `\r` before the split
/// removed. A final piece without a line ending is kept as it stands, and a
/// trailing line ending opens no extra empty line.
pub open spec fn spec_lines(s: Seq<char>) -> Seq<Seq<char>>
    decreases s.len(),
{
    if s.len() == 0 {
        Seq::empty()
    } else {
        let j = find_newline(s, 0);
        if 0 <= j < s.len() {
            seq![strip_cr(s.take(j))] + spec_lines(s.skip(j + 1))
        } else {
            seq![s]
        }
    }
}

/// Where the word that ends at column `k` starts: the scan walks left from
/// the cursor while the character before it is not whitespace.
pub open spec fn word_start(line: Seq<char>, k: int) -> int
    recommends
        0 <= k <= line.len(),
    decreases k,
{
    if k <= 0 {
        0
    } else if is_space_char(line[k - 1]) {
        k
    } else {
        word_start(line, k - 1)
    }
}

/// The word under a cursor at column `k`: it ends exactly at the cursor.
pub open spec fn word_at(line: Seq<char>, k: int) -> Seq<char>
    recommends
        0 <= k <= line.len(),
{
    line.subrange(word_start(line, k), k)
}

fn find_newline_from(document: &str, from: usize, n: usize) -> (j: usize)
    requires
        from <= n,
        n == document@.len(),
    ensures
        from <= j <= n,
        j == find_newline(document@, from as int),
        forall|k: int| from <= k < j ==> document@[k] != '\n',
        j < n ==> document@[j as int] == '\n',
    decreases n - from,
{
    let mut j = from;
    while j < n && document.get_char(j) != '\n'
        invariant
            from <= j <= n,
            n == document@.len(),
            forall|k: int| from <= k < j ==> document@[k] != '\n',
        decreases n - j,
    {
        j = j + 1;
    }
    proof {
        lemma_find_newline_is(document@, from as int, j as int);
    }
    j
}

/// Get the word in `document` at position `cursor_pos`, cut off at the
/// cursor. `None` when the line index is past the last line or the character
/// index is past the line's end.
pub fn get_current_word(document: &str, cursor_pos: Position) -> (r: Option<String>)
    ensures
        match r {
            Some(w) => {
                &&& (cursor_pos.line as int) < spec_lines(document@).len()
                &&& (cursor_pos.character as int) <= spec_lines(document@)[cursor_pos.line as int].len()
                &&& w@ == word_at(
                    spec_lines(document@)[cursor_pos.line as int],
                    cursor_pos.character as int,
                )
            },
            None => {
                ||| (cursor_pos.line as int) >= spec_lines(document@).len()
                ||| (cursor_pos.character as int) > spec_lines(document@)[cursor_pos.line as int].len()
            },
        },
{
    let n = document.unicode_len();
    let line_idx = cursor_pos.line as usize;
    let mut ls: usize = 0;
    let mut lineno: usize = 0;
    proof {
        assert(document@.skip(0) =~= document@);
    }
    while lineno < line_idx
        invariant
            ls <= n,
            n == document@.len(),
            lineno <= line_idx,
            line_idx == cursor_pos.line as int,
            spec_lines(document@).len() == lineno + spec_lines(document@.skip(ls as int)).len(),
            forall|m: int|
                0 <= m < spec_lines(document@.skip(ls as int)).len() ==> spec_lines(document@)[
                    lineno + m
                ] == spec_lines(document@.skip(ls as int))[m],
        decreases line_idx - lineno,
    {
        let j = find_newline_from(document, ls, n);
        let ghost suffix = document@.skip(ls as int);
        proof {
            assert(forall|k: int| 0 <= k < suffix.len() ==> suffix[k] == document@[ls + k]);
            lemma_find_newline_is(suffix, 0, j - ls);
        }
        if j == n {
            // No further line break: the suffix holds at most one more line,
            // so the target line does not exist.
            proof {
                assert(spec_lines(suffix).len() <= 1);
            }
            return None;
        }
        proof {
            let jr = j - ls;
            assert(spec_lines(suffix) == seq![strip_cr(suffix.take(jr))] + spec_lines(
                suffix.skip(jr + 1),
            ));
            assert(suffix.skip(jr + 1) =~= document@.skip(j + 1));
            let newsuffix = document@.skip(j + 1);
            assert forall|m: int|
                0 <= m < spec_lines(newsuffix).len() implies spec_lines(document@)[(lineno + 1)
                + m] == spec_lines(newsuffix)[m] by {
                assert(spec_lines(suffix)[m + 1] == spec_lines(newsuffix)[m]);
                assert(spec_lines(document@)[lineno + (m + 1)] == spec_lines(suffix)[m + 1]);
            }
        }
        ls = j + 1;
        lineno = lineno + 1;
    }
    if ls == n {
        // The document ends before the target line starts.
        return None;
    }
    let j = find_newline_from(document, ls, n);
    let ghost suffix = document@.skip(ls as int);
    proof {
        assert(forall|k: int| 0 <= k < suffix.len() ==> suffix[k] == document@[ls + k]);
        lemma_find_newline_is(suffix, 0, j - ls);
        assert(spec_lines(suffix).len() > 0);
    }
    let le = if j < n && j > ls && document.get_char(j - 1) == '\r' {
        j - 1
    } else {
        j
    };
    let ghost line = spec_lines(document@)[cursor_pos.line as int];
    proof {
        assert(line == spec_lines(suffix)[0]);
        if j < n {
            assert(spec_lines(suffix)[0] == strip_cr(suffix.take(j - ls)));
            assert(suffix.take(j - ls) =~= document@.subrange(ls as int, j as int));
            if j > ls && document@[j - 1] == '\r' {
                assert(line =~= document@.subrange(ls as int, le as int));
            } else {
                assert(line =~= document@.subrange(ls as int, le as int));
            }
        } else {
            assert(spec_lines(suffix)[0] == suffix);
            assert(line =~= document@.subrange(ls as int, le as int));
        }
        assert(line.len() == le - ls);
    }
    let k = cursor_pos.character as usize;
    if k > le - ls {
        return None;
    }
    let mut start: usize = ls + k;
    while start > ls && !is_space(document.get_char(start - 1))
        invariant
            ls <= start <= ls + k,
            ls + k <= le <= n,
            n == document@.len(),
            line =~= document@.subrange(ls as int, le as int),
            word_start(line, k as int) == word_start(line, start - ls),
        decreases start,
    {
        proof {
            assert(line[start - ls - 1] == document@[start - 1]);
        }
        start = start - 1;
    }
    proof {
        if start > ls {
            assert(line[start - ls - 1] == document@[start - 1]);
        }
        assert(word_start(line, k as int) == start - ls);
    }
    let w = document.substring_char(start, ls + k);
    proof {
        assert(w@ =~= line.subrange(start - ls, k as int));
    }
    Some(w.to_owned())
}

} // verus!
