//! The callout marker grammar.
//!
//! A blockquote becomes a callout when its text opens with a three-line
//! marker: a line holding only `[`, a line `!keyword`, and a line holding
//! only `]`. Whatever follows is the body of the callout.

use crate::text::{chars_of, push_range};
use vstd::prelude::*;

verus! {

/// The index of the first line feed in `s`, or `s.len()` when it has none.
pub open spec fn first_newline(s: Seq<char>) -> int
    decreases s.len(),
{
    if s.len() == 0 {
        0
    } else if s[0] == '\n' {
        0
    } else {
        1 + first_newline(s.skip(1))
    }
}

/// `line` without the carriage return that ends it, if one does.
pub open spec fn strip_cr(line: Seq<char>) -> Seq<char> {
    if line.len() > 0 && line.last() == '\r' {
        line.drop_last()
    } else {
        line
    }
}

/// The first line of a non-empty text. A line ends at a line feed, which is
/// not part of it, nor is a carriage return just before that line feed. The
/// last line may lack the line feed and is then taken as it stands.
pub open spec fn first_line(s: Seq<char>) -> Seq<char> {
    let i = first_newline(s);
    if i == s.len() {
        s
    } else {
        strip_cr(s.subrange(0, i))
    }
}

/// What is left of a non-empty text once its first line and the line feed
/// that ends it are taken away.
pub open spec fn after_first_line(s: Seq<char>) -> Seq<char> {
    let i = first_newline(s);
    if i == s.len() {
        Seq::empty()
    } else {
        s.subrange(i + 1, s.len() as int)
    }
}

/// The lines of a text. The empty text has no lines, and a line feed at the
/// very end does not open another line.
pub open spec fn lines_of(s: Seq<char>) -> Seq<Seq<char>>
    decreases s.len(),
    via lines_of_decreases
{
    if s.len() == 0 {
        Seq::empty()
    } else {
        seq![first_line(s)] + lines_of(after_first_line(s))
    }
}

#[via_fn]
proof fn lines_of_decreases(s: Seq<char>) {
    if s.len() != 0 {
        lemma_first_newline_bounds(s);
    }
}

/// The lines joined by single line feeds.
pub open spec fn join_lines(lines: Seq<Seq<char>>) -> Seq<char>
    decreases lines.len(),
{
    if lines.len() == 0 {
        Seq::empty()
    } else if lines.len() == 1 {
        lines[0]
    } else {
        lines[0] + seq!['\n'] + join_lines(lines.skip(1))
    }
}

/// The keyword and body of the callout marker that opens `s`, if there is
/// one. The keyword is what follows the `!` on the second line, as written.
pub open spec fn marker_of(s: Seq<char>) -> Option<(Seq<char>, Seq<char>)> {
    let lines = lines_of(s);
    if lines.len() >= 3 && lines[0] == seq!['['] && lines[1].len() >= 1 && lines[1][0] == '!'
        && lines[2] == seq![']'] {
        Some((lines[1].skip(1), join_lines(lines.skip(3))))
    } else {
        None
    }
}

pub proof fn lemma_first_newline_bounds(s: Seq<char>)
    ensures
        0 <= first_newline(s) <= s.len(),
        first_newline(s) < s.len() ==> s[first_newline(s)] == '\n',
        forall|j: int| 0 <= j < first_newline(s) ==> s[j] != '\n',
    decreases s.len(),
{
    if s.len() > 0 && s[0] != '\n' {
        let t = s.skip(1);
        lemma_first_newline_bounds(t);
        assert forall|j: int| 0 <= j < first_newline(s) implies s[j] != '\n' by {
            if j > 0 {
                assert(s[j] == t[j - 1]);
            }
        }
    }
}

/// The first position at or after which `s` has a line feed is the first
/// newline: no line feed before `i`, and one at `i` or `i` at the end.
pub proof fn lemma_first_newline_is(s: Seq<char>, i: int)
    requires
        0 <= i <= s.len(),
        forall|j: int| 0 <= j < i ==> s[j] != '\n',
        i < s.len() ==> s[i] == '\n',
    ensures
        first_newline(s) == i,
{
    lemma_first_newline_bounds(s);
    let k = first_newline(s);
    if k < i {
        assert(s[k] == '\n');
    } else if k > i {
        assert(s[i] != '\n');
    }
}

/// The marker grammar read one line at a time.
pub open spec fn marker_by_steps(s: Seq<char>) -> Option<(Seq<char>, Seq<char>)> {
    let rest1 = after_first_line(s);
    let rest2 = after_first_line(rest1);
    let rest3 = after_first_line(rest2);
    if s.len() > 0 && first_line(s) == seq!['['] && rest1.len() > 0 && first_line(rest1).len()
        >= 1 && first_line(rest1)[0] == '!' && rest2.len() > 0 && first_line(rest2) == seq![']'] {
        Some((first_line(rest1).skip(1), join_lines(lines_of(rest3))))
    } else {
        None
    }
}

/// The lines of a non-empty text are its first line, then the lines of the
/// rest.
pub proof fn lemma_lines_unfold(s: Seq<char>)
    requires
        s.len() > 0,
    ensures
        lines_of(s).len() == 1 + lines_of(after_first_line(s)).len(),
        lines_of(s)[0] == first_line(s),
        lines_of(s).skip(1) == lines_of(after_first_line(s)),
{
    let tail = lines_of(after_first_line(s));
    assert(lines_of(s) == seq![first_line(s)] + tail);
    assert(lines_of(s).skip(1) == tail);
}

/// Reading the grammar line by line agrees with reading it off the list of
/// lines.
pub proof fn lemma_marker_by_steps(s: Seq<char>)
    ensures
        marker_by_steps(s) == marker_of(s),
{
    let lines = lines_of(s);
    if s.len() > 0 {
        lemma_lines_unfold(s);
        let rest1 = after_first_line(s);
        lemma_lines_empty(rest1);
        if rest1.len() > 0 {
            lemma_lines_unfold(rest1);
            let rest2 = after_first_line(rest1);
            lemma_lines_empty(rest2);
            assert(lines[1] == lines.skip(1)[0]);
            if rest2.len() > 0 {
                lemma_lines_unfold(rest2);
                let rest3 = after_first_line(rest2);
                assert(lines[2] == lines.skip(1).skip(1)[0]);
                assert(lines.skip(3) == lines.skip(1).skip(1).skip(1));
            } else {
                assert(lines.len() == 2);
            }
        } else {
            assert(lines.len() == 1);
        }
    }
}

/// A text has no lines exactly when it is empty.
pub proof fn lemma_lines_empty(s: Seq<char>)
    ensures
        lines_of(s).len() == 0 <==> s.len() == 0,
{
}

/// Finds the first line of `chars[start..]`. Returns the bounds of the line
/// within `chars` and the position where the rest of the text begins.
fn take_line(chars: &Vec<char>, start: usize) -> (r: (usize, usize))
    requires
        start < chars.len(),
    ensures
        start <= r.0 <= r.1 <= chars.len(),
        start < r.1,
        chars@.subrange(start as int, r.0 as int) == first_line(chars@.skip(start as int)),
        chars@.skip(r.1 as int) == after_first_line(chars@.skip(start as int)),
{
    let ghost rest = chars@.skip(start as int);
    let n = chars.len();
    let mut i: usize = start;
    while i < n && chars[i] != '\n'
        invariant
            start <= i <= n,
            n == chars.len(),
            forall|j: int| start <= j < i ==> chars@[j] != '\n',
        decreases n - i,
    {
        i += 1;
    }
    proof {
        assert forall|j: int| 0 <= j < i - start implies rest[j] != '\n' by {
            assert(rest[j] == chars@[start + j]);
        }
        lemma_first_newline_is(rest, i - start);
    }
    if i == n {
        assert(chars@.subrange(start as int, n as int) == rest);
        assert(chars@.skip(n as int) == Seq::<char>::empty());
        (n, n)
    } else {
        assert(rest.subrange(i - start + 1, rest.len() as int) == chars@.skip(i + 1));
        assert(rest.subrange(0, i - start) == chars@.subrange(start as int, i as int));
        if i > start && chars[i - 1] == '\r' {
            assert(chars@.subrange(start as int, i as int).drop_last() == chars@.subrange(
                start as int,
                i - 1,
            ));
            (i - 1, i + 1)
        } else {
            (i, i + 1)
        }
    }
}

/// Recognises the callout marker at the start of a blockquote's text.
///
/// Returns the keyword and the body when the first three lines are `[`,
/// `!keyword` and `]`; the body is the remaining lines joined by line feeds.
/// Any other text gives `None`.
pub fn parse_marker(input: &str) -> (r: Option<(String, String)>)
    ensures
        match r {
            Some((keyword, body)) => marker_of(input@) == Some((keyword@, body@)),
            None => marker_of(input@) is None,
        },
{
    let chars = chars_of(input);
    let n = chars.len();
    proof {
        assert(chars@.skip(0) == input@);
        lemma_marker_by_steps(input@);
    }
    if n == 0 {
        return None;
    }
    let (end1, next1) = take_line(&chars, 0);
    if !is_single(&chars, 0, end1, '[') || next1 >= n {
        return None;
    }
    let (end2, next2) = take_line(&chars, next1);
    if !(end2 > next1 && chars[next1] == '!') || next2 >= n {
        return None;
    }
    let (end3, next3) = take_line(&chars, next2);
    if !is_single(&chars, next2, end3, ']') {
        return None;
    }
    let mut keyword = String::new();
    push_range(&mut keyword, &chars, next1 + 1, end2);
    assert(chars@.subrange(next1 + 1, end2 as int) == chars@.subrange(
        next1 as int,
        end2 as int,
    ).skip(1));
    let body = join_rest(&chars, next3);
    Some((keyword, body))
}

/// Whether `chars[lo..hi]` is the single character `c`.
fn is_single(chars: &Vec<char>, lo: usize, hi: usize, c: char) -> (b: bool)
    requires
        lo <= hi <= chars.len(),
    ensures
        b == (chars@.subrange(lo as int, hi as int) == seq![c]),
{
    let ghost part = chars@.subrange(lo as int, hi as int);
    if hi - lo == 1 && chars[lo] == c {
        assert(part == seq![c]);
        true
    } else {
        assert(part != seq![c]) by {
            if part == seq![c] {
                assert(part.len() == 1);
                assert(part[0] == c);
            }
        }
        false
    }
}

/// The lines of `chars[start..]`, joined by line feeds.
fn join_rest(chars: &Vec<char>, start: usize) -> (body: String)
    requires
        start <= chars.len(),
    ensures
        body@ == join_lines(lines_of(chars@.skip(start as int))),
{
    let n = chars.len();
    let ghost total = join_lines(lines_of(chars@.skip(start as int)));
    let mut body = String::new();
    let mut pos: usize = start;
    let mut first = true;
    while pos < n
        invariant
            start <= pos <= n,
            n == chars.len(),
            pos < n ==> total == body@ + (if first {
                Seq::<char>::empty()
            } else {
                seq!['\n']
            }) + join_lines(lines_of(chars@.skip(pos as int))),
            pos == n ==> total == body@,
        decreases n - pos,
    {
        let ghost rest = chars@.skip(pos as int);
        let ghost before = body@;
        let ghost sep = if first {
            Seq::<char>::empty()
        } else {
            seq!['\n']
        };
        let (end, next) = take_line(chars, pos);
        if !first {
            body.push('\n');
        }
        assert(body@ == before + sep);
        push_range(&mut body, chars, pos, end);
        proof {
            let line = first_line(rest);
            let tail = lines_of(chars@.skip(next as int));
            let all = lines_of(rest);
            assert(all == seq![line] + tail);
            assert(all[0] == line);
            lemma_lines_empty(chars@.skip(next as int));
            if next == n {
                assert(all.len() == 1);
                assert(join_lines(all) == line);
                assert(total == before + sep + line);
            } else {
                assert(all.len() > 1);
                assert(all.skip(1) == tail);
                assert(join_lines(all) == line + seq!['\n'] + join_lines(tail));
                assert(total == before + sep + (line + seq!['\n'] + join_lines(tail)));
                assert(total == (before + sep + line) + seq!['\n'] + join_lines(tail));
            }
        }
        first = false;
        pos = next;
    }
    assert(start == n ==> total == Seq::<char>::empty());
    body
}

} // verus!
