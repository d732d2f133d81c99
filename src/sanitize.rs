//! Removal of cursor-movement and line-clearing sequences from one line of
//! captured terminal output, keeping colour sequences.

use vstd::prelude::*;
use vstd::string::*;

verus! {

/// The escape character that starts a control sequence.
pub const ESC: char = '\u{1b}';

/// A character that may stand inside a control sequence before its final letter.
pub open spec fn is_sequence_char(c: char) -> bool {
    c == '[' || c == ';' || ('0' <= c && c <= '9')
}

/// The index of the first character at or after `j` that cannot continue a
/// control sequence (the sequence's terminator), or the length of `s`.
pub open spec fn sequence_end(s: Seq<char>, j: int) -> int
    decreases s.len() - j,
{
    if j < 0 || j >= s.len() {
        s.len() as int
    } else if is_sequence_char(s[j]) {
        sequence_end(s, j + 1)
    } else {
        j
    }
}

pub proof fn lemma_sequence_end_bounds(s: Seq<char>, j: int)
    requires
        0 <= j <= s.len(),
    ensures
        j <= sequence_end(s, j) <= s.len(),
    decreases s.len() - j,
{
    if j < s.len() {
        lemma_sequence_end_bounds(s, j + 1);
    }
}

/// The scan of the sanitizer from position `i` of `s`: an escape whose
/// sequence ends in `m` (a colour) or runs to the end of the line is passed
/// over; any other sequence removes the line up to and including its
/// terminator, and the scan starts again at the front.
pub open spec fn sanitize_from(s: Seq<char>, i: int) -> Seq<char>
    decreases s.len(), s.len() - i,
    via sanitize_from_decreases
{
    if i < 0 || i >= s.len() {
        s
    } else if s[i] != ESC {
        sanitize_from(s, i + 1)
    } else {
        let k = sequence_end(s, i + 1);
        if k >= s.len() || s[k] == 'm' {
            sanitize_from(s, i + 1)
        } else {
            sanitize_from(s.subrange(k + 1, s.len() as int), 0)
        }
    }
}

#[via_fn]
proof fn sanitize_from_decreases(s: Seq<char>, i: int) {
    if 0 <= i < s.len() {
        lemma_sequence_end_bounds(s, i + 1);
    }
}

/// The sanitized form of a line.
pub open spec fn sanitized(s: Seq<char>) -> Seq<char> {
    sanitize_from(s, 0)
}

/// Every escape in `s` starts a colour sequence: `ESC`, then only `[`, `;`
/// and digits, then `m`.
pub open spec fn only_color_sequences(s: Seq<char>) -> bool {
    forall|i: int|
        0 <= i < s.len() && #[trigger] s[i] == ESC ==> {
            let k = sequence_end(s, i + 1);
            k < s.len() && s[k] == 'm'
        }
}

/// The characters of `s`, in order.
fn chars_of(s: &str) -> (r: Vec<char>)
    ensures
        r@ == s@,
{
    let n = s.unicode_len();
    let mut r: Vec<char> = Vec::new();
    let mut i: usize = 0;
    while i < n
        invariant
            n == s@.len(),
            i <= n,
            r@ == s@.take(i as int),
        decreases n - i,
    {
        r.push(s.get_char(i));
        i = i + 1;
        assert(r@ =~= s@.take(i as int));
    }
    assert(r@ =~= s@);
    r
}

fn is_sequence_char_exec(c: char) -> (r: bool)
    ensures
        r == is_sequence_char(c),
{
    c == '[' || c == ';' || ('0' <= c && c <= '9')
}

/// Strips cursor-movement and line-clearing sequences from one line of
/// captured output, keeping colour sequences.
pub fn sanitize_string(line: String) -> (r: String)
    ensures
        r@ == sanitized(line@),
{
    let chars = chars_of(line.as_str());
    let n = chars.len();
    let mut start: usize = 0;
    let mut i: usize = 0;
    assert(line@.subrange(0, n as int) =~= line@);
    while i < n
        invariant
            n == chars@.len(),
            chars@ == line@,
            start <= i <= n,
            sanitize_from(line@.subrange(start as int, n as int), i - start) == sanitized(line@),
        decreases n - start, n - i,
    {
        let ghost t = line@.subrange(start as int, n as int);
        if chars[i] != ESC {
            i = i + 1;
        } else {
            let mut k: usize = i + 1;
            while k < n && is_sequence_char_exec(chars[k])
                invariant
                    n == chars@.len(),
                    chars@ == line@,
                    t == line@.subrange(start as int, n as int),
                    start <= i < k <= n,
                    sequence_end(t, k - start) == sequence_end(t, i + 1 - start),
                decreases n - k,
            {
                k = k + 1;
            }
            if k >= n || chars[k] == 'm' {
                i = i + 1;
            } else {
                proof {
                    assert(t.subrange(k + 1 - start, t.len() as int) =~= line@.subrange(
                        k + 1,
                        n as int,
                    ));
                }
                start = k + 1;
                i = start;
            }
        }
    }
    let rest = line.as_str().substring_char(start, n);
    String::from_str(rest)
}

proof fn lemma_color_sequences_kept_from(s: Seq<char>, i: int)
    requires
        only_color_sequences(s),
        0 <= i <= s.len(),
    ensures
        sanitize_from(s, i) == s,
    decreases s.len() - i,
{
    if i < s.len() {
        lemma_color_sequences_kept_from(s, i + 1);
    }
}

/// A line whose only escapes start colour sequences comes out of the
/// sanitizer unchanged.
pub proof fn color_sequences_kept(s: Seq<char>)
    requires
        only_color_sequences(s),
    ensures
        sanitized(s) == s,
{
    lemma_color_sequences_kept_from(s, 0);
}

} // verus!
