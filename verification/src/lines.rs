//! The mathematical model of lines in a byte stream.
//!
//! A stream is a `Seq<u8>`. A newline byte ends a line; a stream that does not
//! end in a newline ends in one last, unterminated line. A line longer than
//! `MAX_LINE_LEN` counts as one line of which only the first `MAX_LINE_LEN`
//! bytes are kept.

use vstd::prelude::*;
use crate::constants::MAX_LINE_LEN;

verus! {

/// The byte that ends a line.
pub const NEWLINE: u8 = 10;

/// Index of the first newline in `s`, or `s.len()` where `s` has none.
pub open spec fn first_newline(s: Seq<u8>) -> int
    decreases s.len(),
{
    if s.len() == 0 || s[0] == NEWLINE {
        0
    } else {
        1 + first_newline(s.skip(1))
    }
}

/// The bytes kept of the first line of `s`: everything before its newline,
/// cut off after `MAX_LINE_LEN` bytes.
pub open spec fn line_bytes(s: Seq<u8>) -> Seq<u8> {
    let k = first_newline(s);
    if k <= MAX_LINE_LEN {
        s.take(k)
    } else {
        s.take(MAX_LINE_LEN as int)
    }
}

/// The number of bytes that the first line of `s` occupies in the stream,
/// its newline included.
pub open spec fn line_span(s: Seq<u8>) -> int {
    let k = first_newline(s);
    if k < s.len() {
        k + 1
    } else {
        k
    }
}

/// The lines of `s` in order, as a bounded reader yields them.
pub open spec fn stream_lines(s: Seq<u8>) -> Seq<Seq<u8>>
    decreases s.len(),
{
    if s.len() == 0 {
        Seq::empty()
    } else {
        proof {
            lemma_first_newline(s);
        }
        seq![line_bytes(s)] + stream_lines(s.skip(line_span(s)))
    }
}

/// The offset in `s` at which line number `n` (counted from 0) starts, or
/// `s.len()` where `s` has fewer lines.
pub open spec fn line_start(s: Seq<u8>, n: nat) -> int
    decreases n,
{
    if n == 0 {
        0
    } else if s.len() == 0 {
        0
    } else {
        line_span(s) + line_start(s.skip(line_span(s)), (n - 1) as nat)
    }
}

/// The pieces of `s` between its newlines: one more piece than `s` has
/// newlines, the last of them unterminated and possibly empty.
pub open spec fn split_newlines(s: Seq<u8>) -> Seq<Seq<u8>>
    decreases s.len(),
{
    let k = first_newline(s);
    if k >= s.len() {
        seq![s]
    } else {
        proof {
            lemma_first_newline(s);
        }
        seq![s.take(k)] + split_newlines(s.skip(k + 1))
    }
}

/// A piece cut off after `MAX_LINE_LEN` bytes.
pub open spec fn capped(piece: Seq<u8>) -> Seq<u8> {
    if piece.len() <= MAX_LINE_LEN {
        piece
    } else {
        piece.take(MAX_LINE_LEN as int)
    }
}

/// `s` holds no newline.
pub open spec fn has_no_newline(s: Seq<u8>) -> bool {
    forall|i: int| 0 <= i < s.len() ==> s[i] != NEWLINE
}

/// The last `n` entries of `s`, or all of `s` where it has no more than `n`.
pub open spec fn last_n<T>(s: Seq<T>, n: int) -> Seq<T> {
    if s.len() <= n {
        s
    } else {
        s.skip(s.len() - n)
    }
}

/// The texts that a sequence of strings holds.
pub open spec fn texts(v: Seq<String>) -> Seq<Seq<char>> {
    Seq::new(v.len(), |i: int| v[i]@)
}

/// `first_newline` stays inside the stream, passes no newline, and stops on
/// one unless it reaches the end.
pub proof fn lemma_first_newline(s: Seq<u8>)
    ensures
        0 <= first_newline(s) <= s.len(),
        forall|i: int| 0 <= i < first_newline(s) ==> s[i] != NEWLINE,
        first_newline(s) < s.len() ==> s[first_newline(s)] == NEWLINE,
    decreases s.len(),
{
    if s.len() > 0 && s[0] != NEWLINE {
        let t = s.skip(1);
        lemma_first_newline(t);
        assert forall|i: int| 0 <= i < first_newline(s) implies s[i] != NEWLINE by {
            if i > 0 {
                assert(s[i] == t[i - 1]);
            }
        }
    }
}

/// An index inside the stream that passes no newline, and stops on one
/// unless it is the end, is the first newline.
pub proof fn lemma_first_newline_is(s: Seq<u8>, k: int)
    requires
        0 <= k <= s.len(),
        forall|i: int| 0 <= i < k ==> s[i] != NEWLINE,
        k < s.len() ==> s[k] == NEWLINE,
    ensures
        first_newline(s) == k,
{
    lemma_first_newline(s);
}

/// The span of a line is positive on a non-empty stream and stays inside it.
pub proof fn lemma_line_span(s: Seq<u8>)
    ensures
        0 <= line_span(s) <= s.len(),
        s.len() > 0 ==> line_span(s) >= 1,
        line_bytes(s).len() <= MAX_LINE_LEN,
        line_bytes(s).len() <= first_newline(s),
        line_bytes(s).len() < line_span(s) || (line_bytes(s).len() == line_span(s)
            && line_span(s) == s.len()),
{
    lemma_first_newline(s);
}

/// Keeping the last `n` after one more entry arrives: append it, and drop the
/// oldest entry where that makes `n + 1`.
pub proof fn lemma_last_n_push<T>(s: Seq<T>, x: T, n: int)
    requires
        n >= 1,
    ensures
        last_n(s.push(x), n) == last_n(last_n(s, n).push(x), n),
        last_n(s, n).len() <= n,
        last_n(s, n).len() == n ==> last_n(s.push(x), n) == last_n(s, n).push(x).subrange(
            1,
            n + 1,
        ),
        last_n(s, n).len() < n ==> last_n(s.push(x), n) == last_n(s, n).push(x),
{
}

/// Keeping the last `n` after more entries arrive needs only the last `n` of
/// what was there before.
pub proof fn lemma_last_n_concat<T>(a: Seq<T>, b: Seq<T>, n: int)
    requires
        n >= 0,
    ensures
        last_n(last_n(a, n) + b, n) == last_n(a + b, n),
        last_n(a, n).len() <= a.len(),
        last_n(a, n).len() <= n,
        a.len() <= n ==> last_n(a, n) == a,
{
}

/// A stream whose first `clear` bytes hold no newline has no more finished
/// pieces than it has bytes after them.
pub proof fn lemma_split_count(s: Seq<u8>, clear: int)
    requires
        0 <= clear <= s.len(),
        forall|i: int| 0 <= i < clear ==> s[i] != NEWLINE,
    ensures
        split_newlines(s).len() <= 1 + s.len() - clear,
    decreases s.len(),
{
    lemma_first_newline(s);
    let k = first_newline(s);
    if k < s.len() {
        lemma_split_count(s.skip(k + 1), 0);
    }
}

/// Splitting a stream that grew: the finished pieces stay, and the last
/// piece goes on into what was added.
pub proof fn lemma_split_concat(x: Seq<u8>, y: Seq<u8>)
    ensures
        split_newlines(x + y) == split_newlines(x).drop_last() + split_newlines(
            split_newlines(x).last() + y,
        ),
    decreases x.len(),
{
    lemma_first_newline(x);
    let k = first_newline(x);
    if k < x.len() {
        let rest = x.skip(k + 1);
        lemma_split_concat(rest, y);
        lemma_first_newline_is(x + y, k);
        assert((x + y).take(k) =~= x.take(k));
        assert((x + y).skip(k + 1) =~= rest + y);
    }
}

/// The lines of a stream are the pieces between its newlines, each cut off
/// after `MAX_LINE_LEN` bytes; the last piece counts only where it is not
/// empty.
pub proof fn lemma_stream_lines_are_pieces(s: Seq<u8>)
    ensures
        stream_lines(s).len() == if split_newlines(s).last().len() == 0 {
            split_newlines(s).len() - 1
        } else {
            split_newlines(s).len() as int
        },
        forall|i: int|
            0 <= i < stream_lines(s).len() ==> #[trigger] stream_lines(s)[i] == capped(
                split_newlines(s)[i],
            ),
    decreases s.len(),
{
    lemma_first_newline(s);
    let k = first_newline(s);
    if s.len() == 0 {
    } else if k >= s.len() {
        assert(stream_lines(s.skip(line_span(s))).len() == 0);
    } else {
        let rest = s.skip(k + 1);
        lemma_stream_lines_are_pieces(rest);
    }
}

/// Finds the first newline of `bytes` at or after `from` and before `to`;
/// returns `to` where there is none.
pub fn find_newline(bytes: &[u8], from: usize, to: usize) -> (k: usize)
    requires
        from <= to <= bytes@.len(),
    ensures
        from <= k <= to,
        forall|i: int| from <= i < k ==> bytes@[i] != NEWLINE,
        k < to ==> bytes@[k as int] == NEWLINE,
{
    let mut k: usize = from;
    while k < to && bytes[k] != NEWLINE
        invariant
            from <= k <= to <= bytes@.len(),
            forall|i: int| from <= i < k ==> bytes@[i] != NEWLINE,
        decreases to - k,
    {
        k += 1;
    }
    k
}

} // verus!
