//! Cutting well-formed UTF-8 at bytes that start a character.

use vstd::prelude::*;
use vstd::utf8::*;
use crate::lines::{first_newline, lemma_first_newline, split_newlines, NEWLINE};

verus! {

/// A piece of well-formed UTF-8 that starts and ends where a character
/// starts, or at the end, is well-formed UTF-8.
pub proof fn lemma_valid_piece(b: Seq<u8>, p: int, q: int)
    requires
        valid_utf8(b),
        0 <= p <= q <= b.len(),
        p < b.len() ==> !is_continuation_byte(b[p]),
        q < b.len() ==> !is_continuation_byte(b[q]),
    ensures
        valid_utf8(b.subrange(p, q)),
{
    let n = b.len() as int;
    if p < n {
        is_char_boundary_iff_not_is_continuation_byte(b, p);
    } else {
        is_char_boundary_start_end_of_seq(b);
    }
    valid_utf8_split(b, p);
    let tail = b.subrange(p, n);
    if q < n {
        is_char_boundary_iff_not_is_continuation_byte(tail, q - p);
    } else {
        is_char_boundary_start_end_of_seq(tail);
    }
    valid_utf8_split(tail, q - p);
    assert(tail.subrange(0, q - p) =~= b.subrange(p, q));
}

/// In well-formed UTF-8 the byte after a newline starts a character or is
/// the end.
pub proof fn lemma_after_newline(b: Seq<u8>, k: int)
    requires
        valid_utf8(b),
        0 <= k < b.len(),
        b[k] == NEWLINE,
    ensures
        k + 1 < b.len() ==> !is_continuation_byte(b[k + 1]),
        !is_continuation_byte(b[k]),
{
    let n = b.len() as int;
    is_char_boundary_iff_not_is_continuation_byte(b, k);
    valid_utf8_split(b, k);
    let tail = b.subrange(k, n);
    let rest = pop_first_scalar(tail);
    assert(valid_utf8(rest));
}

/// Texts put together with a newline character between each two.
pub open spec fn joined(pieces: Seq<Seq<char>>) -> Seq<char>
    decreases pieces.len(),
{
    if pieces.len() == 0 {
        Seq::empty()
    } else if pieces.len() == 1 {
        pieces[0]
    } else {
        pieces[0] + seq!['\n'] + joined(pieces.drop_first())
    }
}

/// What each of `pieces` encodes.
pub open spec fn decoded(pieces: Seq<Seq<u8>>) -> Seq<Seq<char>> {
    Seq::new(pieces.len(), |i: int| decode_utf8(pieces[i]))
}

/// Splitting bytes at newline bytes is splitting the text at newline
/// characters: the pieces of well-formed UTF-8 are well-formed UTF-8, and
/// what they encode, put together with newline characters, is the text that
/// the whole encodes.
pub proof fn lemma_pieces_spell_the_text(s: Seq<u8>)
    requires
        valid_utf8(s),
    ensures
        forall|i: int|
            0 <= i < split_newlines(s).len() ==> valid_utf8(#[trigger] split_newlines(s)[i]),
        joined(decoded(split_newlines(s))) == decode_utf8(s),
    decreases s.len(),
{
    lemma_first_newline(s);
    let k = first_newline(s);
    let n = s.len() as int;
    let pieces = split_newlines(s);
    if k < n {
        let rest = s.skip(k + 1);
        let tail = s.subrange(k, n);
        lemma_after_newline(s, k);
        lemma_valid_piece(s, 0, k);
        lemma_valid_piece(s, k + 1, n);
        lemma_pieces_spell_the_text(rest);
        is_char_boundary_iff_not_is_continuation_byte(s, k);
        decode_utf8_split(s, k);
        assert(pop_first_scalar(tail) =~= rest);
        assert(10u8 & 0x7f == 10u8) by (bit_vector);
        let others = split_newlines(rest);
        assert(decoded(pieces).drop_first() =~= decoded(others));
    }
}

} // verus!
