//! Splitting a text held in memory into its last lines.

use vstd::prelude::*;
use vstd::slice::{slice_subrange, slice_to_vec};
use vstd::string::*;
use vstd::utf8::*;
use crate::boundaries::{lemma_after_newline, lemma_valid_piece};
use crate::constants::MAX_LINES;
use crate::lines::{
    find_newline, last_n, lemma_first_newline, lemma_first_newline_is, line_span, line_start,
    NEWLINE,
};
use crate::logs::offset_after_n_newlines;
use crate::text::decode_strict;

verus! {

/// The byte that may stand before a newline as part of the line ending.
pub const CARRIAGE_RETURN: u8 = 13;

/// A line without its ending: without the newline that ends it, and without
/// a carriage return just before that newline.
pub open spec fn strip_line_ending(piece: Seq<u8>) -> Seq<u8> {
    if piece.len() > 0 && piece.last() == NEWLINE {
        let body = piece.drop_last();
        if body.len() > 0 && body.last() == CARRIAGE_RETURN {
            body.drop_last()
        } else {
            body
        }
    } else {
        piece
    }
}

/// The lines of a text, as `str::lines` gives them: split after each
/// newline, line endings taken off, the last line with or without one.
pub open spec fn text_lines(s: Seq<u8>) -> Seq<Seq<u8>>
    decreases s.len(),
{
    if s.len() == 0 {
        Seq::empty()
    } else {
        proof {
            lemma_first_newline(s);
        }
        seq![strip_line_ending(s.take(line_span(s)))] + text_lines(s.skip(line_span(s)))
    }
}

/// Splits a text into lines and keeps the last `MAX_LINES` of them.
///
/// Returns the kept lines, the byte offset at which the first of them
/// starts in the text, and the 1-based number of that line.
pub fn parse_log_content(content: &str) -> (out: (Vec<String>, u64, usize))
    ensures
        ({
            let all = text_lines(content.spec_bytes());
            let skip = all.len() - last_n(all, MAX_LINES as int).len();
            &&& out.0@.len() == last_n(all, MAX_LINES as int).len()
            &&& forall|i: int|
                0 <= i < out.0@.len() ==> (#[trigger] out.0@[i])@ == decode_utf8(all[skip + i])
            &&& out.1 == line_start(content.spec_bytes(), skip as nat)
            &&& out.2 == skip + 1
        }),
{
    broadcast use {encode_utf8_valid_utf8, decode_utf8_encode_utf8};

    let bytes = content.as_bytes();
    let len = bytes.len();
    let ghost b = bytes@;
    let ghost mut seen: Seq<Seq<u8>> = Seq::empty();
    let mut lines: Vec<String> = Vec::new();
    let mut pos: usize = 0;
    proof {
        assert(b.skip(0) =~= b);
    }
    while pos < len
        invariant
            b == bytes@,
            b == content.spec_bytes(),
            valid_utf8(b),
            pos <= len == b.len(),
            pos < len ==> !is_continuation_byte(b[pos as int]),
            text_lines(b) == seen + text_lines(b.skip(pos as int)),
            lines@.len() == seen.len(),
            forall|i: int| 0 <= i < seen.len() ==> valid_utf8(#[trigger] seen[i]),
            forall|i: int| 0 <= i < seen.len() ==> (#[trigger] lines@[i])@ == decode_utf8(seen[i]),
        decreases len - pos,
    {
        let ghost rem = b.skip(pos as int);
        let k = find_newline(bytes, pos, len);
        let end: usize = if k < len && k > pos && bytes[k - 1] == CARRIAGE_RETURN {
            k - 1
        } else {
            k
        };
        let piece = slice_subrange(bytes, pos, end);
        proof {
            lemma_first_newline_is(rem, k - pos);
            if k < len {
                lemma_after_newline(b, k as int);
            }
            lemma_valid_piece(b, pos as int, end as int);
            let whole = rem.take(line_span(rem));
            assert(piece@ == strip_line_ending(whole));
            assert(rem.skip(line_span(rem)) =~= b.skip(pos + line_span(rem)));
            seen = seen.push(piece@);
        }
        let line = decode_strict(slice_to_vec(piece)).unwrap();
        lines.push(line);
        pos = if k < len {
            k + 1
        } else {
            len
        };
    }
    let total = lines.len();
    let skip: usize = if total > MAX_LINES {
        total - MAX_LINES
    } else {
        0
    };
    let offset = offset_after_n_newlines(bytes, skip);
    let kept = lines.split_off(skip);
    (kept, offset, skip + 1)
}

} // verus!
