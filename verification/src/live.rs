//! Following a log as it grows: taking in the bytes appended since the last
//! poll and putting lines together across polls.

use vstd::prelude::*;
use vstd::slice::{slice_subrange, slice_to_vec};
use vstd::string::*;
use vstd::utf8::*;
use crate::boundaries::{lemma_after_newline, lemma_pieces_spell_the_text, lemma_valid_piece};
use crate::buffer::{
    appended, lemma_appended_twice, numbers_kept, BufferModel, RetainedBuffer,
};
use crate::constants::{MAX_LINES, POLL_READ_CAP};
use crate::lines::{
    find_newline, has_no_newline, lemma_first_newline_is, lemma_split_concat, lemma_split_count,
    split_newlines, texts, NEWLINE,
};
use crate::text::decode_strict;

verus! {

/// The state of live tailing, as mathematics: the buffer, the number of
/// bytes of the file taken in so far, and the unfinished line carried over.
pub struct LiveModel {
    pub buffer: BufferModel,
    pub offset: int,
    pub partial: Seq<char>,
}

/// `s` is not empty and its last byte is a newline.
pub open spec fn ends_with_newline(s: Seq<u8>) -> bool {
    s.len() > 0 && s.last() == NEWLINE
}

/// The lines made of the finished pieces `pieces`. Where `drop_blank` holds
/// the empty pieces are left out.
pub open spec fn complete_lines(pieces: Seq<Seq<u8>>, drop_blank: bool) -> Seq<Seq<char>>
    decreases pieces.len(),
{
    if pieces.len() == 0 {
        Seq::empty()
    } else {
        let head = complete_lines(pieces.drop_last(), drop_blank);
        if drop_blank && pieces.last().len() == 0 {
            head
        } else {
            head.push(decode_utf8(pieces.last()))
        }
    }
}

/// The lines that a poll which read `bytes` adds to the buffer: none of no
/// bytes and of bytes that are not well-formed UTF-8. Otherwise the carried
/// line and the new text are split at newlines, and every piece but the
/// last is a finished line; where the text ends in a newline the empty ones
/// among them are left out.
pub open spec fn taken_lines(s: LiveModel, bytes: Seq<u8>) -> Seq<Seq<char>> {
    if bytes.len() == 0 || !valid_utf8(bytes) {
        Seq::empty()
    } else {
        let full = encode_utf8(s.partial) + bytes;
        complete_lines(split_newlines(full).drop_last(), ends_with_newline(full))
    }
}

/// The state after the bytes `bytes` were read from the file.
///
/// No bytes, or bytes that are not well-formed UTF-8, change nothing.
/// Otherwise the finished lines go to the buffer, the last piece of the
/// carried line and the new text is carried over, and the offset moves on
/// by the bytes read.
pub open spec fn absorbed(s: LiveModel, bytes: Seq<u8>) -> LiveModel {
    if bytes.len() == 0 || !valid_utf8(bytes) {
        s
    } else {
        LiveModel {
            buffer: appended(s.buffer, taken_lines(s, bytes)),
            offset: s.offset + bytes.len(),
            partial: decode_utf8(split_newlines(encode_utf8(s.partial) + bytes).last()),
        }
    }
}

/// The state after each of `reads` was taken in by a poll in turn.
pub open spec fn absorbed_all(s: LiveModel, reads: Seq<Seq<u8>>) -> LiveModel
    decreases reads.len(),
{
    if reads.len() == 0 {
        s
    } else {
        absorbed(absorbed_all(s, reads.drop_last()), reads.last())
    }
}

/// All the lines that the polls which read `reads` in turn add to the
/// buffer.
pub open spec fn taken_all(s: LiveModel, reads: Seq<Seq<u8>>) -> Seq<Seq<char>>
    decreases reads.len(),
{
    if reads.len() == 0 {
        Seq::empty()
    } else {
        taken_all(s, reads.drop_last()) + taken_lines(
            absorbed_all(s, reads.drop_last()),
            reads.last(),
        )
    }
}

/// Polls keep line numbers true. After any number of polls the buffer holds
/// the last `MAX_LINES` of the lines it held at first and the lines that the
/// polls added, and the line at `index` is the one that has the number of
/// the present base plus `index` when all of them are numbered on from the
/// first base.
pub proof fn lemma_polls_keep_line_numbers(s: LiveModel, reads: Seq<Seq<u8>>)
    requires
        s.buffer.lines.len() <= MAX_LINES,
    ensures
        absorbed_all(s, reads).buffer == appended(s.buffer, taken_all(s, reads)),
        numbers_kept(s.buffer, taken_all(s, reads), absorbed_all(s, reads).buffer),
    decreases reads.len(),
{
    if reads.len() > 0 {
        let before = absorbed_all(s, reads.drop_last());
        lemma_polls_keep_line_numbers(s, reads.drop_last());
        lemma_appended_twice(
            s.buffer,
            taken_all(s, reads.drop_last()),
            taken_lines(before, reads.last()),
        );
        assert(appended(before.buffer, Seq::empty()) == before.buffer) by {
            assert(before.buffer.lines + Seq::<Seq<char>>::empty() =~= before.buffer.lines);
        }
    } else {
        assert(s.buffer.lines + Seq::<Seq<char>>::empty() =~= s.buffer.lines);
    }
}

/// The state fits the machine's integers: the offset is a 64-bit number,
/// and so is, at most as wide as an index, the number of the line that
/// would arrive next.
pub open spec fn fits(s: LiveModel) -> bool {
    &&& s.offset <= u64::MAX
    &&& s.buffer.base + s.buffer.lines.len() <= usize::MAX
}

/// Where live tailing stands in the file: how many bytes were taken in, and
/// the line seen last that no newline has ended yet.
pub struct TailCursor {
    byte_offset: u64,
    partial_fragment: String,
}

impl TailCursor {
    /// The number of bytes of the file taken in so far.
    pub closed spec fn offset(&self) -> int {
        self.byte_offset as int
    }

    /// The unfinished line carried over.
    pub closed spec fn partial(&self) -> Seq<char> {
        self.partial_fragment@
    }

    /// The cursor's invariant: the offset is a 64-bit number, and the
    /// carried line holds no newline.
    pub open spec fn wf(&self) -> bool {
        &&& 0 <= self.offset() <= u64::MAX
        &&& has_no_newline(encode_utf8(self.partial()))
    }

    /// A cursor at `byte_offset` that carries nothing.
    pub fn new(byte_offset: u64) -> (c: TailCursor)
        ensures
            c.wf(),
            c.offset() == byte_offset,
            c.partial() == Seq::<char>::empty(),
    {
        let c = TailCursor { byte_offset, partial_fragment: String::new() };
        c
    }

    /// The number of bytes of the file taken in so far: the offset to read
    /// from at the next poll.
    pub fn byte_offset(&self) -> (offset: u64)
        ensures
            offset == self.offset(),
    {
        self.byte_offset
    }

    /// The unfinished line carried over.
    pub fn partial_fragment(&self) -> (partial: &str)
        ensures
            partial@ == self.partial(),
    {
        self.partial_fragment.as_str()
    }

    /// Whether `count` more bytes can be taken in without the offset leaving
    /// the machine's integers.
    pub fn has_room(&self, count: usize) -> (room: bool)
        ensures
            room == (self.offset() + count <= u64::MAX),
    {
        count as u64 <= u64::MAX - self.byte_offset
    }
}

/// The state that a buffer and a cursor make together.
pub open spec fn live_model(buffer: &RetainedBuffer, cursor: &TailCursor) -> LiveModel {
    LiveModel { buffer: buffer@, offset: cursor.offset(), partial: cursor.partial() }
}

/// Adding one finished piece adds its line, unless it is empty and empty
/// lines are left out.
pub proof fn lemma_complete_lines_push(pieces: Seq<Seq<u8>>, piece: Seq<u8>, drop_blank: bool)
    ensures
        complete_lines(pieces.push(piece), drop_blank) == if drop_blank && piece.len() == 0 {
            complete_lines(pieces, drop_blank)
        } else {
            complete_lines(pieces, drop_blank).push(decode_utf8(piece))
        },
        complete_lines(pieces, drop_blank).len() <= pieces.len(),
    decreases pieces.len(),
{
    assert(pieces.push(piece).drop_last() =~= pieces);
    if pieces.len() > 0 {
        lemma_complete_lines_push(pieces.drop_last(), pieces.last(), drop_blank);
    }
}

/// The lines of finished pieces add up piece by piece.
pub proof fn lemma_complete_lines_concat(u: Seq<Seq<u8>>, v: Seq<Seq<u8>>, drop_blank: bool)
    ensures
        complete_lines(u + v, drop_blank) == complete_lines(u, drop_blank) + complete_lines(
            v,
            drop_blank,
        ),
    decreases v.len(),
{
    if v.len() > 0 {
        assert((u + v).drop_last() =~= u + v.drop_last());
        lemma_complete_lines_concat(u, v.drop_last(), drop_blank);
    }
}

/// Where no piece is empty, leaving out the empty ones changes nothing.
pub proof fn lemma_complete_lines_no_blank(u: Seq<Seq<u8>>)
    requires
        forall|i: int| 0 <= i < u.len() ==> (#[trigger] u[i]).len() > 0,
    ensures
        complete_lines(u, true) == complete_lines(u, false),
    decreases u.len(),
{
    if u.len() > 0 {
        lemma_complete_lines_no_blank(u.drop_last());
    }
}

/// The bytes that a poll reads from a file that holds `file`, after `offset`
/// bytes were taken in: what lies beyond the offset, up to `POLL_READ_CAP`
/// bytes of it.
pub open spec fn poll_window(file: Seq<u8>, offset: int) -> Seq<u8> {
    if 0 <= offset < file.len() {
        if file.len() - offset > POLL_READ_CAP {
            file.subrange(offset, offset + POLL_READ_CAP)
        } else {
            file.subrange(offset, file.len() as int)
        }
    } else {
        Seq::empty()
    }
}

/// The state after one poll of a file that holds `file`.
pub open spec fn polled(s: LiveModel, file: Seq<u8>) -> LiveModel {
    absorbed(s, poll_window(file, s.offset))
}

/// The carried line and the first write, split into pieces.
pub open spec fn first_pieces(s: LiveModel, a: Seq<u8>) -> Seq<Seq<u8>> {
    split_newlines(encode_utf8(s.partial) + a)
}

/// A poll of a file that has not grown changes nothing.
pub proof fn lemma_poll_without_new_bytes(s: LiveModel, file: Seq<u8>)
    requires
        file.len() <= s.offset,
    ensures
        polled(s, file) == s,
{
}

/// Two writes, each followed by a poll, leave the same state as both writes
/// at once followed by one poll.
///
/// Everything in the file was taken in before, and the two writes together
/// stay within `POLL_READ_CAP`. Two kinds of writes are left out, since for
/// them the two states differ: a first write that is taken in, followed by
/// a second one that is not well-formed UTF-8 (the second poll then gives
/// up, as does the single poll, which thus never takes in the first write);
/// and a first write with a blank line among its finished lines, where only
/// one of the two texts ends in a newline (blank lines are left out only of
/// a text that ends in a newline).
pub proof fn lemma_two_writes_as_one(s: LiveModel, file: Seq<u8>, a: Seq<u8>, b: Seq<u8>)
    requires
        s.offset == file.len(),
        a.len() + b.len() <= POLL_READ_CAP,
        a.len() > 0 && valid_utf8(a) ==> valid_utf8(b),
        a.len() > 0 && b.len() > 0 && valid_utf8(a) ==> {
            ||| ends_with_newline(a) == ends_with_newline(b)
            ||| forall|i: int|
                0 <= i < first_pieces(s, a).len() - 1 ==> (#[trigger] first_pieces(s, a)[i]).len()
                    > 0
        },
    ensures
        polled(polled(s, file + a), file + a + b) == polled(s, file + a + b),
{
    broadcast use {encode_utf8_valid_utf8, encode_utf8_decode_utf8, decode_utf8_encode_utf8};

    let both = a + b;
    assert(poll_window(file + a, s.offset) =~= a);
    assert(poll_window(file + a + b, s.offset) =~= both);
    if a.len() > 0 && valid_utf8(a) {
        let s1 = polled(s, file + a);
        assert(poll_window(file + a + b, s1.offset) =~= b);
        if b.len() > 0 {
            let p = encode_utf8(s.partial);
            let full1 = p + a;
            let pieces1 = split_newlines(full1);
            let e1 = ends_with_newline(full1);
            valid_utf8_concat(p, a);
            valid_utf8_concat(a, b);
            lemma_pieces_spell_the_text(full1);
            let carried = pieces1.last();
            let full2 = carried + b;
            let pieces2 = split_newlines(full2);
            let full = p + both;
            let pieces = split_newlines(full);
            let e = ends_with_newline(full);
            assert(full =~= full1 + b);
            lemma_split_concat(full1, b);
            assert(pieces.drop_last() =~= pieces1.drop_last() + pieces2.drop_last());
            lemma_complete_lines_concat(pieces1.drop_last(), pieces2.drop_last(), e);
            if e1 != e {
                let finished = pieces1.drop_last();
                assert forall|i: int| 0 <= i < finished.len() implies (#[trigger] finished[i]).len()
                    > 0 by {
                    assert(finished[i] == first_pieces(s, a)[i]);
                }
                lemma_complete_lines_no_blank(finished);
            }
            lemma_appended_twice(
                s.buffer,
                complete_lines(pieces1.drop_last(), e1),
                complete_lines(pieces2.drop_last(), e),
            );
        }
    }
}

/// There is room for a poll that reads `count` bytes: they are no more than
/// `POLL_READ_CAP`, and as many more lines and bytes leave line numbers and
/// offset within the machine's integers.
pub open spec fn room_for(s: LiveModel, count: int) -> bool {
    &&& count <= POLL_READ_CAP
    &&& s.buffer.base + s.buffer.lines.len() + count <= usize::MAX
    &&& s.offset + count <= u64::MAX
}

/// Where there is room for a poll by the number of bytes it read, what comes
/// of the poll fits the machine's integers: a poll adds no more lines than
/// it read bytes.
pub proof fn lemma_room_for_poll(s: LiveModel, bytes: Seq<u8>)
    requires
        has_no_newline(encode_utf8(s.partial)),
        room_for(s, bytes.len() as int),
    ensures
        fits(absorbed(s, bytes)),
{
    if bytes.len() > 0 && valid_utf8(bytes) {
        let carried = encode_utf8(s.partial);
        let full = carried + bytes;
        lemma_split_count(full, carried.len() as int);
        let pieces = split_newlines(full);
        lemma_complete_lines_push(pieces.drop_last(), pieces.last(), ends_with_newline(full));
    }
}

/// Takes in the bytes that a poll read from the file at the cursor's offset.
///
/// Returns whether anything was taken in. A poll that read nothing, or bytes
/// that are not well-formed UTF-8, leaves buffer and cursor as they were.
/// Otherwise buffer and cursor change together, as `absorbed` says. What
/// comes of it must fit the machine's integers; `poll_if_room` tests for
/// that first.
pub fn poll_live_file(
    buffer: &mut RetainedBuffer,
    cursor: &mut TailCursor,
    new_bytes: Vec<u8>,
) -> (taken: bool)
    requires
        old(buffer).wf(),
        old(cursor).wf(),
        new_bytes@.len() <= POLL_READ_CAP,
        fits(absorbed(live_model(old(buffer), old(cursor)), new_bytes@)),
    ensures
        final(buffer).wf(),
        final(cursor).wf(),
        live_model(final(buffer), final(cursor)) == absorbed(
            live_model(old(buffer), old(cursor)),
            new_bytes@,
        ),
        taken == (new_bytes@.len() > 0 && valid_utf8(new_bytes@)),
        numbers_kept(
            old(buffer)@,
            taken_lines(live_model(old(buffer), old(cursor)), new_bytes@),
            final(buffer)@,
        ),
        new_bytes@.len() == 0 ==> live_model(final(buffer), final(cursor)) == live_model(
            old(buffer),
            old(cursor),
        ),
{
    broadcast use {encode_utf8_valid_utf8, encode_utf8_decode_utf8, decode_utf8_encode_utf8};

    let count = new_bytes.len();
    if count == 0 {
        return false;
    }
    let ghost bytes = new_bytes@;
    let text = match decode_strict(new_bytes) {
        Some(text) => text,
        None => {
            return false;
        },
    };
    let ghost carried = encode_utf8(cursor.partial());
    let mut full: Vec<u8> = slice_to_vec(cursor.partial_fragment.as_str().as_bytes());
    full.extend_from_slice(text.as_str().as_bytes());
    proof {
        assert(full@ =~= carried + bytes);
        valid_utf8_concat(carried, bytes);
    }
    let len = full.len();
    let ends = full[len - 1] == NEWLINE;
    let mut new_lines: Vec<String> = Vec::new();
    let mut partial = String::new();
    let mut pos: usize = 0;
    let mut done = false;
    let ghost mut seen: Seq<Seq<u8>> = Seq::empty();
    let ghost mut last: Seq<u8> = Seq::empty();
    proof {
        assert(full@.skip(0) =~= full@);
    }
    while !done
        invariant
            len == full@.len(),
            full@ == carried + bytes,
            valid_utf8(full@),
            ends == ends_with_newline(full@),
            pos <= len,
            pos < len ==> !is_continuation_byte(full@[pos as int]),
            !done ==> split_newlines(full@) == seen + split_newlines(full@.skip(pos as int)),
            done ==> split_newlines(full@) == seen.push(last),
            done ==> partial@ == decode_utf8(last),
            done ==> forall|i: int| 0 <= i < last.len() ==> last[i] != NEWLINE,
            done ==> valid_utf8(last),
            texts(new_lines@) == complete_lines(seen, ends),
        decreases len - pos + (if done { 0int } else { 1int }),
    {
        let ghost rem = full@.skip(pos as int);
        let k = find_newline(full.as_slice(), pos, len);
        let piece = slice_subrange(full.as_slice(), pos, k);
        proof {
            lemma_first_newline_is(rem, k - pos);
            assert(piece@ =~= rem.take(k - pos));
            if k < len {
                lemma_after_newline(full@, k as int);
            }
            lemma_valid_piece(full@, pos as int, k as int);
            lemma_complete_lines_push(seen, piece@, ends);
        }
        let line = decode_strict(slice_to_vec(piece)).unwrap();
        if k < len {
            proof {
                assert(rem.skip(k - pos + 1) =~= full@.skip(k + 1));
                seen = seen.push(piece@);
            }
            if !(ends && piece.len() == 0) {
                new_lines.push(line);
            }
            pos = k + 1;
        } else {
            proof {
                last = piece@;
            }
            partial = line;
            done = true;
        }
    }
    proof {
        assert(seen.push(last).drop_last() =~= seen);
    }
    buffer.append(new_lines);
    cursor.byte_offset = cursor.byte_offset + count as u64;
    cursor.partial_fragment = partial;
    true
}

/// Takes in the bytes that a poll read, as `poll_live_file` does, where
/// there is room for them; leaves buffer and cursor as they were where there
/// is none.
pub fn poll_if_room(
    buffer: &mut RetainedBuffer,
    cursor: &mut TailCursor,
    new_bytes: Vec<u8>,
) -> (taken: bool)
    requires
        old(buffer).wf(),
        old(cursor).wf(),
    ensures
        final(buffer).wf(),
        final(cursor).wf(),
        room_for(live_model(old(buffer), old(cursor)), new_bytes@.len() as int) ==> {
            &&& live_model(final(buffer), final(cursor)) == absorbed(
                live_model(old(buffer), old(cursor)),
                new_bytes@,
            )
            &&& taken == (new_bytes@.len() > 0 && valid_utf8(new_bytes@))
        },
        !room_for(live_model(old(buffer), old(cursor)), new_bytes@.len() as int) ==> {
            &&& live_model(final(buffer), final(cursor)) == live_model(old(buffer), old(cursor))
            &&& !taken
        },
        numbers_kept(
            old(buffer)@,
            if taken {
                taken_lines(live_model(old(buffer), old(cursor)), new_bytes@)
            } else {
                Seq::empty()
            },
            final(buffer)@,
        ),
{
    let count = new_bytes.len();
    if count <= POLL_READ_CAP && buffer.has_room(count) && cursor.has_room(count) {
        proof {
            lemma_room_for_poll(live_model(buffer, cursor), new_bytes@);
        }
        poll_live_file(buffer, cursor, new_bytes)
    } else {
        false
    }
}

} // verus!
