//! Reading one bounded line at a time from a byte stream held in memory.

use vstd::prelude::*;
use vstd::slice::slice_subrange;
use crate::constants::MAX_LINE_LEN;
use crate::lines::{find_newline, lemma_first_newline_is, line_bytes, line_span, NEWLINE};
use crate::text::{decode_lossy, line_text};

verus! {

/// A byte stream held in memory that hands out its content in windows of
/// bounded size, the way a buffered file reader does.
pub struct ByteReader<'a> {
    data: &'a [u8],
    pos: usize,
    window: usize,
}

/// Window size of a reader made with `ByteReader::new`.
pub const DEFAULT_WINDOW: usize = 8192;

impl<'a> ByteReader<'a> {
    /// All the bytes of the stream, read or not.
    pub closed spec fn content(&self) -> Seq<u8> {
        self.data@
    }

    /// The number of bytes consumed so far.
    pub closed spec fn consumed(&self) -> int {
        self.pos as int
    }

    /// The largest number of bytes that `fill_buf` hands out at once.
    pub closed spec fn window_len(&self) -> int {
        self.window as int
    }

    /// The bytes not consumed yet.
    pub open spec fn remaining(&self) -> Seq<u8> {
        self.content().skip(self.consumed())
    }

    /// The reader's invariant: its position lies inside the stream and its
    /// window is not empty.
    pub open spec fn wf(&self) -> bool {
        &&& 0 <= self.consumed() <= self.content().len()
        &&& self.window_len() >= 1
    }

    /// A reader at the start of `data`.
    pub fn new(data: &'a [u8]) -> (r: ByteReader<'a>)
        ensures
            r.wf(),
            r.content() == data@,
            r.consumed() == 0,
            r.window_len() == DEFAULT_WINDOW,
    {
        ByteReader { data, pos: 0, window: DEFAULT_WINDOW }
    }

    /// A reader at the start of `data` that hands out at most `window` bytes
    /// at once.
    pub fn with_window(data: &'a [u8], window: usize) -> (r: ByteReader<'a>)
        requires
            window >= 1,
        ensures
            r.wf(),
            r.content() == data@,
            r.consumed() == 0,
            r.window_len() == window,
    {
        ByteReader { data, pos: 0, window }
    }

    /// The number of bytes consumed so far.
    pub fn position(&self) -> (p: usize)
        ensures
            p == self.consumed(),
    {
        self.pos
    }

    /// The next window of unread bytes: empty only at the end of the stream.
    pub fn fill_buf(&self) -> (chunk: &'a [u8])
        requires
            self.wf(),
        ensures
            chunk@.len() == if self.remaining().len() > self.window_len() {
                self.window_len()
            } else {
                self.remaining().len() as int
            },
            chunk@ == self.remaining().take(chunk@.len() as int),
    {
        let len = self.data.len();
        let end = if len - self.pos > self.window {
            self.pos + self.window
        } else {
            len
        };
        slice_subrange(self.data, self.pos, end)
    }

    /// Marks the first `amt` unread bytes as read.
    pub fn consume(&mut self, amt: usize)
        requires
            old(self).wf(),
            amt <= old(self).remaining().len(),
        ensures
            final(self).wf(),
            final(self).content() == old(self).content(),
            final(self).window_len() == old(self).window_len(),
            final(self).consumed() == old(self).consumed() + amt,
            final(self).remaining() == old(self).remaining().skip(amt as int),
    {
        let len = self.data.len();
        assert(self.pos + amt <= len);
        self.pos = self.pos + amt;
    }
}

/// Bytes that a window shows to be no newline are no newline in the stream.
proof fn lemma_window_clear(start: Seq<u8>, chunk: Seq<u8>, at: int, k: int)
    requires
        0 <= at,
        0 <= k <= chunk.len(),
        at + chunk.len() <= start.len(),
        forall|i: int| 0 <= i < chunk.len() ==> chunk[i] == start[at + i],
        forall|i: int| 0 <= i < at ==> start[i] != NEWLINE,
        forall|i: int| 0 <= i < k ==> chunk[i] != NEWLINE,
    ensures
        forall|i: int| 0 <= i < at + k ==> start[i] != NEWLINE,
{
    assert forall|i: int| 0 <= i < at + k implies start[i] != NEWLINE by {
        if i >= at {
            assert(chunk[i - at] == start[at + (i - at)]);
        }
    }
}

/// Reads the bytes of the next line of the stream, keeping at most
/// `MAX_LINE_LEN` of them.
///
/// At the end of the stream there is no line. Otherwise the line runs up to
/// the next newline or the end of the stream; whatever it has beyond
/// `MAX_LINE_LEN` bytes is passed over, so that the following read starts at
/// the following line. The outcome does not depend on the reader's window.
pub fn read_line_bytes(r: &mut ByteReader<'_>) -> (line: Option<Vec<u8>>)
    requires
        old(r).wf(),
    ensures
        final(r).wf(),
        final(r).content() == old(r).content(),
        final(r).window_len() == old(r).window_len(),
        old(r).remaining().len() == 0 ==> line is None && final(r).consumed() == old(
            r,
        ).consumed(),
        old(r).remaining().len() > 0 ==> {
            &&& line is Some
            &&& line->0@ == line_bytes(old(r).remaining())
            &&& final(r).consumed() == old(r).consumed() + line_span(old(r).remaining())
        },
{
    let ghost start = r.remaining();
    let ghost base = r.consumed();
    let mut buf: Vec<u8> = Vec::new();
    let mut total: usize = 0;
    let mut seen_any = false;
    let mut done = false;
    let mut skip_until_newline = false;
    while !done
        invariant
            r.wf(),
            r.content() == old(r).content(),
            r.window_len() == old(r).window_len(),
            start == old(r).remaining(),
            base == old(r).consumed(),
            base <= r.consumed() <= base + start.len(),
            !done ==> {
                &&& r.consumed() == base + total
                &&& buf@ == start.take(total as int)
                &&& total < MAX_LINE_LEN
                &&& forall|i: int| 0 <= i < total ==> start[i] != NEWLINE
                &&& !skip_until_newline
                &&& seen_any == (total > 0)
            },
            done && !skip_until_newline ==> {
                &&& buf@ == line_bytes(start)
                &&& r.consumed() == base + line_span(start)
                &&& seen_any == (start.len() > 0)
            },
            done && skip_until_newline ==> {
                &&& buf@ == start.take(MAX_LINE_LEN as int)
                &&& start.len() >= MAX_LINE_LEN
                &&& r.consumed() == base + MAX_LINE_LEN
                &&& forall|i: int| 0 <= i < MAX_LINE_LEN ==> start[i] != NEWLINE
                &&& seen_any
            },
        decreases start.len() - (r.consumed() - base) + (if done { 0int } else { 1int }),
    {
        let chunk = r.fill_buf();
        let n = chunk.len();
        if n == 0 {
            proof {
                lemma_first_newline_is(start, start.len() as int);
            }
            done = true;
        } else {
            let room = MAX_LINE_LEN - total;
            let limit = if n > room { room + 1 } else { n };
            let k = find_newline(chunk, 0, limit);
            if k < limit {
                buf.extend_from_slice(slice_subrange(chunk, 0, k));
                r.consume(k + 1);
                proof {
                    lemma_window_clear(start, chunk@, total as int, k as int);
                    lemma_first_newline_is(start, total + k);
                }
                seen_any = true;
                done = true;
            } else if n >= room {
                buf.extend_from_slice(slice_subrange(chunk, 0, room));
                r.consume(room);
                proof {
                    lemma_window_clear(start, chunk@, total as int, room as int);
                }
                seen_any = true;
                skip_until_newline = true;
                done = true;
            } else {
                buf.extend_from_slice(chunk);
                r.consume(n);
                proof {
                    lemma_window_clear(start, chunk@, total as int, n as int);
                }
                total = total + n;
                seen_any = true;
            }
        }
    }
    let mut skipping = skip_until_newline;
    while skipping
        invariant
            r.wf(),
            r.content() == old(r).content(),
            r.window_len() == old(r).window_len(),
            start == old(r).remaining(),
            base == old(r).consumed(),
            base <= r.consumed() <= base + start.len(),
            skipping ==> skip_until_newline,
            skip_until_newline ==> {
                &&& buf@ == start.take(MAX_LINE_LEN as int)
                &&& r.consumed() >= base + MAX_LINE_LEN
                &&& seen_any
            },
            skipping ==> forall|i: int| 0 <= i < r.consumed() - base ==> start[i] != NEWLINE,
            !skipping ==> {
                &&& buf@ == line_bytes(start)
                &&& r.consumed() == base + line_span(start)
                &&& seen_any == (start.len() > 0)
            },
        decreases start.len() - (r.consumed() - base) + (if skipping { 1int } else { 0int }),
    {
        let ghost at = r.consumed() - base;
        let chunk = r.fill_buf();
        let n = chunk.len();
        if n == 0 {
            proof {
                lemma_first_newline_is(start, start.len() as int);
            }
            skipping = false;
        } else {
            let k = find_newline(chunk, 0, n);
            if k < n {
                r.consume(k + 1);
                proof {
                    lemma_window_clear(start, chunk@, at, k as int);
                    lemma_first_newline_is(start, at + k);
                }
                skipping = false;
            } else {
                r.consume(n);
                proof {
                    lemma_window_clear(start, chunk@, at, n as int);
                }
            }
        }
    }
    if seen_any {
        Some(buf)
    } else {
        None
    }
}

/// Reads the next line of the stream as text, keeping at most
/// `MAX_LINE_LEN` bytes of it.
///
/// The line is found as `read_line_bytes` finds it. Bytes that are not
/// well-formed UTF-8 are decoded lossily rather than refused.
pub fn read_line_bounded(r: &mut ByteReader<'_>) -> (line: Option<String>)
    requires
        old(r).wf(),
    ensures
        final(r).wf(),
        final(r).content() == old(r).content(),
        final(r).window_len() == old(r).window_len(),
        old(r).remaining().len() == 0 ==> line is None && final(r).consumed() == old(
            r,
        ).consumed(),
        old(r).remaining().len() > 0 ==> {
            &&& line is Some
            &&& line->0@ == line_text(line_bytes(old(r).remaining()))
            &&& final(r).consumed() == old(r).consumed() + line_span(old(r).remaining())
        },
{
    match read_line_bytes(r) {
        Some(bytes) => Some(decode_lossy(bytes.as_slice())),
        None => None,
    }
}

} // verus!
