//! The bounded window of kept lines and the number of its first line.

use vstd::prelude::*;
use crate::constants::MAX_LINES;
use crate::lines::{last_n, lemma_last_n_concat, texts};

verus! {

/// What a buffer holds, as mathematics: the kept lines and the 1-based line
/// number of the first of them.
pub struct BufferModel {
    pub lines: Seq<Seq<char>>,
    pub base: int,
}

/// The buffer after `new` lines arrive: the last `MAX_LINES` of the old and
/// the new lines together, the base moved on by the number of lines that
/// left.
pub open spec fn appended(b: BufferModel, new: Seq<Seq<char>>) -> BufferModel {
    let all = b.lines + new;
    BufferModel {
        lines: last_n(all, MAX_LINES as int),
        base: b.base + (all.len() - last_n(all, MAX_LINES as int).len()),
    }
}

/// The buffer after each batch of `batches` arrived in turn.
pub open spec fn appended_all(b: BufferModel, batches: Seq<Seq<Seq<char>>>) -> BufferModel
    decreases batches.len(),
{
    if batches.len() == 0 {
        b
    } else {
        appended(appended_all(b, batches.drop_last()), batches.last())
    }
}

/// All the lines of `batches` in order.
pub open spec fn concat_all(batches: Seq<Seq<Seq<char>>>) -> Seq<Seq<char>>
    decreases batches.len(),
{
    if batches.len() == 0 {
        Seq::empty()
    } else {
        concat_all(batches.drop_last()) + batches.last()
    }
}

/// Line numbers stay true from `before` to `after` while `new` lines arrive:
/// `after` holds the last `MAX_LINES` of the old and the new lines in their
/// order, its base has moved on by the number of lines that left, and the
/// line at `index` is the one that has the number `after.base + index` when
/// the old and the new lines are numbered on from `before.base`.
pub open spec fn numbers_kept(
    before: BufferModel,
    new: Seq<Seq<char>>,
    after: BufferModel,
) -> bool {
    let history = before.lines + new;
    &&& after.lines.len() <= MAX_LINES
    &&& after.lines == last_n(history, MAX_LINES as int)
    &&& after.base == before.base + (history.len() - after.lines.len())
    &&& forall|i: int|
        0 <= i < after.lines.len() ==> #[trigger] after.lines[i] == history[after.base
            - before.base + i]
}

/// Appending keeps line numbers true.
pub proof fn lemma_appended_keeps_numbers(b: BufferModel, new: Seq<Seq<char>>)
    ensures
        numbers_kept(b, new, appended(b, new)),
{
}

/// Appending in two batches gives the same buffer as appending both at once.
pub proof fn lemma_appended_twice(b: BufferModel, first: Seq<Seq<char>>, second: Seq<Seq<char>>)
    ensures
        appended(appended(b, first), second) == appended(b, first + second),
{
    let n = MAX_LINES as int;
    lemma_last_n_concat(b.lines + first, second, n);
    assert((b.lines + first) + second =~= b.lines + (first + second));
}

/// Eviction keeps line numbers true. After any number of batches arrived,
/// the buffer holds the last `MAX_LINES` lines of everything that was ever
/// in it, and the line at `index` is the one whose number in that history,
/// counted on from the first base, is the present base plus `index`.
pub proof fn lemma_line_numbers_survive_eviction(b: BufferModel, batches: Seq<Seq<Seq<char>>>)
    requires
        b.lines.len() <= MAX_LINES,
    ensures
        appended_all(b, batches) == appended(b, concat_all(batches)),
        numbers_kept(b, concat_all(batches), appended_all(b, batches)),
    decreases batches.len(),
{
    if batches.len() > 0 {
        lemma_line_numbers_survive_eviction(b, batches.drop_last());
        lemma_appended_twice(b, concat_all(batches.drop_last()), batches.last());
    }
}

/// A bounded window of the most recent lines of a log, with the line number
/// of its first line.
pub struct RetainedBuffer {
    lines: Vec<String>,
    line_number_base: usize,
}

impl View for RetainedBuffer {
    type V = BufferModel;

    closed spec fn view(&self) -> BufferModel {
        BufferModel { lines: texts(self.lines@), base: self.line_number_base as int }
    }
}

impl RetainedBuffer {
    /// The buffer's invariant: it holds at most `MAX_LINES` lines, and the
    /// number of the line after its last fits the machine's integers.
    pub open spec fn wf(&self) -> bool {
        &&& self@.lines.len() <= MAX_LINES
        &&& 0 <= self@.base
        &&& self@.base + self@.lines.len() <= usize::MAX
    }

    /// The line number of the line that would arrive next.
    pub open spec fn next_line_number(&self) -> int {
        self@.base + self@.lines.len()
    }

    /// A buffer of the last `MAX_LINES` of `lines`, of which the first has
    /// the line number `first_line_number`.
    pub fn new(lines: Vec<String>, first_line_number: usize) -> (b: RetainedBuffer)
        requires
            first_line_number + lines@.len() <= usize::MAX,
        ensures
            b.wf(),
            b@ == appended(
                BufferModel { lines: Seq::empty(), base: first_line_number as int },
                texts(lines@),
            ),
            numbers_kept(
                BufferModel { lines: Seq::empty(), base: first_line_number as int },
                texts(lines@),
                b@,
            ),
            lines@.len() <= MAX_LINES ==> b@.lines == texts(lines@) && b@.base
                == first_line_number,
    {
        let mut lines = lines;
        let mut base = first_line_number;
        let ghost all = texts(lines@);
        let count = lines.len();
        if count > MAX_LINES {
            let drop = count - MAX_LINES;
            let kept = lines.split_off(drop);
            lines = kept;
            base = base + drop;
        }
        proof {
            assert(texts(lines@) =~= last_n(all, MAX_LINES as int));
        }
        RetainedBuffer { lines, line_number_base: base }
    }

    /// The kept lines, oldest first.
    pub fn lines(&self) -> (lines: &Vec<String>)
        ensures
            texts(lines@) == self@.lines,
    {
        &self.lines
    }

    /// The number of kept lines.
    pub fn len(&self) -> (n: usize)
        ensures
            n == self@.lines.len(),
    {
        self.lines.len()
    }

    /// Whether no line is kept.
    pub fn is_empty(&self) -> (empty: bool)
        ensures
            empty == (self@.lines.len() == 0),
    {
        self.lines.len() == 0
    }

    /// The line number of the first kept line.
    pub fn line_number_base(&self) -> (base: usize)
        ensures
            base == self@.base,
    {
        self.line_number_base
    }

    /// The line number in the source of the kept line at `index`. In a
    /// well-formed buffer the number of every kept line fits.
    pub fn line_number(&self, index: usize) -> (number: usize)
        requires
            self@.base + index <= usize::MAX,
        ensures
            number == self@.base + index,
    {
        self.line_number_base + index
    }

    /// Whether `count` more lines can arrive without a line number leaving
    /// the machine's integers.
    pub fn has_room(&self, count: usize) -> (room: bool)
        requires
            self.wf(),
        ensures
            room == (self.next_line_number() + count <= usize::MAX),
    {
        let used = self.line_number_base + self.lines.len();
        count <= usize::MAX - used
    }

    /// Takes in `new_lines`, then drops the oldest lines beyond `MAX_LINES`
    /// and moves the base on by their number.
    pub fn append(&mut self, new_lines: Vec<String>)
        requires
            old(self).wf(),
            old(self).next_line_number() + new_lines@.len() <= usize::MAX,
        ensures
            final(self).wf(),
            final(self)@ == appended(old(self)@, texts(new_lines@)),
            numbers_kept(old(self)@, texts(new_lines@), final(self)@),
            final(self).next_line_number() == old(self).next_line_number() + new_lines@.len(),
    {
        let mut new_lines = new_lines;
        let ghost before = self.lines@;
        let ghost added = new_lines@;
        self.lines.append(&mut new_lines);
        let count = self.lines.len();
        proof {
            assert(texts(self.lines@) =~= texts(before) + texts(added));
        }
        if count > MAX_LINES {
            let drop = count - MAX_LINES;
            let ghost all = self.lines@;
            let kept = self.lines.split_off(drop);
            self.lines = kept;
            self.line_number_base = self.line_number_base + drop;
            proof {
                assert(texts(self.lines@) =~= last_n(texts(all), MAX_LINES as int));
            }
        }
    }
}

} // verus!
