//! Loading the last lines of a log: line by line for a small file, from a
//! window at its end for a large one.

use std::collections::VecDeque;
use vstd::prelude::*;
use vstd::slice::slice_subrange;
use vstd::string::*;
use vstd::utf8::*;
use crate::constants::{MAX_LINES, MAX_LINE_LEN, TAIL_READ_SIZE};
use crate::lines::{
    find_newline, first_newline, last_n, lemma_first_newline_is, lemma_last_n_push,
    lemma_line_span, line_span, line_start, split_newlines, stream_lines, texts,
};
use crate::reader::{read_line_bounded, ByteReader};
use crate::text::{decode_lossy, line_text};

verus! {

/// The lines of `bytes` as text: each line of the stream, decoded.
pub open spec fn decoded_lines(bytes: Seq<u8>) -> Seq<Seq<char>> {
    Seq::new(stream_lines(bytes).len(), |i: int| line_text(stream_lines(bytes)[i]))
}

/// The number of lines in `bytes`.
pub open spec fn line_count(bytes: Seq<u8>) -> int {
    stream_lines(bytes).len() as int
}

/// A file of up to `MAX_LINES` lines is loaded whole: the kept lines are the
/// file's lines, and the first of them is line 1 at offset 0.
pub proof fn lemma_short_file_loads_whole(content: Seq<u8>)
    requires
        line_count(content) <= MAX_LINES,
    ensures
        by_lines_outcome(content) == (decoded_lines(content), 0int, 1int),
{
}

/// Of a file of `n` lines, more than `MAX_LINES`, the last `MAX_LINES` lines
/// are kept, and the first of them is line `n - MAX_LINES + 1` of the file,
/// at the offset at which that line starts.
pub proof fn lemma_long_file_loads_last_lines(content: Seq<u8>)
    requires
        line_count(content) > MAX_LINES,
    ensures
        by_lines_outcome(content).0.len() == MAX_LINES,
        by_lines_outcome(content).0 == decoded_lines(content).skip(
            line_count(content) - MAX_LINES,
        ),
        by_lines_outcome(content).1 == line_start(
            content,
            (line_count(content) - MAX_LINES) as nat,
        ),
        by_lines_outcome(content).2 == line_count(content) - MAX_LINES + 1,
{
}

/// The offset just after the `n`-th newline of `data`, which is where line
/// number `n` (counted from 0) starts; the length of `data` where it has
/// fewer than `n` newlines.
pub fn offset_after_n_newlines(data: &[u8], n: usize) -> (offset: u64)
    ensures
        offset == line_start(data@, n as nat),
        offset <= data@.len(),
{
    let len = data.len();
    let mut pos: usize = 0;
    let mut seen: usize = 0;
    proof {
        assert(data@.skip(0) =~= data@);
    }
    while seen < n && pos < len
        invariant
            pos <= len == data@.len(),
            seen <= n,
            line_start(data@, n as nat) == pos + line_start(
                data@.skip(pos as int),
                (n - seen) as nat,
            ),
        decreases len - pos,
    {
        let ghost rest = data@.skip(pos as int);
        let k = find_newline(data, pos, len);
        proof {
            lemma_first_newline_is(rest, k - pos);
            assert(rest.skip(line_span(rest)) =~= data@.skip(pos + line_span(rest)));
        }
        if k < len {
            pos = k + 1;
        } else {
            pos = len;
        }
        seen = seen + 1;
    }
    pos as u64
}

/// Loads a log by reading it line by line from start to end, keeping the
/// last `MAX_LINES` lines.
///
/// Returns the kept lines, the byte offset at which the first kept line
/// starts, and the 1-based number of that line.
pub fn load_by_lines(content: &[u8]) -> (out: (Vec<String>, u64, usize))
    ensures
        outcome(out) == by_lines_outcome(content@),
        texts(out.0@) == last_n(decoded_lines(content@), MAX_LINES as int),
        out.2 == line_count(content@) - out.0@.len() + 1,
        out.1 == line_start(content@, (out.2 - 1) as nat),
        line_count(content@) <= MAX_LINES ==> {
            &&& texts(out.0@) == decoded_lines(content@)
            &&& out.2 == 1
            &&& out.1 == 0
        },
        line_count(content@) > MAX_LINES ==> {
            &&& out.0@.len() == MAX_LINES
            &&& texts(out.0@) == decoded_lines(content@).skip(line_count(content@) - MAX_LINES)
            &&& out.2 == line_count(content@) - MAX_LINES + 1
        },
{
    let size = content.len();
    let mut reader = ByteReader::new(content);
    let mut deque: VecDeque<String> = VecDeque::new();
    let mut total_lines: usize = 0;
    let ghost mut seen: Seq<Seq<char>> = Seq::empty();
    let mut more = true;
    proof {
        assert(reader.remaining() =~= content@);
    }
    while more
        invariant
            reader.wf(),
            reader.content() == content@,
            content@.len() == size,
            decoded_lines(content@) == seen + decoded_lines(reader.remaining()),
            seen.len() == total_lines,
            total_lines <= reader.consumed(),
            texts(deque@) == last_n(seen, MAX_LINES as int),
            !more ==> reader.remaining().len() == 0,
        decreases reader.remaining().len() + (if more { 1int } else { 0int }),
    {
        let ghost rem = reader.remaining();
        match read_line_bounded(&mut reader) {
            Some(line) => {
                let ghost text = line@;
                proof {
                    lemma_line_span(rem);
                    lemma_last_n_push(seen, text, MAX_LINES as int);
                    assert(reader.remaining() =~= rem.skip(line_span(rem)));
                }
                total_lines = total_lines + 1;
                deque.push_back(line);
                if deque.len() > MAX_LINES {
                    deque.pop_front();
                }
                proof {
                    seen = seen.push(text);
                }
            },
            None => {
                more = false;
            },
        }
    }
    let mut kept: Vec<String> = Vec::new();
    let ghost window = deque@;
    while deque.len() > 0
        invariant
            kept@ + deque@ == window,
        decreases deque@.len(),
    {
        match deque.pop_front() {
            Some(line) => {
                kept.push(line);
            },
            None => {},
        }
    }
    let file_line_start: usize = total_lines - kept.len() + 1;
    let file_offset: u64 = if file_line_start <= 1 {
        0
    } else {
        offset_after_n_newlines(content, file_line_start - 1)
    };
    (kept, file_offset, file_line_start)
}

/// The stream without its first line: what follows the first newline, and
/// nothing where the stream has no newline.
pub open spec fn after_first_newline(s: Seq<u8>) -> Seq<u8> {
    let k = first_newline(s);
    if k < s.len() {
        s.skip(k + 1)
    } else {
        Seq::empty()
    }
}

/// The largest character boundary of `bytes` that is no greater than `limit`.
pub open spec fn cut_point(bytes: Seq<u8>, limit: int) -> int
    decreases limit,
{
    if limit <= 0 {
        0
    } else if is_char_boundary(bytes, limit) {
        limit
    } else {
        cut_point(bytes, limit - 1)
    }
}

/// The marker that ends a line that was cut short.
pub open spec fn cut_marker() -> Seq<char> {
    seq!['.', '.', '.']
}

/// A line as the tail scan shows it: unchanged where its UTF-8 form has at
/// most `MAX_LINE_LEN` bytes; else cut at the last character boundary within
/// `MAX_LINE_LEN` bytes and followed by the marker.
pub open spec fn marked_text(text: Seq<char>) -> Seq<char> {
    let bytes = encode_utf8(text);
    if bytes.len() > MAX_LINE_LEN {
        decode_utf8(bytes.subrange(0, cut_point(bytes, MAX_LINE_LEN as int))) + cut_marker()
    } else {
        text
    }
}

/// The lines that the tail scan makes of the pieces `frags`: each piece
/// decoded and marked, the empty ones left out.
pub open spec fn tail_texts(frags: Seq<Seq<u8>>) -> Seq<Seq<char>>
    decreases frags.len(),
{
    if frags.len() == 0 {
        Seq::empty()
    } else {
        let head = tail_texts(frags.drop_last());
        let text = marked_text(line_text(frags.last()));
        if text.len() > 0 {
            head.push(text)
        } else {
            head
        }
    }
}

/// The lines that the tail scan makes of a window of bytes from the end of
/// a file, before the cap on their number.
pub open spec fn tail_lines(window: Seq<u8>) -> Seq<Seq<char>> {
    tail_texts(split_newlines(after_first_newline(window)))
}

/// Cuts a line that is longer than `MAX_LINE_LEN` bytes and marks the cut.
pub fn mark_oversized(line: String) -> (marked: String)
    ensures
        marked@ == marked_text(line@),
{
    broadcast use {encode_utf8_valid_utf8, encode_utf8_decode_utf8};

    let n = line.as_str().as_bytes().len();
    if n > MAX_LINE_LEN {
        let ghost bytes = encode_utf8(line@);
        let mut cut: usize = MAX_LINE_LEN;
        while !line.as_str().is_char_boundary(cut)
            invariant
                bytes == encode_utf8(line@),
                valid_utf8(bytes),
                cut <= MAX_LINE_LEN,
                cut_point(bytes, MAX_LINE_LEN as int) == cut_point(bytes, cut as int),
            decreases cut,
        {
            cut = cut - 1;
        }
        let (head, _) = line.as_str().split_at(cut);
        let marked = String::from_str(head).concat("...");
        proof {
            reveal_strlit("...");
        }
        marked
    } else {
        line
    }
}

/// Adding one piece adds its line, unless that line is empty.
pub proof fn lemma_tail_texts_push(frags: Seq<Seq<u8>>, frag: Seq<u8>)
    ensures
        tail_texts(frags.push(frag)) == if marked_text(line_text(frag)).len() > 0 {
            tail_texts(frags).push(marked_text(line_text(frag)))
        } else {
            tail_texts(frags)
        },
{
    assert(frags.push(frag).drop_last() =~= frags);
}

/// A window without any newline lies inside one line, and nothing is made
/// of it.
pub proof fn lemma_window_inside_one_line(window: Seq<u8>)
    requires
        first_newline(window) >= window.len(),
    ensures
        tail_lines(window) == Seq::<Seq<char>>::empty(),
{
    let none = Seq::<u8>::empty();
    let pieces = split_newlines(none);
    assert(pieces =~= seq![none]);
    assert(pieces.drop_last() =~= Seq::<Seq<u8>>::empty());
    assert(decode_utf8(none) =~= Seq::<char>::empty());
    assert(encode_utf8(Seq::<char>::empty()) =~= none);
    assert(tail_texts(pieces.drop_last()) =~= Seq::<Seq<char>>::empty());
}

/// Makes lines of a window of bytes taken from the end of a file.
///
/// The window's first line is left out, since it may have started before the
/// window; of a window without any newline nothing is left. What follows is
/// split at newlines; each piece is decoded, cut and marked if it is longer
/// than `MAX_LINE_LEN` bytes, and left out if it is empty. The last
/// `MAX_LINES` of these lines are returned.
pub fn parse_tail_lines(content: &[u8]) -> (lines: Vec<String>)
    ensures
        texts(lines@) == last_n(tail_lines(content@), MAX_LINES as int),
        lines@.len() <= MAX_LINES,
        first_newline(content@) >= content@.len() ==> lines@.len() == 0,
{
    let len = content.len();
    let first = find_newline(content, 0, len);
    let start: usize = if first < len {
        first + 1
    } else {
        len
    };
    let ghost rest = after_first_newline(content@);
    let ghost mut frags: Seq<Seq<u8>> = Seq::empty();
    proof {
        lemma_first_newline_is(content@, first as int);
        assert(content@.skip(len as int) =~= Seq::<u8>::empty());
    }
    let mut lines: Vec<String> = Vec::new();
    let mut pos: usize = start;
    let mut done = false;
    while !done
        invariant
            pos <= len == content@.len(),
            !done ==> split_newlines(rest) == frags + split_newlines(content@.skip(pos as int)),
            done ==> split_newlines(rest) == frags,
            texts(lines@) == tail_texts(frags),
        decreases len - pos + (if done { 0int } else { 1int }),
    {
        let ghost rem = content@.skip(pos as int);
        let k = find_newline(content, pos, len);
        let piece = slice_subrange(content, pos, k);
        proof {
            lemma_first_newline_is(rem, k - pos);
            assert(piece@ =~= rem.take(k - pos));
            lemma_tail_texts_push(frags, piece@);
            if k < len {
                assert(rem.skip(k - pos + 1) =~= content@.skip(k + 1));
            }
            frags = frags.push(piece@);
        }
        let text = mark_oversized(decode_lossy(piece));
        if !text.as_str().is_empty() {
            lines.push(text);
        }
        if k < len {
            pos = k + 1;
        } else {
            done = true;
        }
    }
    proof {
        if first >= len {
            lemma_window_inside_one_line(content@);
        }
    }
    let count = lines.len();
    if count > MAX_LINES {
        let kept = lines.split_off(count - MAX_LINES);
        kept
    } else {
        lines
    }
}

/// Loads a log from a window of bytes taken from its end.
///
/// Only the first `TAIL_READ_SIZE` bytes of the window are looked at. Line
/// numbers are not known in this case: the first kept line is reported as
/// line 1, and the offset is the size of the file, so that following the
/// file starts at its present end.
pub fn load_from_tail(window: &[u8], file_size: u64) -> (out: (Vec<String>, u64, usize))
    ensures
        outcome(out) == tail_outcome(window@, file_size),
        out.0@.len() <= MAX_LINES,
        out.1 == file_size,
        out.2 == 1,
{
    let cap: usize = TAIL_READ_SIZE as usize;
    let seen = if window.len() > cap {
        slice_subrange(window, 0, cap)
    } else {
        window
    };
    let kept = parse_tail_lines(seen);
    (kept, file_size, 1)
}

/// What a load returned, as mathematics: the kept lines, the byte offset to
/// follow the file from, and the line number of the first kept line.
pub open spec fn outcome(out: (Vec<String>, u64, usize)) -> (Seq<Seq<char>>, int, int) {
    (texts(out.0@), out.1 as int, out.2 as int)
}

/// What loading line by line yields for a file that holds `content`.
pub open spec fn by_lines_outcome(content: Seq<u8>) -> (Seq<Seq<char>>, int, int) {
    let all = decoded_lines(content);
    let kept = last_n(all, MAX_LINES as int);
    let first = all.len() - kept.len() + 1;
    (kept, line_start(content, (first - 1) as nat), first)
}

/// What loading from the tail yields for the bytes `window` read from the
/// end of a file of `file_size` bytes.
pub open spec fn tail_outcome(window: Seq<u8>, file_size: u64) -> (Seq<Seq<char>>, int, int) {
    let seen = if window.len() > TAIL_READ_SIZE {
        window.take(TAIL_READ_SIZE as int)
    } else {
        window
    };
    (last_n(tail_lines(seen), MAX_LINES as int), file_size as int, 1)
}

/// The lines shown when no file is given.
pub open spec fn sample_texts() -> Seq<Seq<char>> {
    seq![
        "2025-02-15T10:00:00Z INFO  Server started on 0.0.0.0:8080"@,
        "2025-02-15T10:00:01Z DEBUG Connecting to database..."@,
        "2025-02-15T10:00:02Z INFO  Database connection pool ready"@,
        "2025-02-15T10:00:05Z WARN  High memory usage: 85%"@,
        "2025-02-15T10:00:10Z ERROR Failed to connect to cache: connection refused"@,
        "2025-02-15T10:00:11Z INFO  Retrying cache connection (attempt 2)"@,
        "2025-02-15T10:00:15Z ERROR Timeout waiting for response from auth service"@,
        "2025-02-15T10:00:20Z DEBUG Request GET /api/health completed in 2ms"@,
        "2025-02-15T10:00:21Z INFO  Request GET /api/users completed in 45ms"@,
        "2025-02-15T10:00:25Z WARN  Rate limit approaching for client 192.168.1.1"@,
        "2025-02-15T10:00:30Z ERROR Database deadlock detected, retrying transaction"@,
        "2025-02-15T10:00:35Z INFO  Backup job started"@,
        "2025-02-15T10:00:40Z DEBUG Cache hit ratio: 0.92"@,
        "2025-02-15T10:00:45Z WARN  Disk space below 20% on /var/log"@,
        "2025-02-15T10:00:50Z INFO  Backup job completed successfully"@,
    ]
}

/// The lines shown when no file is given.
pub fn sample_logs() -> (logs: Vec<String>)
    ensures
        texts(logs@) == sample_texts(),
        0 < logs@.len() <= MAX_LINES,
{
    let mut logs: Vec<String> = Vec::new();
    logs.push(String::from_str("2025-02-15T10:00:00Z INFO  Server started on 0.0.0.0:8080"));
    logs.push(String::from_str("2025-02-15T10:00:01Z DEBUG Connecting to database..."));
    logs.push(String::from_str("2025-02-15T10:00:02Z INFO  Database connection pool ready"));
    logs.push(String::from_str("2025-02-15T10:00:05Z WARN  High memory usage: 85%"));
    logs.push(
        String::from_str("2025-02-15T10:00:10Z ERROR Failed to connect to cache: connection refused"),
    );
    logs.push(String::from_str("2025-02-15T10:00:11Z INFO  Retrying cache connection (attempt 2)"));
    logs.push(
        String::from_str("2025-02-15T10:00:15Z ERROR Timeout waiting for response from auth service"),
    );
    logs.push(
        String::from_str("2025-02-15T10:00:20Z DEBUG Request GET /api/health completed in 2ms"),
    );
    logs.push(
        String::from_str("2025-02-15T10:00:21Z INFO  Request GET /api/users completed in 45ms"),
    );
    logs.push(
        String::from_str("2025-02-15T10:00:25Z WARN  Rate limit approaching for client 192.168.1.1"),
    );
    logs.push(
        String::from_str("2025-02-15T10:00:30Z ERROR Database deadlock detected, retrying transaction"),
    );
    logs.push(String::from_str("2025-02-15T10:00:35Z INFO  Backup job started"));
    logs.push(String::from_str("2025-02-15T10:00:40Z DEBUG Cache hit ratio: 0.92"));
    logs.push(String::from_str("2025-02-15T10:00:45Z WARN  Disk space below 20% on /var/log"));
    logs.push(String::from_str("2025-02-15T10:00:50Z INFO  Backup job completed successfully"));
    logs
}

/// How to read a file for loading.
pub enum ReadPlan {
    /// Read the whole file.
    Whole,
    /// Read from the offset `start` to the end.
    Tail { start: u64 },
}

/// Decides from its size how a file is read: as a whole up to
/// `TAIL_READ_SIZE` bytes, beyond that only its last `TAIL_READ_SIZE` bytes.
pub fn read_plan(file_size: u64) -> (plan: ReadPlan)
    ensures
        file_size <= TAIL_READ_SIZE ==> plan == ReadPlan::Whole,
        file_size > TAIL_READ_SIZE ==> plan == (ReadPlan::Tail {
            start: (file_size - TAIL_READ_SIZE) as u64,
        }),
{
    if file_size > TAIL_READ_SIZE {
        ReadPlan::Tail { start: file_size - TAIL_READ_SIZE }
    } else {
        ReadPlan::Whole
    }
}

/// What there is to load.
pub enum LogInput {
    /// No file was named.
    Sample,
    /// The file named does not exist.
    Missing { path: String },
    /// The file named, its size, and the bytes read from it as `read_plan`
    /// says for that size.
    File { path: String, size: u64, bytes: Vec<u8> },
}

/// Why a load failed.
pub enum LoadError {
    /// The file named does not exist.
    NotFound { path: String },
}

/// The text of the failure for a file that does not exist.
pub open spec fn not_found_message(path: Seq<char>) -> Seq<char> {
    "Log file not found: "@ + path
}

impl LoadError {
    /// The failure in words, naming the file.
    pub fn message(&self) -> (msg: String)
        ensures
            self matches LoadError::NotFound { path } && msg@ == not_found_message(path@),
    {
        match self {
            LoadError::NotFound { path } => String::from_str("Log file not found: ").concat(
                path.as_str(),
            ),
        }
    }
}

/// Loads the lines to show at the start, with the file's path, the byte
/// offset to follow the file from, and the line number of the first line.
///
/// Without a file the sample lines are loaded. A file that does not exist
/// is the one failure. A file of up to `TAIL_READ_SIZE` bytes is loaded line
/// by line, a larger one from its tail.
pub fn load_logs(input: LogInput) -> (out: Result<
    (Vec<String>, Option<String>, u64, usize),
    LoadError,
>)
    ensures
        match input {
            LogInput::Sample => {
                &&& out matches Ok(loaded)
                &&& texts(loaded.0@) == sample_texts()
                &&& loaded.1 is None
                &&& loaded.2 == 0
                &&& loaded.3 == 1
            },
            LogInput::Missing { path } => {
                &&& out matches Err(LoadError::NotFound { path: named })
                &&& named@ == path@
            },
            LogInput::File { path, size, bytes } => {
                &&& out matches Ok(loaded)
                &&& loaded.1 matches Some(named)
                &&& named@ == path@
                &&& size <= TAIL_READ_SIZE ==> outcome((loaded.0, loaded.2, loaded.3))
                    == by_lines_outcome(bytes@)
                &&& size > TAIL_READ_SIZE ==> outcome((loaded.0, loaded.2, loaded.3))
                    == tail_outcome(bytes@, size)
            },
        },
{
    match input {
        LogInput::Sample => Ok((sample_logs(), None, 0, 1)),
        LogInput::Missing { path } => Err(LoadError::NotFound { path }),
        LogInput::File { path, size, bytes } => {
            let (lines, file_offset, file_line_start) = if size > TAIL_READ_SIZE {
                load_from_tail(bytes.as_slice(), size)
            } else {
                load_by_lines(bytes.as_slice())
            };
            Ok((lines, Some(path), file_offset, file_line_start))
        },
    }
}

} // verus!
