//! The log: which lines a request is answered with, and which of them are new.

use crate::api::{ApiError, ErrorView, ExitCode};
use crate::external_io::last_of;
use crate::sequences::{lemma_views_push, views};
use crate::text::{chars_of, lemma_line_end, line_end, line_text, lines_from, split_lines};
use vstd::prelude::*;
use vstd::string::*;
use vstd::utf8::{encode_scalar, encode_utf8};

verus! {

broadcast use lemma_views_push;

/// How many lines are shown where a request does not say.
pub const DEFAULT_LOG_LIMIT: u32 = 200;

/// A request for lines of the log: those behind a place, or the last ones.
#[derive(Debug, Clone, Copy, PartialEq, Eq)]
pub struct LogRequest {
    pub follow: bool,
    pub cursor: Option<u64>,
    pub limit: Option<u32>,
}

/// Lines of the log, and the place behind them.
#[derive(Debug, PartialEq, Eq)]
pub struct LogResponse {
    pub lines: Vec<String>,
    pub next_cursor: u64,
}

// ---------------------------------------------------------------------------
// Places in a log, counted in bytes

/// How many bytes a text takes.
pub open spec fn byte_len(text: Seq<char>) -> nat {
    encode_utf8(text).len()
}

/// How many bytes a character takes.
pub open spec fn char_bytes(c: char) -> nat {
    if c as u32 <= 0x7F {
        1
    } else if c as u32 <= 0x7FF {
        2
    } else if c as u32 <= 0xFFFF {
        3
    } else {
        4
    }
}

proof fn lemma_encode_concat(a: Seq<char>, b: Seq<char>)
    ensures
        encode_utf8(a + b) == encode_utf8(a) + encode_utf8(b),
    decreases a.len(),
{
    if a.len() == 0 {
        assert(a + b =~= b);
        assert(encode_utf8(a) + encode_utf8(b) =~= encode_utf8(b));
    } else {
        lemma_encode_concat(a.drop_first(), b);
        assert((a + b).drop_first() =~= a.drop_first() + b);
        assert(encode_utf8(a + b) =~= encode_utf8(a) + encode_utf8(b));
    }
}

proof fn lemma_byte_len_push(text: Seq<char>, n: int)
    requires
        0 <= n < text.len(),
    ensures
        byte_len(text.take(n + 1)) == byte_len(text.take(n)) + char_bytes(text[n]),
{
    let one = seq![text[n]];
    assert(text.take(n + 1) =~= text.take(n) + one);
    lemma_encode_concat(text.take(n), one);
    vstd::utf8::char_is_scalar(text[n]);
    assert(one.drop_first() =~= Seq::<char>::empty());
    reveal_with_fuel(encode_utf8, 2);
    assert(encode_utf8(one) =~= encode_scalar(text[n] as u32));
}

proof fn lemma_byte_len_grows(text: Seq<char>, n: int, m: int)
    requires
        0 <= n <= m <= text.len(),
    ensures
        byte_len(text.take(n)) + (m - n) <= byte_len(text.take(m)),
    decreases m,
{
    if n < m {
        lemma_byte_len_grows(text, n, m - 1);
        lemma_byte_len_push(text, m - 1);
    }
}

/// The first character at or behind a place in bytes, from the `n`-th on.
pub open spec fn char_place_from(text: Seq<char>, bytes: int, n: int) -> int
    decreases text.len() - n,
{
    if n < 0 || n >= text.len() || byte_len(text.take(n)) >= bytes {
        n
    } else {
        char_place_from(text, bytes, n + 1)
    }
}

/// The first character at or behind a place in bytes.
pub open spec fn char_place(text: Seq<char>, bytes: int) -> int {
    char_place_from(text, bytes, 0)
}

/// The lines that a request is answered with: those behind its place, where the log reaches
/// that far, else the last ones.
pub open spec fn answered_lines(text: Seq<char>, cursor: Option<u64>, limit: int) -> Seq<Seq<char>> {
    match cursor {
        Some(place) if place <= byte_len(text) => lines_from(text, char_place(text, place as int)),
        _ => last_of(lines_from(text, 0), limit),
    }
}

/// How many lines a request asks for at most.
pub open spec fn wanted_lines(limit: Option<u32>) -> u32 {
    match limit {
        Some(limit) => limit,
        None => DEFAULT_LOG_LIMIT,
    }
}

fn find_char_place(text: &str, bytes: usize) -> (r: usize)
    requires
        bytes <= byte_len(text@),
    ensures
        r == char_place(text@, bytes as int),
        r <= text@.len(),
{
    let chars = chars_of(text);
    let total = text.as_bytes().len();
    let mut n: usize = 0;
    let mut seen: usize = 0;
    proof {
        assert(text@.take(0) =~= Seq::<char>::empty());
    }
    while n < chars.len() && seen < bytes
        invariant
            chars@ == text@,
            total == byte_len(text@),
            n <= chars.len(),
            seen == byte_len(text@.take(n as int)),
            char_place(text@, bytes as int) == char_place_from(text@, bytes as int, n as int),
        decreases chars.len() - n,
    {
        let c = chars[n];
        let code = c as u32;
        let width: usize = if code <= 0x7F {
            1
        } else if code <= 0x7FF {
            2
        } else if code <= 0xFFFF {
            3
        } else {
            4
        };
        proof {
            lemma_byte_len_push(text@, n as int);
            lemma_byte_len_grows(text@, n + 1, text@.len() as int);
            assert(text@.take(text@.len() as int) =~= text@);
        }
        seen = seen + width;
        n = n + 1;
    }
    n
}

fn keep_last_lines(lines: Vec<String>, limit: usize) -> (r: Vec<String>)
    ensures
        views(r@) == last_of(views(lines@), limit as int),
{
    if lines.len() <= limit {
        return lines;
    }
    let start = lines.len() - limit;
    let ghost all = views(lines@);
    let mut last: Vec<String> = Vec::new();
    let mut i: usize = start;
    while i < lines.len()
        invariant
            start <= i <= lines.len(),
            all == views(lines@),
            views(last@) =~= all.subrange(start as int, i as int),
        decreases lines.len() - i,
    {
        last.push(lines[i].clone());
        i = i + 1;
    }
    assert(views(last@) =~= last_of(all, limit as int));
    last
}

/// The lines of a log that a request asks for, and the place behind the log.
pub fn select_lines(text: &str, request: &LogRequest) -> (r: LogResponse)
    ensures
        views(r.lines@) == answered_lines(
            text@,
            request.cursor,
            wanted_lines(request.limit) as int,
        ),
        r.next_cursor == byte_len(text@),
{
    let total = text.as_bytes().len();
    let limit: u32 = request.limit.unwrap_or(DEFAULT_LOG_LIMIT);
    let lines = match request.cursor {
        Some(place) if place <= total as u64 => {
            let from = find_char_place(text, place as usize);
            split_lines(text, from)
        },
        _ => keep_last_lines(split_lines(text, 0), limit as usize),
    };
    LogResponse { lines, next_cursor: total as u64 }
}

/// The answer to a request for lines of the log, from what reading the log came to.
pub fn answer_log_request(log_path: &str, read: Result<String, String>, request: &LogRequest) -> (r:
    Result<LogResponse, ApiError>)
    ensures
        match (read, r) {
            (Ok(text), Ok(response)) => {
                &&& views(response.lines@) == answered_lines(
                    text@,
                    request.cursor,
                    wanted_lines(request.limit) as int,
                )
                &&& response.next_cursor == byte_len(text@)
            },
            (Err(error), Err(answer)) => answer@ == (ErrorView {
                message: "failed to read log file "@ + log_path@ + ": "@ + error@,
                exit_code: ExitCode::InvalidInput,
            }),
            _ => false,
        },
{
    match read {
        Ok(text) => Ok(select_lines(text.as_str(), request)),
        Err(error) => {
            let mut message = String::from_str("failed to read log file ");
            message.append(log_path);
            message.append(": ");
            message.append(error.as_str());
            Err(ApiError { message, exit_code: ExitCode::InvalidInput })
        },
    }
}

// ---------------------------------------------------------------------------
// Following a log

proof fn lemma_char_place(text: Seq<char>, cut: int, n: int)
    requires
        0 <= n <= cut <= text.len(),
    ensures
        char_place_from(text, byte_len(text.take(cut)) as int, n) == cut,
    decreases cut - n,
{
    if n < cut {
        lemma_byte_len_grows(text, n, cut);
        lemma_char_place(text, cut, n + 1);
    }
}

proof fn lemma_line_end_shifted(before: Seq<char>, more: Seq<char>, from: int)
    requires
        0 <= from <= more.len(),
    ensures
        line_end(before + more, before.len() + from) == before.len() + line_end(more, from),
    decreases more.len() - from,
{
    if from < more.len() && more[from] != '\n' {
        lemma_line_end_shifted(before, more, from + 1);
    }
}

proof fn lemma_lines_shifted(before: Seq<char>, more: Seq<char>, from: int)
    requires
        0 <= from <= more.len(),
    ensures
        lines_from(before + more, before.len() + from) == lines_from(more, from),
    decreases more.len() - from,
{
    if from < more.len() {
        let all = before + more;
        let end = line_end(more, from);
        lemma_line_end_shifted(before, more, from);
        lemma_line_end(more, from);
        assert(line_text(all, before.len() + from, before.len() + end) =~= line_text(
            more,
            from,
            end,
        ));
        if end < more.len() {
            lemma_lines_shifted(before, more, end + 1);
        }
    }
}

proof fn lemma_line_end_kept(before: Seq<char>, more: Seq<char>, from: int)
    requires
        0 <= from < before.len(),
        before.last() == '\n',
    ensures
        line_end(before + more, from) == line_end(before, from),
        line_end(before, from) < before.len(),
    decreases before.len() - from,
{
    if before[from] != '\n' {
        lemma_line_end_kept(before, more, from + 1);
    }
}

proof fn lemma_lines_split(before: Seq<char>, more: Seq<char>, from: int)
    requires
        0 <= from <= before.len(),
        before.len() == 0 || before.last() == '\n',
    ensures
        lines_from(before + more, from) == lines_from(before, from) + lines_from(more, 0),
    decreases before.len() - from,
{
    let all = before + more;
    if from == before.len() {
        lemma_lines_shifted(before, more, 0);
        assert(lines_from(before, from) + lines_from(more, 0) =~= lines_from(more, 0));
    } else {
        lemma_line_end_kept(before, more, from);
        lemma_line_end(before, from);
        let end = line_end(before, from);
        assert(line_text(all, from, end) =~= line_text(before, from, end));
        lemma_lines_split(before, more, end + 1);
        assert(lines_from(all, from) =~= lines_from(before, from) + lines_from(more, 0));
    }
}

/// A request from the place that an earlier answer gave is answered with what was written to
/// the log since.
pub proof fn law_log_continues(before: Seq<char>, more: Seq<char>, cursor: u64, limit: int)
    requires
        cursor == byte_len(before),
    ensures
        answered_lines(before + more, Some(cursor), limit) == lines_from(more, 0),
{
    let all = before + more;
    assert(all.take(before.len() as int) =~= before);
    assert(all.take(all.len() as int) =~= all);
    lemma_byte_len_grows(all, before.len() as int, all.len() as int);
    lemma_char_place(all, before.len() as int, 0);
    lemma_lines_shifted(before, more, 0);
}

/// Where whole lines are written, following a log shows each line once: what was shown and
/// what is shown next are together the lines of the log.
pub proof fn law_following_shows_each_line(
    before: Seq<char>,
    more: Seq<char>,
    cursor: u64,
    limit: int,
)
    requires
        cursor == byte_len(before),
        before.len() == 0 || before.last() == '\n',
    ensures
        lines_from(before, 0) + answered_lines(before + more, Some(cursor), limit) == lines_from(
            before + more,
            0,
        ),
{
    law_log_continues(before, more, cursor, limit);
    lemma_lines_split(before, more, 0);
}

// ---------------------------------------------------------------------------
// New lines of a snapshot

/// Whether the last `overlap` lines of a snapshot are the first ones of the next.
pub open spec fn overlaps(previous: Seq<Seq<char>>, current: Seq<Seq<char>>, overlap: int) -> bool {
    previous.skip(previous.len() - overlap) == current.take(overlap)
}

/// The largest overlap of two snapshots of at most `most` lines.
pub open spec fn largest_overlap(
    previous: Seq<Seq<char>>,
    current: Seq<Seq<char>>,
    most: int,
) -> int
    decreases most,
{
    if most <= 0 || overlaps(previous, current, most) {
        most
    } else {
        largest_overlap(previous, current, most - 1)
    }
}

/// The lines of a snapshot that are not in the previous one: all of them where there is no
/// previous one, or where the snapshot is shorter.
pub open spec fn log_delta(previous: Seq<Seq<char>>, current: Seq<Seq<char>>) -> Seq<Seq<char>> {
    if previous.len() == 0 || current.len() < previous.len() {
        current
    } else {
        current.skip(largest_overlap(previous, current, previous.len() as int))
    }
}

fn copy_lines(lines: &Vec<String>, from: usize) -> (r: Vec<String>)
    requires
        from <= lines.len(),
    ensures
        views(r@) == views(lines@).skip(from as int),
{
    let ghost all = views(lines@);
    let mut copy: Vec<String> = Vec::new();
    let mut i: usize = from;
    while i < lines.len()
        invariant
            from <= i <= lines.len(),
            all == views(lines@),
            views(copy@) =~= all.subrange(from as int, i as int),
        decreases lines.len() - i,
    {
        copy.push(lines[i].clone());
        i = i + 1;
    }
    assert(views(copy@) =~= all.skip(from as int));
    copy
}

fn check_overlap(previous: &Vec<String>, current: &Vec<String>, overlap: usize) -> (r: bool)
    requires
        overlap <= previous.len(),
        overlap <= current.len(),
    ensures
        r == overlaps(views(previous@), views(current@), overlap as int),
{
    let start = previous.len() - overlap;
    let ghost old_lines = views(previous@);
    let ghost new_lines = views(current@);
    let mut i: usize = 0;
    while i < overlap
        invariant
            i <= overlap,
            overlap <= previous.len(),
            overlap <= current.len(),
            start == previous.len() - overlap,
            old_lines == views(previous@),
            new_lines == views(current@),
            forall|k: int| 0 <= k < i ==> old_lines[start + k] == #[trigger] new_lines[k],
        decreases overlap - i,
    {
        assert(old_lines[start + i] == previous@[start + i]@);
        assert(new_lines[i as int] == current@[i as int]@);
        if previous[start + i] != current[i] {
            assert(old_lines.skip(start as int)[i as int] != new_lines.take(
                overlap as int,
            )[i as int]);
            return false;
        }
        i = i + 1;
    }
    assert(old_lines.skip(start as int) =~= new_lines.take(overlap as int));
    true
}

/// The lines of a snapshot that are not in the previous one.
pub fn compute_log_delta(previous: &Vec<String>, current: &Vec<String>) -> (r: Vec<String>)
    ensures
        views(r@) == log_delta(views(previous@), views(current@)),
{
    let ghost old_lines = views(previous@);
    let ghost new_lines = views(current@);
    if previous.len() == 0 || current.len() < previous.len() {
        assert(new_lines.skip(0) =~= new_lines);
        return copy_lines(current, 0);
    }
    let mut overlap: usize = previous.len();
    while overlap > 0 && !check_overlap(previous, current, overlap)
        invariant
            old_lines == views(previous@),
            new_lines == views(current@),
            overlap <= previous.len() <= current.len(),
            largest_overlap(old_lines, new_lines, old_lines.len() as int) == largest_overlap(
                old_lines,
                new_lines,
                overlap as int,
            ),
        decreases overlap,
    {
        overlap = overlap - 1;
    }
    copy_lines(current, overlap)
}

/// Where lines are only added, the new lines of a snapshot are those that were added.
pub proof fn law_appended_lines_are_new(previous: Seq<Seq<char>>, added: Seq<Seq<char>>)
    ensures
        log_delta(previous, previous + added) == added,
{
    let current = previous + added;
    if previous.len() == 0 {
        assert(current =~= added);
    } else {
        assert(previous.skip(0) =~= previous);
        assert(current.take(previous.len() as int) =~= previous);
        assert(current.skip(previous.len() as int) =~= added);
    }
}

/// Without a cursor, or with one behind the end, the last lines are given, as many as are asked
/// for; with a cursor everything behind it is. Two hundred lines are given where no number is
/// named.
pub proof fn law_log_gives_the_last_lines(text: Seq<char>, limit: int, cursor: u64)
    requires
        0 <= limit,
    ensures
        answered_lines(text, None, limit) == if lines_from(text, 0).len() <= limit {
            lines_from(text, 0)
        } else {
            lines_from(text, 0).skip(lines_from(text, 0).len() - limit)
        },
        cursor > encode_utf8(text).len() ==> answered_lines(text, Some(cursor), limit)
            == answered_lines(text, None, limit),
        cursor == encode_utf8(text).len() ==> answered_lines(text, Some(cursor), limit).len() == 0,
        wanted_lines(None) == 200,
{
    if cursor == byte_len(text) {
        assert(text + Seq::<char>::empty() =~= text);
        law_log_continues(text, Seq::empty(), cursor, limit);
    }
}

/// The answer to a question for the log says where to go on: behind the last byte of the log.
pub proof fn law_log_says_where_to_go_on(text: &str, request: LogRequest, r: LogResponse)
    requires
        call_ensures(select_lines, (text, &request), r),
    ensures
        r.next_cursor == encode_utf8(text@).len(),
        request.cursor is None && request.limit is Some ==> r.lines@.len() <= request.limit->0,
        request.cursor is None && request.limit is None ==> r.lines@.len() <= 200,
{
    assert(views(r.lines@).len() == r.lines@.len());
}

/// The lines of a text end at the ends of lines: what stands in front of the first is the first
/// line, without a carriage return at its end, and the rest are the lines of what follows. A
/// text without any end of a line is one line, and an empty one has none.
pub proof fn law_lines_end_at_line_ends(line: Seq<char>, more: Seq<char>)
    requires
        forall|i: int| 0 <= i < line.len() ==> line[i] != '\n',
    ensures
        lines_from(line + seq!['\n'] + more, 0) == seq![
            if line.len() > 0 && line.last() == '\r' {
                line.drop_last()
            } else {
                line
            },
        ] + lines_from(more, 0),
        line.len() > 0 ==> lines_from(line, 0) == seq![line],
        lines_from(Seq::empty(), 0).len() == 0,
{
    let first = line + seq!['\n'];
    let n = line.len() as int;
    crate::text::lemma_line_end(first, 0);
    let end = line_end(first, 0);
    assert(first[n] == '\n');
    if end < n {
        assert(first[end] == line[end]);
    }
    assert(end == n);
    lemma_lines_split(first, more, 0);
    assert(lines_from(first, n + 1) =~= Seq::empty());
    if n > 0 && line.last() == '\r' {
        assert(line_text(first, 0, n) =~= line.drop_last());
    } else {
        assert(line_text(first, 0, n) =~= line);
    }
    assert(lines_from(first, 0) =~= seq![line_text(first, 0, n)]);
    if n > 0 {
        crate::text::lemma_line_end(line, 0);
        let last = line_end(line, 0);
        if last < n {
            assert(line[last] == '\n');
        }
        assert(line_text(line, 0, n) =~= line);
    }
}

} // verus!
