//! The text of standard input as the cipher commands take it: line by
//! line, every line ended by one line feed.

use vstd::prelude::*;

verus! {

/// The character at `i` is a carriage return that a line feed follows: the
/// two together end a line.
pub open spec fn ends_line_with_next(raw: Seq<char>, i: int) -> bool {
    raw[i] == '\r' && i + 1 < raw.len() && raw[i + 1] == '\n'
}

/// The first `n` characters of `raw` without the carriage returns that end
/// a line together with a line feed.
pub open spec fn line_feeds_only(raw: Seq<char>, n: int) -> Seq<char>
    decreases n,
{
    if n <= 0 {
        Seq::empty()
    } else if ends_line_with_next(raw, n - 1) {
        line_feeds_only(raw, n - 1)
    } else {
        line_feeds_only(raw, n - 1).push(raw[n - 1])
    }
}

/// What is read from an input `raw`: its lines, each ended by a line feed,
/// whether the input ended it by a line feed, by a carriage return and a
/// line feed, or, at the end of the input, not at all.
pub open spec fn lines_read(raw: Seq<char>) -> Seq<char> {
    let body = line_feeds_only(raw, raw.len() as int);
    if raw.len() > 0 && raw.last() != '\n' {
        body.push('\n')
    } else {
        body
    }
}

/// Turns what standard input held into the text that a command works on.
/// An empty input gives an empty text; any other input gives a text that
/// ends in a line feed.
pub fn stdin_read_to_string(raw: &str) -> (buffer: String)
    ensures
        buffer@ == lines_read(raw@),
        raw@.len() == 0 ==> buffer@.len() == 0,
        raw@.len() > 0 ==> buffer@.len() > 0 && buffer@.last() == '\n',
{
    let mut buffer = String::new();
    // a carriage return that was read and is not written yet
    let mut held = false;
    // the character read last is a line feed, or nothing was read
    let mut at_line_start = true;
    let mut any = false;
    for c in it: raw.chars()
        invariant
            it.seq() == raw@,
            any == (it.index() > 0),
            held ==> it.index() > 0 && raw@[it.index() - 1] == '\r',
            held ==> buffer@ == line_feeds_only(raw@, it.index() - 1),
            !held ==> buffer@ == line_feeds_only(raw@, it.index() as int),
            any ==> (at_line_start == (raw@[it.index() - 1] == '\n')),
            any && at_line_start ==> buffer@.len() > 0 && buffer@.last() == '\n',
    {
        if held && c != '\n' {
            buffer.push('\r');
        }
        if c == '\r' {
            held = true;
        } else {
            held = false;
            buffer.push(c);
        }
        at_line_start = c == '\n';
        any = true;
    }
    if held {
        buffer.push('\r');
    }
    if any && !at_line_start {
        buffer.push('\n');
    }
    buffer
}

} // verus!
