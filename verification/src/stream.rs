//! The stream assembler: turns raw backend fragments, each holding zero
//! or more newline-delimited JSON objects, into accumulated reply text
//! and a completion signal. Lines that fail to parse are ignored; a line
//! carrying a non-empty `message.content` or `response` string extends
//! the buffer; a line carrying `done: true` completes the stream.

use vstd::prelude::*;
use vstd::string::StringExecFns;

use crate::text::{split_lines, split_lines_spec, strings_view, trim_spec, trim_string};

verus! {

/// The text a JSON line carries: its `message.content` string if it has
/// one, otherwise its `response` string, otherwise nothing; nothing when
/// the line is not a JSON object. A function of the line alone.
pub uninterp spec fn line_content_of(line: Seq<char>) -> Option<Seq<char>>;

/// Whether a JSON line carries a boolean `done` field that is true;
/// false when the line is not a JSON object. A function of the line alone.
pub uninterp spec fn line_done_of(line: Seq<char>) -> bool;

/// Relies on `serde_json::from_str` and `serde_json::Value::{get, as_str}`:
/// parsing is a function of the line's characters alone, `get` looks a key
/// up in a JSON object, and `as_str` yields a string value's text.
#[verifier::external_body]
fn stream_line_content(line: &str) -> (r: Option<String>)
    ensures
        r is Some <==> line_content_of(line@) is Some,
        r is Some ==> r->0@ == line_content_of(line@)->0,
{
    let v: serde_json::Value = match serde_json::from_str(line) {
        Ok(v) => v,
        Err(_) => return None,
    };
    let from_message = match v.get("message") {
        Some(m) => match m.get("content") { Some(c) => c.as_str(), None => None },
        None => None,
    };
    match from_message {
        Some(s) => Some(s.to_owned()),
        None => match v.get("response") {
            Some(c) => match c.as_str() { Some(s) => Some(s.to_owned()), None => None },
            None => None,
        },
    }
}

/// Relies on `serde_json::from_str` and `serde_json::Value::{get, as_bool}`:
/// parsing is a function of the line's characters alone, `get` looks a key
/// up in a JSON object, and `as_bool` yields a boolean value.
#[verifier::external_body]
fn stream_line_done(line: &str) -> (r: bool)
    ensures
        r == line_done_of(line@),
{
    let v: serde_json::Value = match serde_json::from_str(line) {
        Ok(v) => v,
        Err(_) => return false,
    };
    match v.get("done") {
        Some(d) => match d.as_bool() {
            Some(b) => b,
            None => false,
        },
        None => false,
    }
}

/// Folds the trimmed lines into the buffer: blank lines are skipped, a
/// line's non-empty content is appended, and a `done` line yields true
/// at once, the remaining lines untouched.
pub open spec fn drain_lines(lines: Seq<Seq<char>>, buf: Seq<char>) -> (Seq<char>, bool)
    decreases lines.len(),
{
    if lines.len() == 0 {
        (buf, false)
    } else {
        let l = trim_spec(lines[0]);
        if l.len() == 0 {
            drain_lines(lines.drop_first(), buf)
        } else {
            let buf2 = if line_content_of(l) is Some && line_content_of(l)->0.len() > 0 {
                buf + line_content_of(l)->0
            } else {
                buf
            };
            if line_done_of(l) {
                (buf2, true)
            } else {
                drain_lines(lines.drop_first(), buf2)
            }
        }
    }
}

/// What one raw fragment does to the in-progress buffer: the lines of
/// the fragment folded into it, and whether a completion marker was met.
pub open spec fn drain_chunk_spec(chunk: Seq<char>, buf: Seq<char>) -> (Seq<char>, bool) {
    drain_lines(split_lines_spec(chunk), buf)
}

/// Folds one raw fragment into the in-progress buffer; yields true when
/// the fragment carried a completion marker, ignoring what follows it.
pub fn drain_chunk(chunk: &str, buf: &mut String) -> (done: bool)
    ensures
        final(buf)@ == drain_chunk_spec(chunk@, old(buf)@).0,
        done == drain_chunk_spec(chunk@, old(buf)@).1,
{
    let lines = split_lines(chunk);
    let n = lines.len();
    let mut i: usize = 0;
    proof {
        assert(strings_view(lines@).skip(0) =~= strings_view(lines@));
    }
    while i < n
        invariant
            i <= n == lines@.len(),
            strings_view(lines@) == split_lines_spec(chunk@),
            drain_lines(strings_view(lines@), old(buf)@) == drain_lines(
                strings_view(lines@).skip(i as int),
                buf@,
            ),
        decreases n - i,
    {
        let ghost rest = strings_view(lines@).skip(i as int);
        let ghost buf0 = buf@;
        proof {
            assert(rest[0] == lines@[i as int]@);
            assert(rest.drop_first() =~= strings_view(lines@).skip(i as int + 1));
        }
        let line = trim_string(lines[i].as_str());
        proof {
            assert(line@ == trim_spec(rest[0]));
        }
        if !line.as_str().is_empty() {
            match stream_line_content(line.as_str()) {
                Some(content) => {
                    if !content.as_str().is_empty() {
                        buf.append(content.as_str());
                    }
                },
                None => {},
            }
            proof {
                let l = trim_spec(rest[0]);
                if line_content_of(l) is Some && line_content_of(l)->0.len() > 0 {
                    assert(buf@ == buf0 + line_content_of(l)->0);
                } else {
                    assert(buf@ == buf0);
                }
            }
            if stream_line_done(line.as_str()) {
                proof {
                    assert(drain_lines(rest, buf0).0 == buf@);
                    assert(drain_lines(rest, buf0).1 == true);
                }
                return true;
            }
            proof {
                assert(drain_lines(rest, buf0) == drain_lines(rest.drop_first(), buf@));
            }
        } else {
            proof {
                assert(drain_lines(rest, buf0) == drain_lines(rest.drop_first(), buf@));
            }
        }
        i = i + 1;
    }
    proof {
        assert(strings_view(lines@).skip(n as int) =~= Seq::<Seq<char>>::empty());
    }
    false
}

} // verus!
