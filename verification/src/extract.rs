//! The tool-call extractor: scans assistant text for the first bracketed
//! directive of the form `[tool_call: NAME(ARG)]`, where `NAME` is
//! `read_file` or `read_directory` and `ARG` is a single quoted path,
//! optionally prefixed by `path=`. Matching is case-sensitive, tolerant
//! of surrounding prose, admits ASCII whitespace after the colon and
//! around the `=`, and forbids a newline inside the quoted argument.

use vstd::prelude::*;
use vstd::string::StrSliceExecFns;
use vstd::string::StringExecFns;

use crate::text::{is_ws_char, trim_spec, str_to_chars, chars_to_string, ws_char};
use crate::turn::{ToolCall, ToolCallV};

verus! {

/// The literal `l` occurs in `t` at position `i`.
pub open spec fn lit_matches_at(t: Seq<char>, i: int, l: Seq<char>) -> bool {
    &&& 0 <= i
    &&& i + l.len() <= t.len()
    &&& t.subrange(i, i + l.len()) == l
}

/// The first position at or after `i` holding a non-whitespace
/// character, or the end of the text.
pub open spec fn skip_ws_spec(t: Seq<char>, i: int) -> int
    recommends
        0 <= i <= t.len(),
    decreases t.len() - i,
{
    if 0 <= i && i < t.len() && is_ws_char(t[i]) {
        skip_ws_spec(t, i + 1)
    } else {
        i
    }
}

/// A quote character of the argument grammar.
pub open spec fn is_quote(c: char) -> bool {
    c == '\'' || c == '"'
}

/// The position of the closing quote: the first `m` at or after `s`
/// where a quote is followed by `)]`, provided no newline stands between
/// `s` and `m`.
pub open spec fn close_pos(t: Seq<char>, s: int) -> Option<int>
    recommends
        0 <= s,
    decreases t.len() - s,
{
    if s < 0 || s + 3 > t.len() {
        None
    } else if is_quote(t[s]) && t[s + 1] == ')' && t[s + 2] == ']' {
        Some(s)
    } else if t[s] == '\n' {
        None
    } else {
        close_pos(t, s + 1)
    }
}

/// The position of the argument's opening quote candidate: directly at
/// `a`, or after an optional `path =` prefix.
pub open spec fn arg_pos(t: Seq<char>, a: int) -> int {
    if lit_matches_at(t, a, "path"@) {
        let w = skip_ws_spec(t, a + "path"@.len());
        if w < t.len() && t[w] == '=' {
            skip_ws_spec(t, w + 1)
        } else {
            a
        }
    } else {
        a
    }
}

/// The remainder of a match after the tool name: an opening parenthesis
/// at `k`, the optional `path =` prefix, a quoted argument, and the
/// closing `)]`. Yields the tool kind and the argument's content bounds.
pub open spec fn match_after_name(t: Seq<char>, is_file: bool, k: int) -> Option<(bool, int, int)> {
    if !(0 <= k && k < t.len() && t[k] == '(') {
        None
    } else {
        let q = arg_pos(t, k + 1);
        if q < t.len() && is_quote(t[q]) {
            match close_pos(t, q + 1) {
                Some(m) => Some((is_file, q + 1, m)),
                None => None,
            }
        } else {
            None
        }
    }
}

/// A full directive starting at position `i`: `[tool_call:`, optional
/// whitespace, the tool name, and the argument. Yields the tool kind and
/// the argument's content bounds.
pub open spec fn match_at(t: Seq<char>, i: int) -> Option<(bool, int, int)> {
    if !lit_matches_at(t, i, "[tool_call:"@) {
        None
    } else {
        let j = skip_ws_spec(t, i + "[tool_call:"@.len());
        if lit_matches_at(t, j, "read_file"@) {
            match_after_name(t, true, j + "read_file"@.len())
        } else if lit_matches_at(t, j, "read_directory"@) {
            match_after_name(t, false, j + "read_directory"@.len())
        } else {
            None
        }
    }
}

/// The first directive at or after position `i`.
pub open spec fn first_match_from(t: Seq<char>, i: int) -> Option<(bool, int, int)>
    recommends
        0 <= i <= t.len(),
    decreases t.len() - i,
{
    if match_at(t, i) is Some {
        match_at(t, i)
    } else if i < 0 || i >= t.len() {
        None
    } else {
        first_match_from(t, i + 1)
    }
}

/// The first directive of the text: the tool kind and the trimmed path.
pub open spec fn extract_spec(t: Seq<char>) -> Option<(bool, Seq<char>)> {
    match first_match_from(t, 0) {
        Some((is_file, cs, ce)) => Some((is_file, trim_spec(t.subrange(cs, ce)))),
        None => None,
    }
}

/// The tool's name.
pub open spec fn tool_name(is_file: bool) -> Seq<char> {
    if is_file {
        "read_file"@
    } else {
        "read_directory"@
    }
}

/// The normalized re-serialization of a directive: `NAME("PATH")`.
pub open spec fn normalized_invocation(is_file: bool, path: Seq<char>) -> Seq<char> {
    tool_name(is_file) + "(\""@ + path + "\")"@
}

/// The structured call a directive denotes.
pub open spec fn extracted_tool_call(is_file: bool, path: Seq<char>) -> ToolCallV {
    if is_file {
        ToolCallV::ReadFile { path }
    } else {
        ToolCallV::ReadDirectory { path }
    }
}

/// Whether the literal `l` occurs in `t` at position `i`.
fn lit_at(t: &Vec<char>, i: usize, l: &str) -> (r: bool)
    ensures
        r == lit_matches_at(t@, i as int, l@),
{
    let tl = t.len();
    let ll = l.unicode_len();
    if i > tl || ll > tl - i {
        return false;
    }
    let mut j: usize = 0;
    while j < ll
        invariant
            i + ll <= tl,
            tl == t@.len(),
            ll == l@.len(),
            j <= ll,
            forall|k: int| 0 <= k < j ==> t@[i + k] == l@[k],
        decreases ll - j,
    {
        if t[i + j] != l.get_char(j) {
            proof {
                assert(t@.subrange(i as int, i + ll) != l@) by {
                    assert(t@.subrange(i as int, i + ll)[j as int] == t@[i + j]);
                }
            }
            return false;
        }
        j = j + 1;
    }
    proof {
        assert(t@.subrange(i as int, i + ll) =~= l@);
    }
    true
}

/// The first position at or after `i` holding a non-whitespace character.
fn skip_ws(t: &Vec<char>, i: usize) -> (r: usize)
    requires
        i <= t@.len(),
    ensures
        r == skip_ws_spec(t@, i as int),
        i <= r <= t@.len(),
{
    let mut j: usize = i;
    while j < t.len() && ws_char(t[j])
        invariant
            i <= j <= t@.len(),
            skip_ws_spec(t@, i as int) == skip_ws_spec(t@, j as int),
        decreases t@.len() - j,
    {
        j = j + 1;
    }
    j
}

/// The position of the closing quote at or after `s`, per [`close_pos`].
fn find_close(t: &Vec<char>, s: usize) -> (r: Option<usize>)
    requires
        s <= t@.len(),
    ensures
        match r {
            Some(m) => close_pos(t@, s as int) == Some(m as int) && s <= m && m + 3 <= t@.len(),
            None => close_pos(t@, s as int) is None,
        },
{
    let tl = t.len();
    let mut m: usize = s;
    loop
        invariant
            s <= m <= tl == t@.len(),
            close_pos(t@, s as int) == close_pos(t@, m as int),
        decreases tl - m,
    {
        if m >= tl || tl - m < 3 {
            return None;
        }
        let c = t[m];
        if (c == '\'' || c == '"') && t[m + 1] == ')' && t[m + 2] == ']' {
            return Some(m);
        }
        if c == '\n' {
            return None;
        }
        m = m + 1;
    }
}

/// Matches a full directive at position `i`, per [`match_at`].
fn match_at_exec(t: &Vec<char>, i: usize) -> (r: Option<(bool, usize, usize)>)
    requires
        i <= t@.len(),
    ensures
        match r {
            Some((is_file, cs, ce)) => match_at(t@, i as int) == Some(
                (is_file, cs as int, ce as int),
            ) && cs <= ce <= t@.len(),
            None => match_at(t@, i as int) is None,
        },
{
    let n = t.len();
    if !lit_at(t, i, "[tool_call:") {
        return None;
    }
    proof {
        assert(i + "[tool_call:"@.len() <= n);
    }
    let j = skip_ws(t, i + "[tool_call:".unicode_len());
    let (is_file, k) = if lit_at(t, j, "read_file") {
        (true, j + "read_file".unicode_len())
    } else if lit_at(t, j, "read_directory") {
        (false, j + "read_directory".unicode_len())
    } else {
        return None;
    };
    if !(k < t.len() && t[k] == '(') {
        return None;
    }
    // the optional `path =` prefix before the quoted argument
    let q = if lit_at(t, k + 1, "path") {
        let w = skip_ws(t, k + 1 + "path".unicode_len());
        if w < t.len() && t[w] == '=' {
            skip_ws(t, w + 1)
        } else {
            k + 1
        }
    } else {
        k + 1
    };
    proof {
        assert(q == arg_pos(t@, k + 1));
    }
    if !(q < t.len() && (t[q] == '\'' || t[q] == '"')) {
        return None;
    }
    match find_close(t, q + 1) {
        Some(m) => Some((is_file, q + 1, m)),
        None => None,
    }
}

/// Finds the first directive of the text, per [`first_match_from`].
fn first_match_exec(t: &Vec<char>) -> (r: Option<(bool, usize, usize)>)
    ensures
        match r {
            Some((is_file, cs, ce)) => first_match_from(t@, 0) == Some(
                (is_file, cs as int, ce as int),
            ) && cs <= ce <= t@.len(),
            None => first_match_from(t@, 0) is None,
        },
{
    let n = t.len();
    let mut i: usize = 0;
    loop
        invariant
            i <= n == t@.len(),
            first_match_from(t@, 0) == first_match_from(t@, i as int),
        decreases n - i,
    {
        match match_at_exec(t, i) {
            Some(m) => {
                return Some(m);
            },
            None => {
                if i >= n {
                    return None;
                }
                i = i + 1;
            },
        }
    }
}

/// Scans assistant text for its first tool directive. Yields the
/// structured call, whose path is the trimmed quoted argument, and the
/// normalized invocation text `NAME("PATH")`; yields nothing when no
/// directive occurs.
pub fn extract_tool_call(text: &str) -> (r: Option<(ToolCall, String)>)
    ensures
        r is Some <==> extract_spec(text@) is Some,
        r is Some ==> ({
            let q = r->0;
            let p = extract_spec(text@)->0;
            q.0@ == extracted_tool_call(p.0, p.1) && q.1@ == normalized_invocation(p.0, p.1)
        }),
{
    let t = str_to_chars(text);
    let (is_file, cs, ce) = match first_match_exec(&t) {
        Some(m) => m,
        None => {
            return None;
        },
    };
    // trim the quoted content to get the path
    let mut lo: usize = cs;
    while lo < ce && ws_char(t[lo])
        invariant
            cs <= lo <= ce <= t@.len(),
            forall|k: int| cs <= k < lo ==> is_ws_char(t@[k]),
        decreases ce - lo,
    {
        lo = lo + 1;
    }
    let mut hi: usize = ce;
    while hi > lo && ws_char(t[hi - 1])
        invariant
            cs <= lo <= hi <= ce <= t@.len(),
            forall|k: int| cs <= k < lo ==> is_ws_char(t@[k]),
            forall|k: int| hi <= k < ce ==> is_ws_char(t@[k]),
            lo < ce ==> !is_ws_char(t@[lo as int]),
        decreases hi,
    {
        hi = hi - 1;
    }
    let path = chars_to_string(&t, lo, hi);
    proof {
        crate::text::lemma_trim_subrange(t@, cs as int, ce as int, lo as int, hi as int);
        assert(path@ == trim_spec(t@.subrange(cs as int, ce as int)));
    }
    let call = if is_file {
        ToolCall::ReadFile { path: path.clone() }
    } else {
        ToolCall::ReadDirectory { path: path.clone() }
    };
    let mut inv: String = if is_file {
        String::from_str("read_file")
    } else {
        String::from_str("read_directory")
    };
    inv.append("(\"");
    inv.append(path.as_str());
    inv.append("\")");
    Some((call, inv))
}

} // verus!
