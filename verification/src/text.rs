//! Character-level text utilities shared by the extractor, the stream
//! assembler and the formatting helpers: whitespace trimming, line
//! splitting, and conversions between strings and character vectors.

use vstd::prelude::*;
use vstd::string::StrSliceExecFns;
use vstd::string::StringExecFns;

verus! {

/// ASCII whitespace: the characters the protocol grammar and the
/// trimming helpers treat as blank.
pub open spec fn is_ws_char(c: char) -> bool {
    c == ' ' || c == '\t' || c == '\n' || c == '\r' || c == '\x0b' || c == '\x0c'
}

/// Executable mirror of [`is_ws_char`].
pub fn ws_char(c: char) -> (r: bool)
    ensures
        r == is_ws_char(c),
{
    c == ' ' || c == '\t' || c == '\n' || c == '\r' || c == '\x0b' || c == '\x0c'
}

/// The string with leading and trailing ASCII whitespace removed.
pub open spec fn trim_spec(s: Seq<char>) -> Seq<char>
    decreases s.len(),
{
    if s.len() == 0 {
        s
    } else if is_ws_char(s[0]) {
        trim_spec(s.drop_first())
    } else if is_ws_char(s.last()) {
        trim_spec(s.drop_last())
    } else {
        s
    }
}

/// A subrange whose outside is all whitespace and whose ends are not
/// whitespace is exactly the trimmed string.
proof fn lemma_trim_bounds(s: Seq<char>, lo: int, hi: int)
    requires
        0 <= lo <= hi <= s.len(),
        forall|k: int| 0 <= k < lo ==> is_ws_char(s[k]),
        forall|k: int| hi <= k < s.len() ==> is_ws_char(s[k]),
        lo < hi ==> !is_ws_char(s[lo]) && !is_ws_char(s[hi - 1]),
        lo == hi ==> forall|k: int| 0 <= k < s.len() ==> is_ws_char(s[k]),
    ensures
        trim_spec(s) == s.subrange(lo, hi),
    decreases s.len(),
{
    if s.len() == 0 {
        assert(trim_spec(s) =~= s.subrange(lo, hi));
    } else if is_ws_char(s[0]) {
        let t = s.drop_first();
        if lo == hi {
            lemma_trim_bounds(t, 0, 0);
            assert(trim_spec(s) =~= s.subrange(lo, hi));
        } else {
            assert(lo >= 1);
            lemma_trim_bounds(t, lo - 1, hi - 1);
            assert(t.subrange(lo - 1, hi - 1) =~= s.subrange(lo, hi));
        }
    } else if is_ws_char(s.last()) {
        let t = s.drop_last();
        assert(lo < hi ==> hi <= s.len() - 1) by {
            if lo < hi && hi == s.len() {
                assert(!is_ws_char(s[hi - 1]));
            }
        }
        if lo == hi {
            assert(is_ws_char(s[0]));
            assert(false);
        } else {
            lemma_trim_bounds(t, lo, hi);
            assert(t.subrange(lo, hi) =~= s.subrange(lo, hi));
        }
    } else {
        assert(lo == 0) by {
            if lo > 0 {
                assert(is_ws_char(s[0]));
            }
        }
        assert(hi == s.len()) by {
            if hi < s.len() {
                assert(is_ws_char(s.last()));
            }
        }
        assert(lo < hi);
        assert(trim_spec(s) =~= s.subrange(lo, hi));
    }
}

/// Trimming the subrange `[cs, ce)` yields `[lo, hi)` when everything
/// outside `[lo, hi)` but inside `[cs, ce)` is whitespace and the ends
/// of `[lo, hi)` are not.
pub proof fn lemma_trim_subrange(s: Seq<char>, cs: int, ce: int, lo: int, hi: int)
    requires
        0 <= cs <= lo <= hi <= ce <= s.len(),
        forall|k: int| cs <= k < lo ==> is_ws_char(s[k]),
        forall|k: int| hi <= k < ce ==> is_ws_char(s[k]),
        lo < hi ==> !is_ws_char(s[lo]) && !is_ws_char(s[hi - 1]),
        lo == hi ==> forall|k: int| cs <= k < ce ==> is_ws_char(s[k]),
    ensures
        trim_spec(s.subrange(cs, ce)) == s.subrange(lo, hi),
{
    let sub = s.subrange(cs, ce);
    lemma_trim_bounds(sub, lo - cs, hi - cs);
    assert(sub.subrange(lo - cs, hi - cs) =~= s.subrange(lo, hi));
}

/// Appends one character to a string.
///
/// Relies on `String::push`, which appends the given `char` to the end
/// of the string.
#[verifier::external_body]
pub fn push_char(s: &mut String, c: char)
    ensures
        final(s)@ == old(s)@.push(c),
{
    s.push(c);
}

/// Collects the characters of a string slice into a vector, so that the
/// grammar scanners can address the text by character index.
pub fn str_to_chars(s: &str) -> (r: Vec<char>)
    ensures
        r@ == s@,
{
    let n = s.unicode_len();
    let mut r: Vec<char> = Vec::new();
    let mut i: usize = 0;
    while i < n
        invariant
            n == s@.len(),
            i <= n,
            r@ == s@.take(i as int),
        decreases n - i,
    {
        r.push(s.get_char(i));
        i = i + 1;
        proof {
            assert(r@ =~= s@.take(i as int));
        }
    }
    proof {
        assert(r@ =~= s@);
    }
    r
}

/// Builds a string out of the characters `v[from..to]`.
pub fn chars_to_string(v: &Vec<char>, from: usize, to: usize) -> (r: String)
    requires
        from <= to <= v@.len(),
    ensures
        r@ == v@.subrange(from as int, to as int),
{
    let mut r = String::new();
    let mut i: usize = from;
    while i < to
        invariant
            from <= i <= to <= v@.len(),
            r@ == v@.subrange(from as int, i as int),
        decreases to - i,
    {
        push_char(&mut r, v[i]);
        i = i + 1;
        proof {
            assert(r@ =~= v@.subrange(from as int, i as int));
        }
    }
    r
}

/// The string with leading and trailing ASCII whitespace removed.
pub fn trim_string(s: &str) -> (r: String)
    ensures
        r@ == trim_spec(s@),
{
    let cs = str_to_chars(s);
    let n = cs.len();
    let mut lo: usize = 0;
    while lo < n && ws_char(cs[lo])
        invariant
            lo <= n == cs@.len(),
            forall|k: int| 0 <= k < lo ==> is_ws_char(cs@[k]),
        decreases n - lo,
    {
        lo = lo + 1;
    }
    let mut hi: usize = n;
    while hi > lo && ws_char(cs[hi - 1])
        invariant
            lo <= hi <= n == cs@.len(),
            forall|k: int| 0 <= k < lo ==> is_ws_char(cs@[k]),
            forall|k: int| hi <= k < n ==> is_ws_char(cs@[k]),
        decreases hi,
    {
        hi = hi - 1;
    }
    proof {
        lemma_trim_bounds(cs@, lo as int, hi as int);
    }
    chars_to_string(&cs, lo, hi)
}

/// Inserts a character at character position `i`.
pub fn insert_char_at(s: &mut String, i: usize, c: char)
    requires
        i <= old(s)@.len(),
    ensures
        final(s)@ == old(s)@.insert(i as int, c),
{
    let cs = str_to_chars(s.as_str());
    let mut r = chars_to_string(&cs, 0, i);
    push_char(&mut r, c);
    let tail = chars_to_string(&cs, i, cs.len());
    r.append(tail.as_str());
    proof {
        assert(r@ =~= old(s)@.insert(i as int, c));
    }
    *s = r;
}

/// Removes the character at character position `i`.
pub fn remove_char_at(s: &mut String, i: usize)
    requires
        i < old(s)@.len(),
    ensures
        final(s)@ == old(s)@.remove(i as int),
{
    let cs = str_to_chars(s.as_str());
    let n = cs.len();
    let mut r = chars_to_string(&cs, 0, i);
    let tail = chars_to_string(&cs, i + 1, n);
    r.append(tail.as_str());
    proof {
        assert(r@ =~= old(s)@.remove(i as int));
    }
    *s = r;
}

/// The segments of `s` delimited by newline characters, with `cur` as
/// the line already begun; every segment is kept, including empty ones
/// and the final segment after the last newline.
pub open spec fn split_lines_rec(s: Seq<char>, cur: Seq<char>) -> Seq<Seq<char>>
    decreases s.len(),
{
    if s.len() == 0 {
        seq![cur]
    } else if s[0] == '\n' {
        seq![cur] + split_lines_rec(s.drop_first(), Seq::empty())
    } else {
        split_lines_rec(s.drop_first(), cur.push(s[0]))
    }
}

/// The newline-delimited segments of `s`.
pub open spec fn split_lines_spec(s: Seq<char>) -> Seq<Seq<char>> {
    split_lines_rec(s, Seq::empty())
}

/// The views of the strings in `v`.
pub open spec fn strings_view(v: Seq<String>) -> Seq<Seq<char>> {
    v.map_values(|x: String| x@)
}

/// Splits a string into its newline-delimited segments.
pub fn split_lines(s: &str) -> (r: Vec<String>)
    ensures
        strings_view(r@) == split_lines_spec(s@),
{
    let cs = str_to_chars(s);
    let n = cs.len();
    let mut out: Vec<String> = Vec::new();
    let mut cur = String::new();
    let mut i: usize = 0;
    proof {
        assert(cs@.skip(0) =~= cs@);
        assert(strings_view(out@) + split_lines_rec(cs@, cur@) =~= split_lines_rec(cs@, cur@));
    }
    while i < n
        invariant
            i <= n == cs@.len(),
            split_lines_spec(cs@) == strings_view(out@) + split_lines_rec(
                cs@.skip(i as int),
                cur@,
            ),
        decreases n - i,
    {
        let ghost pre_out = out@;
        let ghost pre_cur = cur@;
        let c = cs[i];
        proof {
            assert(cs@.skip(i as int)[0] == cs@[i as int]);
            assert(cs@.skip(i as int).drop_first() =~= cs@.skip(i as int + 1));
        }
        if c == '\n' {
            out.push(cur);
            cur = String::new();
            proof {
                assert(strings_view(out@) =~= strings_view(pre_out).push(pre_cur));
                assert(split_lines_rec(cs@.skip(i as int), pre_cur) == seq![pre_cur]
                    + split_lines_rec(cs@.skip(i as int + 1), Seq::empty()));
                assert(strings_view(pre_out) + (seq![pre_cur] + split_lines_rec(
                    cs@.skip(i as int + 1),
                    Seq::empty(),
                )) =~= strings_view(out@) + split_lines_rec(cs@.skip(i as int + 1), Seq::empty()));
            }
        } else {
            push_char(&mut cur, c);
        }
        i = i + 1;
    }
    proof {
        assert(cs@.skip(n as int) =~= Seq::<char>::empty());
        assert(split_lines_rec(cs@.skip(n as int), cur@) == seq![cur@]);
    }
    out.push(cur);
    proof {
        let ghost pre_out = out@.drop_last();
        assert(strings_view(out@) =~= strings_view(pre_out).push(out@.last()@));
        assert(strings_view(out@) =~= split_lines_spec(cs@));
    }
    out
}

} // verus!
