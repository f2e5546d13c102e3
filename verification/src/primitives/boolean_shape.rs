use vstd::prelude::*;
use vstd::string::*;

use crate::{BooleanOperation, Error};

verus! {

/// Whether `c` is a Unicode `White_Space` character: the set that
/// `char::is_whitespace`, and so `str::trim`, strips.
pub open spec fn is_white_space(c: char) -> bool {
    let u = c as u32;
    ||| 0x09 <= u <= 0x0d
    ||| u == 0x20
    ||| u == 0x85
    ||| u == 0xa0
    ||| u == 0x1680
    ||| 0x2000 <= u <= 0x200a
    ||| u == 0x2028
    ||| u == 0x2029
    ||| u == 0x202f
    ||| u == 0x205f
    ||| u == 0x3000
}

/// `s` without its leading white space.
pub open spec fn trim_start(s: Seq<char>) -> Seq<char>
    decreases s.len(),
{
    if s.len() > 0 && is_white_space(s[0]) {
        trim_start(s.drop_first())
    } else {
        s
    }
}

/// `s` without its trailing white space.
pub open spec fn trim_end(s: Seq<char>) -> Seq<char>
    decreases s.len(),
{
    if s.len() > 0 && is_white_space(s.last()) {
        trim_end(s.drop_last())
    } else {
        s
    }
}

/// `s` without leading and trailing white space.
pub open spec fn trim(s: Seq<char>) -> Seq<char> {
    trim_end(trim_start(s))
}

/// What `non_empty` gives for a report: the trimmed text, unless nothing is left.
pub open spec fn spec_non_empty(report: Seq<char>) -> Option<Seq<char>> {
    if trim(report).len() == 0 {
        None
    } else {
        Some(trim(report))
    }
}

fn is_white_space_char(c: char) -> (b: bool)
    ensures
        b == is_white_space(c),
{
    let u = c as u32;
    (0x09 <= u && u <= 0x0d) || u == 0x20 || u == 0x85 || u == 0xa0 || u == 0x1680 || (0x2000
        <= u && u <= 0x200a) || u == 0x2028 || u == 0x2029 || u == 0x202f || u == 0x205f || u
        == 0x3000
}

proof fn lemma_trim_start(s: Seq<char>) -> (a: int)
    ensures
        0 <= a <= s.len(),
        trim_start(s) == s.subrange(a, s.len() as int),
        forall|k: int| 0 <= k < a ==> is_white_space(#[trigger] s[k]),
        a < s.len() ==> !is_white_space(s[a]),
    decreases s.len(),
{
    if s.len() > 0 && is_white_space(s[0]) {
        let rest = s.drop_first();
        let a1 = lemma_trim_start(rest);
        assert(rest.subrange(a1, rest.len() as int) =~= s.subrange(a1 + 1, s.len() as int));
        assert forall|k: int| 0 <= k < a1 + 1 implies is_white_space(#[trigger] s[k]) by {
            if k > 0 {
                assert(s[k] == rest[k - 1]);
            }
        }
        if a1 + 1 < s.len() {
            assert(s[a1 + 1] == rest[a1]);
        }
        a1 + 1
    } else {
        assert(s.subrange(0, s.len() as int) =~= s);
        0
    }
}

proof fn lemma_trim_end(s: Seq<char>) -> (b: int)
    ensures
        0 <= b <= s.len(),
        trim_end(s) == s.subrange(0, b),
        forall|k: int| b <= k < s.len() ==> is_white_space(#[trigger] s[k]),
        b > 0 ==> !is_white_space(s[b - 1]),
    decreases s.len(),
{
    if s.len() > 0 && is_white_space(s.last()) {
        let rest = s.drop_last();
        let b1 = lemma_trim_end(rest);
        assert(rest.subrange(0, b1) =~= s.subrange(0, b1));
        assert forall|k: int| b1 <= k < s.len() implies is_white_space(#[trigger] s[k]) by {
            if k < s.len() - 1 {
                assert(s[k] == rest[k]);
            }
        }
        if b1 > 0 {
            assert(s[b1 - 1] == rest[b1 - 1]);
        }
        b1
    } else {
        assert(s.subrange(0, s.len() as int) =~= s);
        s.len() as int
    }
}

/// Trimming keeps the middle of the text whole: the trimmed report is the
/// stretch of the input from its first to its last character that is not
/// white space (inner white space and line breaks included), everything
/// before and after that stretch is white space, and the stretch is empty
/// only when the whole input is white space.
pub proof fn trim_keeps_the_middle(s: Seq<char>) -> (bounds: (int, int))
    ensures
        0 <= bounds.0 <= bounds.1 <= s.len(),
        trim(s) == s.subrange(bounds.0, bounds.1),
        forall|k: int| 0 <= k < bounds.0 ==> is_white_space(#[trigger] s[k]),
        forall|k: int| bounds.1 <= k < s.len() ==> is_white_space(#[trigger] s[k]),
        bounds.0 < bounds.1 ==> !is_white_space(s[bounds.0]) && !is_white_space(s[bounds.1 - 1]),
        bounds.0 == bounds.1 ==> forall|k: int| 0 <= k < s.len() ==> is_white_space(#[trigger] s[k]),
{
    let a = lemma_trim_start(s);
    let mid = s.subrange(a, s.len() as int);
    let b = lemma_trim_end(mid);
    assert(mid.subrange(0, b) =~= s.subrange(a, a + b));
    assert forall|k: int| a + b <= k < s.len() implies is_white_space(#[trigger] s[k]) by {
        assert(s[k] == mid[k - a]);
    }
    if b > 0 {
        assert(s[a + b - 1] == mid[b - 1]);
    }
    if b == 0 && a < s.len() {
        assert(s[a] == mid[0]);
    }
    (a, a + b)
}

/// An algorithm report with its surrounding white space removed, or `None`
/// when nothing but white space was reported.
pub fn non_empty(report: String) -> (r: Option<String>)
    ensures
        r is Some <==> trim(report@).len() > 0,
        r matches Some(t) ==> t@ == trim(report@),
{
    let s: &str = report.as_str();
    let n: usize = s.unicode_len();
    let mut i: usize = 0;
    assert(s@.subrange(0, n as int) =~= s@);
    while i < n && is_white_space_char(s.get_char(i))
        invariant
            n == s@.len(),
            i <= n,
            trim_start(s@) == trim_start(s@.subrange(i as int, n as int)),
        decreases n - i,
    {
        assert(s@.subrange(i as int, n as int).drop_first() =~= s@.subrange(
            i + 1,
            n as int,
        ));
        i = i + 1;
    }
    assert(trim_start(s@) =~= s@.subrange(i as int, n as int));
    let mut j: usize = n;
    while j > i && is_white_space_char(s.get_char(j - 1))
        invariant
            n == s@.len(),
            i <= j <= n,
            trim(s@) == trim_end(s@.subrange(i as int, j as int)),
        decreases j,
    {
        assert(s@.subrange(i as int, j as int).drop_last() =~= s@.subrange(
            i as int,
            j - 1,
        ));
        j = j - 1;
    }
    assert(trim(s@) =~= s@.subrange(i as int, j as int));
    if i < j {
        let t: &str = s.substring_char(i, j);
        Some(t.to_owned())
    } else {
        None
    }
}

/// What a boolean operation gives back once the algorithm has run: when it
/// could not complete, the failure with the algorithm's error report; else
/// its warning report, unless the report is blank (see [`non_empty`]).
pub fn boolean_outcome(
    operation: BooleanOperation,
    is_done: bool,
    errors: String,
    warnings: String,
) -> (r: Result<Option<String>, Error>)
    ensures
        !is_done ==> (r matches Err(Error::BooleanFailed(op, e)) && op == operation && e@ == errors@),
        is_done ==> (r matches Ok(w) && (w is Some <==> trim(warnings@).len() > 0) && (w matches Some(
            t,
        ) ==> t@ == trim(warnings@))),
{
    if !is_done {
        return Err(Error::BooleanFailed(operation, errors));
    }
    Ok(non_empty(warnings))
}

} // verus!
