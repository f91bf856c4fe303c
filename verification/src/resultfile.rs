//! Parsing of the checker's result file.
//!
//! The checker leaves a small declarative file behind: an `outcome` entry
//! and an optional `points` entry, each a basic quoted string on a line of
//! its own. The worker reads the score as the checker's own text; turning it
//! into a number is left to the wire edge. Strings with escapes are not
//! produced by checkers and are rejected.

use vstd::prelude::*;
use vstd::string::*;

verus! {

/// A checker's declared outcome and optional score text.
#[derive(Clone, Debug, PartialEq)]
pub struct ResultAppes {
    pub outcome: String,
    pub points: Option<String>,
}

/// Whether a character is line whitespace.
pub open spec fn is_ws_char(c: char) -> bool {
    c == ' ' || c == '\t' || c == '\r'
}

/// The first position of a given character, if any.
pub open spec fn find_char(s: Seq<char>, c: char) -> Option<int>
    decreases s.len(),
{
    if s.len() == 0 {
        None
    } else if s[0] == c {
        Some(0)
    } else {
        match find_char(s.skip(1), c) {
            Some(k) => Some(k + 1),
            None => None,
        }
    }
}

/// Relates the first occurrence in a whole sequence to the first occurrence
/// in a suffix that starts before any occurrence.
proof fn lemma_find_char_skip(s: Seq<char>, c: char, i: int)
    requires
        0 <= i <= s.len(),
        forall|j: int| 0 <= j < i ==> s[j] != c,
    ensures
        find_char(s, c) == match find_char(s.skip(i), c) {
            Some(k) => Some(k + i),
            None => None::<int>,
        },
    decreases i,
{
    if i > 0 {
        assert(s.skip(1).skip(i - 1) =~= s.skip(i));
        lemma_find_char_skip(s.skip(1), c, i - 1);
        assert(s[0] != c);
    } else {
        assert(s.skip(0) =~= s);
    }
}

/// A found character lies inside the sequence.
proof fn lemma_find_char_in_range(s: Seq<char>, c: char)
    ensures
        find_char(s, c) matches Some(k) ==> 0 <= k < s.len() && s[k] == c,
    decreases s.len(),
{
    if s.len() > 0 && s[0] != c {
        lemma_find_char_in_range(s.skip(1), c);
    }
}

/// Find the first occurrence of a character.
fn find_char_exec(s: &str, c: char) -> (r: Option<usize>)
    ensures
        match r {
            Some(k) => find_char(s@, c) == Some(k as int),
            None => find_char(s@, c) is None,
        },
{
    let n = s.unicode_len();
    let mut i: usize = 0;
    while i < n
        invariant
            0 <= i <= n == s@.len(),
            forall|j: int| 0 <= j < i ==> s@[j] != c,
        decreases n - i,
    {
        if s.get_char(i) == c {
            proof {
                lemma_find_char_skip(s@, c, i as int);
                assert(s@.skip(i as int)[0] == s@[i as int]);
            }
            return Some(i);
        }
        i = i + 1;
    }
    proof {
        lemma_find_char_skip(s@, c, n as int);
        assert(s@.skip(n as int).len() == 0);
    }
    None
}

/// How many whitespace characters the sequence starts with.
pub open spec fn ws_prefix_len(s: Seq<char>) -> int
    decreases s.len(),
{
    if s.len() > 0 && is_ws_char(s[0]) {
        1 + ws_prefix_len(s.skip(1))
    } else {
        0
    }
}

/// How many whitespace characters the sequence ends with.
pub open spec fn ws_suffix_len(s: Seq<char>) -> int
    decreases s.len(),
{
    if s.len() > 0 && is_ws_char(s.last()) {
        1 + ws_suffix_len(s.drop_last())
    } else {
        0
    }
}

/// The whitespace prefix stops at the first non-whitespace character.
proof fn lemma_ws_prefix(s: Seq<char>, i: int)
    requires
        0 <= i <= s.len(),
        forall|j: int| 0 <= j < i ==> is_ws_char(#[trigger] s[j]),
        i == s.len() || !is_ws_char(s[i]),
    ensures
        ws_prefix_len(s) == i,
    decreases i,
{
    if i > 0 {
        assert(s.skip(1).skip(i - 1) =~= s.skip(i));
        lemma_ws_prefix(s.skip(1), i - 1);
    } else {
        if s.len() > 0 {
            assert(!is_ws_char(s[0]));
        }
    }
}

/// The whitespace suffix stops at the last non-whitespace character.
proof fn lemma_ws_suffix(s: Seq<char>, i: int)
    requires
        0 <= i <= s.len(),
        forall|j: int| s.len() - i <= j < s.len() ==> is_ws_char(#[trigger] s[j]),
        i == s.len() || !is_ws_char(s[s.len() - i - 1]),
    ensures
        ws_suffix_len(s) == i,
    decreases i,
{
    if i > 0 {
        assert(is_ws_char(s[s.len() - 1]));
        assert(forall|j: int|
            s.len() - i <= j < s.len() - 1 ==> is_ws_char(#[trigger] s.drop_last()[j])) by {
            assert(forall|j: int|
                s.len() - i <= j < s.len() - 1 ==> s.drop_last()[j] == #[trigger] s[j]);
        };
        lemma_ws_suffix(s.drop_last(), i - 1);
    } else {
        if s.len() > 0 {
            assert(!is_ws_char(s.last()));
        }
    }
}

/// The sequence with its whitespace prefix and suffix removed.
pub open spec fn spec_trim(s: Seq<char>) -> Seq<char> {
    let rest = s.skip(ws_prefix_len(s));
    rest.take(rest.len() - ws_suffix_len(rest))
}

/// Remove leading and trailing whitespace.
fn trim_str<'a>(s: &'a str) -> (r: &'a str)
    ensures
        r@ == spec_trim(s@),
{
    let n = s.unicode_len();
    let mut lo: usize = 0;
    while lo < n
        invariant
            0 <= lo <= n == s@.len(),
            forall|j: int| 0 <= j < lo ==> is_ws_char(#[trigger] s@[j]),
        ensures
            0 <= lo <= n,
            forall|j: int| 0 <= j < lo ==> is_ws_char(#[trigger] s@[j]),
            lo == n || !is_ws_char(s@[lo as int]),
        decreases n - lo,
    {
        let c = s.get_char(lo);
        if !(c == ' ' || c == '\t' || c == '\r') {
            break ;
        }
        lo = lo + 1;
    }
    proof {
        lemma_ws_prefix(s@, lo as int);
    }
    let mut hi: usize = n;
    while hi > lo
        invariant
            lo <= hi <= n == s@.len(),
            forall|j: int| hi <= j < n ==> is_ws_char(#[trigger] s@[j]),
            ws_prefix_len(s@) == lo,
        ensures
            lo <= hi <= n,
            forall|j: int| hi <= j < n ==> is_ws_char(#[trigger] s@[j]),
            hi == lo || !is_ws_char(s@[hi as int - 1]),
        decreases hi,
    {
        let c = s.get_char(hi - 1);
        if !(c == ' ' || c == '\t' || c == '\r') {
            break ;
        }
        hi = hi - 1;
    }
    let r = s.substring_char(lo, hi);
    proof {
        let rest = s@.skip(lo as int);
        assert(forall|j: int|
            rest.len() - (n - hi) <= j < rest.len() ==> is_ws_char(#[trigger] rest[j])) by {
            assert(forall|j: int|
                hi <= j < n ==> rest[j - lo] == #[trigger] s@[j] && is_ws_char(s@[j]));
        };
        if hi > lo {
            assert(!is_ws_char(rest[hi - lo - 1]));
        }
        lemma_ws_suffix(rest, n as int - hi);
        assert(r@ =~= spec_trim(s@));
    }
    r
}

/// One parsed line of the result file.
pub enum ResultLine {
    Skip,
    Outcome(Seq<char>),
    Points(Seq<char>),
    Bad,
}

/// Whether a value is a basic quoted string without escapes.
pub open spec fn is_quoted(v: Seq<char>) -> bool {
    v.len() >= 2 && v[0] == '"' && v[v.len() - 1] == '"' && forall|i: int|
        1 <= i < v.len() - 1 ==> #[trigger] v[i] != '"' && v[i] != '\\'
}

/// What one line of the result file means: blank lines are skipped, a
/// recognized key yields its quoted value, an unknown key is ignored, and
/// anything else is malformed.
pub open spec fn spec_parse_result_line(line: Seq<char>) -> ResultLine {
    let t = spec_trim(line);
    if t.len() == 0 {
        ResultLine::Skip
    } else {
        match find_char(t, '=') {
            None => ResultLine::Bad,
            Some(e) => {
                let key = spec_trim(t.take(e));
                let val = spec_trim(t.skip(e + 1));
                if is_quoted(val) {
                    let inner = val.subrange(1, val.len() - 1);
                    if key == "outcome"@ {
                        ResultLine::Outcome(inner)
                    } else if key == "points"@ {
                        ResultLine::Points(inner)
                    } else {
                        ResultLine::Skip
                    }
                } else {
                    ResultLine::Bad
                }
            },
        }
    }
}

/// Fold the remaining lines of the result file; a repeated key or a
/// malformed line fails.
pub open spec fn spec_parse_result_rec(
    s: Seq<char>,
    outcome: Option<Seq<char>>,
    points: Option<Seq<char>>,
) -> Option<(Option<Seq<char>>, Option<Seq<char>>)>
    decreases s.len(),
    via spec_parse_result_rec_decreases
{
    if s.len() == 0 {
        Some((outcome, points))
    } else {
        let (line, rest) = match find_char(s, '\n') {
            Some(k) => (s.take(k), s.skip(k + 1)),
            None => (s, Seq::<char>::empty()),
        };
        match spec_parse_result_line(line) {
            ResultLine::Bad => None,
            ResultLine::Skip => spec_parse_result_rec(rest, outcome, points),
            ResultLine::Outcome(v) => {
                if outcome is Some {
                    None
                } else {
                    spec_parse_result_rec(rest, Some(v), points)
                }
            },
            ResultLine::Points(v) => {
                if points is Some {
                    None
                } else {
                    spec_parse_result_rec(rest, outcome, Some(v))
                }
            },
        }
    }
}

#[via_fn]
proof fn spec_parse_result_rec_decreases(
    s: Seq<char>,
    outcome: Option<Seq<char>>,
    points: Option<Seq<char>>,
) {
    lemma_find_char_in_range(s, '\n');
}

/// What parsing the whole result file returns: the outcome text and the
/// optional points text; the outcome entry must be present.
pub open spec fn spec_parse_result(s: Seq<char>) -> Option<(Seq<char>, Option<Seq<char>>)> {
    match spec_parse_result_rec(s, None, None) {
        None => None,
        Some((outcome, points)) => match outcome {
            Some(o) => Some((o, points)),
            None => None,
        },
    }
}

/// Parse one line.
fn parse_result_line(line: &str) -> (r: (u8, String))
    ensures
        r.0 == 0 ==> spec_parse_result_line(line@) is Skip,
        r.0 == 1 ==> (spec_parse_result_line(line@) matches ResultLine::Outcome(v) && r.1@ == v),
        r.0 == 2 ==> (spec_parse_result_line(line@) matches ResultLine::Points(v) && r.1@ == v),
        r.0 == 3 ==> spec_parse_result_line(line@) is Bad,
        r.0 <= 3,
{
    let t = trim_str(line);
    let tn = t.unicode_len();
    if tn == 0 {
        return (0, String::new());
    }
    let e = match find_char_exec(t, '=') {
        Some(e) => e,
        None => {
            return (3, String::new());
        },
    };
    proof {
        lemma_find_char_in_range(t@, '=');
    }
    let key_part = t.substring_char(0, e);
    let key = trim_str(key_part);
    let val_part = t.substring_char(e + 1, tn);
    let val = trim_str(val_part);
    proof {
        assert(key_part@ =~= t@.take(e as int));
        assert(val_part@ =~= t@.skip(e as int + 1));
    }
    let vn = val.unicode_len();
    if vn < 2 || val.get_char(0) != '"' || val.get_char(vn - 1) != '"' {
        proof {
            assert(!is_quoted(val@));
        }
        return (3, String::new());
    }
    let mut i: usize = 1;
    #[verifier::loop_isolation(false)]
    while i < vn - 1
        invariant
            1 <= i <= vn - 1,
            vn == val@.len(),
            vn >= 2,
            forall|j: int| 1 <= j < i ==> #[trigger] val@[j] != '"' && val@[j] != '\\',
        decreases vn - i,
    {
        let c = val.get_char(i);
        if c == '"' || c == '\\' {
            proof {
                assert(!is_quoted(val@));
            }
            return (3, String::new());
        }
        i = i + 1;
    }
    proof {
        assert(is_quoted(val@));
    }
    let inner = val.substring_char(1, vn - 1);
    let key_string = key.to_owned();
    proof {
        reveal_strlit("outcome");
        reveal_strlit("points");
    }
    if key_string == String::from_str("outcome") {
        (1, inner.to_owned())
    } else if key_string == String::from_str("points") {
        (2, inner.to_owned())
    } else {
        (0, String::new())
    }
}

/// Parse the checker's result file.
pub fn parse_result_file(s: &str) -> (r: Option<ResultAppes>)
    ensures
        r matches Some(ra) ==> (spec_parse_result(s@) matches Some(p) && ra.outcome@ == p.0
            && (match ra.points {
            Some(x) => p.1 == Some(x@),
            None => p.1 is None,
        })),
        r is Some <==> spec_parse_result(s@) is Some,
{
    let n = s.unicode_len();
    let mut outcome: Option<String> = None;
    let mut points: Option<String> = None;
    let mut pos: usize = 0;
    let ghost mut seen: (Option<Seq<char>>, Option<Seq<char>>) = (None, None);
    proof {
        assert(s@.skip(0) =~= s@);
    }
    while pos < n
        invariant
            0 <= pos <= n == s@.len(),
            spec_parse_result_rec(s@, None, None) == spec_parse_result_rec(
                s@.skip(pos as int),
                seen.0,
                seen.1,
            ),
            match outcome {
                Some(o) => seen.0 == Some(o@),
                None => seen.0 is None,
            },
            match points {
                Some(p) => seen.1 == Some(p@),
                None => seen.1 is None,
            },
        decreases n - pos,
    {
        let rest = s.substring_char(pos, n);
        proof {
            assert(rest@ =~= s@.skip(pos as int));
        }
        let (line, next) = match find_char_exec(rest, '\n') {
            Some(k) => {
                proof {
                    lemma_find_char_in_range(rest@, '\n');
                }
                (rest.substring_char(0, k), pos + k + 1)
            },
            None => (rest, n),
        };
        proof {
            if let Some(k) = find_char(rest@, '\n') {
                assert(line@ =~= rest@.take(k));
                assert(s@.skip(next as int) =~= rest@.skip(k + 1));
            } else {
                assert(s@.skip(n as int) =~= Seq::<char>::empty());
            }
        }
        let (tag, text) = parse_result_line(line);
        if tag == 3 {
            return None;
        } else if tag == 1 {
            if outcome.is_some() {
                return None;
            }
            proof {
                seen = (Some(text@), seen.1);
            }
            outcome = Some(text);
        } else if tag == 2 {
            if points.is_some() {
                return None;
            }
            proof {
                seen = (seen.0, Some(text@));
            }
            points = Some(text);
        }
        pos = next;
    }
    proof {
        assert(s@.skip(n as int).len() == 0);
    }
    match outcome {
        Some(o) => Some(ResultAppes { outcome: o, points }),
        None => None,
    }
}

} // verus!
