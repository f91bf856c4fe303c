//! Decimal formatting and parsing.
//!
//! The sandbox command line takes time limits as decimal seconds while the
//! worker stores them in milliseconds, and the sandbox meta-file reports times
//! as decimal seconds that the worker turns back into milliseconds. Both
//! directions are implemented here over exact decimal semantics.
//!
//! The accepted grammar is plain decimal with an optional leading plus sign:
//! digits, and for seconds one optional point. The sandbox writes exactly
//! this form. Exponent notation, infinities and signed times, which a
//! general float parser would also take, are deliberately outside the
//! grammar; a meta line carrying them fails the parse and surfaces as an
//! unknown error for that run.

use vstd::prelude::*;
use vstd::string::*;

verus! {

/// The decimal digit character for a value below ten.
pub open spec fn digit_char(d: nat) -> char {
    if d == 0 {
        '0'
    } else if d == 1 {
        '1'
    } else if d == 2 {
        '2'
    } else if d == 3 {
        '3'
    } else if d == 4 {
        '4'
    } else if d == 5 {
        '5'
    } else if d == 6 {
        '6'
    } else if d == 7 {
        '7'
    } else if d == 8 {
        '8'
    } else {
        '9'
    }
}

/// The usual decimal rendering of a natural number, without leading zeros
/// (a single zero for the value zero).
pub open spec fn dec_digits(n: nat) -> Seq<char>
    decreases n,
{
    if n < 10 {
        seq![digit_char(n)]
    } else {
        dec_digits(n / 10).push(digit_char(n % 10))
    }
}

fn digit_str(d: u64) -> (r: &'static str)
    requires
        d < 10,
    ensures
        r@ == seq![digit_char(d as nat)],
{
    proof {
        reveal_strlit("0");
        reveal_strlit("1");
        reveal_strlit("2");
        reveal_strlit("3");
        reveal_strlit("4");
        reveal_strlit("5");
        reveal_strlit("6");
        reveal_strlit("7");
        reveal_strlit("8");
        reveal_strlit("9");
    }
    if d == 0 {
        "0"
    } else if d == 1 {
        "1"
    } else if d == 2 {
        "2"
    } else if d == 3 {
        "3"
    } else if d == 4 {
        "4"
    } else if d == 5 {
        "5"
    } else if d == 6 {
        "6"
    } else if d == 7 {
        "7"
    } else if d == 8 {
        "8"
    } else {
        "9"
    }
}

/// Render a number in decimal.
pub fn u64_to_string(n: u64) -> (r: String)
    ensures
        r@ == dec_digits(n as nat),
    decreases n,
{
    if n < 10 {
        digit_str(n).to_owned()
    } else {
        let mut s = u64_to_string(n / 10);
        s.append(digit_str(n % 10));
        proof {
            assert(s@ == dec_digits((n / 10) as nat).push(digit_char((n % 10) as nat)));
        }
        s
    }
}

/// The fractional digits of a millisecond remainder, up to three digits with
/// trailing zeros stripped.
pub open spec fn frac_digits(f: nat) -> Seq<char> {
    let h = f / 100;
    let t = (f / 10) % 10;
    let u = f % 10;
    if u != 0 {
        seq![digit_char(h), digit_char(t), digit_char(u)]
    } else if t != 0 {
        seq![digit_char(h), digit_char(t)]
    } else {
        seq![digit_char(h)]
    }
}

/// The decimal seconds string for a millisecond count: the whole seconds,
/// then a point and the stripped fractional digits when a remainder is left.
pub open spec fn secs_string(ms: nat) -> Seq<char> {
    if ms % 1000 == 0 {
        dec_digits(ms / 1000)
    } else {
        dec_digits(ms / 1000) + seq!['.'] + frac_digits(ms % 1000)
    }
}

/// Render a millisecond count as the decimal seconds argument handed to the
/// sandbox.
pub fn seconds_arg(ms: u64) -> (r: String)
    ensures
        r@ == secs_string(ms as nat),
{
    let q = ms / 1000;
    let f = ms % 1000;
    let mut s = u64_to_string(q);
    if f != 0 {
        proof {
            reveal_strlit(".");
        }
        s.append(".");
        let h = f / 100;
        let t = (f / 10) % 10;
        let u = f % 10;
        if u != 0 {
            s.append(digit_str(h));
            s.append(digit_str(t));
            s.append(digit_str(u));
        } else if t != 0 {
            s.append(digit_str(h));
            s.append(digit_str(t));
        } else {
            s.append(digit_str(h));
        }
        proof {
            assert(s@ =~= secs_string(ms as nat));
        }
    }
    s
}

/// Whether a byte is an ASCII decimal digit.
pub open spec fn is_dec_byte(b: u8) -> bool {
    0x30 <= b <= 0x39
}

/// Whether every byte of a sequence is an ASCII decimal digit.
pub open spec fn is_dec_digits(s: Seq<u8>) -> bool {
    forall|i: int| 0 <= i < s.len() ==> is_dec_byte(#[trigger] s[i])
}

/// The value of a sequence of ASCII decimal digits.
pub open spec fn dec_val(s: Seq<u8>) -> nat
    decreases s.len(),
{
    if s.len() == 0 {
        0
    } else {
        dec_val(s.drop_last()) * 10 + (if s.last() >= 0x30 {
            (s.last() - 0x30) as nat
        } else {
            0
        })
    }
}

/// A longer digit prefix never has a smaller value.
proof fn lemma_dec_val_prefix_mono(s: Seq<u8>, i: int, j: int)
    requires
        0 <= i <= j <= s.len(),
    ensures
        dec_val(s.take(i)) <= dec_val(s.take(j)),
    decreases j - i,
{
    if i < j {
        lemma_dec_val_prefix_mono(s, i, j - 1);
        assert(s.take(j).drop_last() =~= s.take(j - 1));
        assert(dec_val(s.take(j - 1)) <= dec_val(s.take(j))) by (nonlinear_arith)
            requires
                dec_val(s.take(j)) == dec_val(s.take(j - 1)) * 10 + (if s.take(j).last() >= 0x30 {
                    (s.take(j).last() - 0x30) as nat
                } else {
                    0
                }),
        ;
    } else {
        assert(s.take(i) =~= s.take(j));
    }
}

/// What parsing a bare digit string returns: defined exactly when the bytes
/// are one or more digits whose value fits.
pub open spec fn spec_parse_digits_u64(s: Seq<u8>) -> Option<u64> {
    if s.len() > 0 && is_dec_digits(s) && dec_val(s) <= u64::MAX {
        Some(dec_val(s) as u64)
    } else {
        None
    }
}

/// What parsing an unsigned decimal returns: an optional leading plus sign,
/// then digits.
pub open spec fn spec_parse_u64(s: Seq<u8>) -> Option<u64> {
    if s.len() > 0 && s[0] == 0x2b {
        spec_parse_digits_u64(s.skip(1))
    } else {
        spec_parse_digits_u64(s)
    }
}

/// Parse a bare digit string.
fn parse_digits_u64(bs: &[u8]) -> (r: Option<u64>)
    ensures
        r == spec_parse_digits_u64(bs@),
{
    let n = bs.len();
    if n == 0 {
        return None;
    }
    let mut acc: u64 = 0;
    let mut i: usize = 0;
    while i < n
        invariant
            0 < n == bs@.len(),
            0 <= i <= n,
            is_dec_digits(bs@.take(i as int)),
            acc == dec_val(bs@.take(i as int)),
        decreases n - i,
    {
        let b = *vstd::slice::slice_index_get(bs, i);
        if b < 0x30 || b > 0x39 {
            return None;
        }
        let d = (b - 0x30) as u64;
        let acc10 = match acc.checked_mul(10) {
            Some(v) => v,
            None => {
                proof {
                    assert(bs@.take(i as int + 1).drop_last() =~= bs@.take(i as int));
                    assert(dec_val(bs@.take(i as int + 1)) > u64::MAX);
                    lemma_dec_val_prefix_mono(bs@, i as int + 1, bs@.len() as int);
                    assert(bs@.take(bs@.len() as int) =~= bs@);
                }
                return None;
            },
        };
        let acc2 = match acc10.checked_add(d) {
            Some(v) => v,
            None => {
                proof {
                    assert(bs@.take(i as int + 1).drop_last() =~= bs@.take(i as int));
                    assert(dec_val(bs@.take(i as int + 1)) > u64::MAX);
                    lemma_dec_val_prefix_mono(bs@, i as int + 1, bs@.len() as int);
                    assert(bs@.take(bs@.len() as int) =~= bs@);
                }
                return None;
            },
        };
        proof {
            assert(bs@.take(i as int + 1).drop_last() =~= bs@.take(i as int));
            assert(bs@.take(i as int + 1).last() == bs@[i as int]);
        }
        acc = acc2;
        i = i + 1;
    }
    proof {
        assert(bs@.take(n as int) =~= bs@);
    }
    Some(acc)
}

/// Parse an unsigned decimal number.
pub fn parse_u64(bs: &[u8]) -> (r: Option<u64>)
    ensures
        r == spec_parse_u64(bs@),
{
    let n = bs.len();
    if n > 0 && *vstd::slice::slice_index_get(bs, 0) == 0x2b {
        parse_digits_u64(vstd::slice::slice_subrange(bs, 1, n))
    } else {
        parse_digits_u64(bs)
    }
}

/// What parsing a signed decimal returns: an optional leading minus or plus
/// sign, then one or more digits whose value fits a 32-bit signed integer.
pub open spec fn spec_parse_i32(s: Seq<u8>) -> Option<i32> {
    if s.len() > 0 && s[0] == 0x2d {
        let digits = s.skip(1);
        if digits.len() > 0 && is_dec_digits(digits) && dec_val(digits) <= 0x8000_0000 {
            Some((-(dec_val(digits) as int)) as i32)
        } else {
            None
        }
    } else {
        let digits = if s.len() > 0 && s[0] == 0x2b {
            s.skip(1)
        } else {
            s
        };
        if digits.len() > 0 && is_dec_digits(digits) && dec_val(digits) <= 0x7fff_ffff {
            Some(dec_val(digits) as i32)
        } else {
            None
        }
    }
}

/// Parse a signed decimal number.
pub fn parse_i32(bs: &[u8]) -> (r: Option<i32>)
    ensures
        r == spec_parse_i32(bs@),
{
    let n = bs.len();
    if n == 0 {
        return None;
    }
    let first = *vstd::slice::slice_index_get(bs, 0);
    if first == 0x2d {
        let digits = vstd::slice::slice_subrange(bs, 1, n);
        match parse_digits_u64(digits) {
            Some(v) => {
                if v <= 0x8000_0000 {
                    Some((-(v as i64)) as i32)
                } else {
                    None
                }
            },
            None => None,
        }
    } else {
        let digits = if first == 0x2b {
            vstd::slice::slice_subrange(bs, 1, n)
        } else {
            bs
        };
        match parse_digits_u64(digits) {
            Some(v) => {
                if v <= 0x7fff_ffff {
                    Some(v as i32)
                } else {
                    None
                }
            },
            None => None,
        }
    }
}

/// The first position of a given byte, if any.
pub open spec fn find_byte(s: Seq<u8>, b: u8) -> Option<int>
    decreases s.len(),
{
    if s.len() == 0 {
        None
    } else if s[0] == b {
        Some(0)
    } else {
        match find_byte(s.skip(1), b) {
            Some(k) => Some(k + 1),
            None => None,
        }
    }
}

/// The first position of a point byte, if any.
pub open spec fn find_dot(s: Seq<u8>) -> Option<int> {
    find_byte(s, 0x2e)
}

/// Ten to a small power.
pub open spec fn pow10(e: nat) -> nat
    decreases e,
{
    if e == 0 {
        1
    } else {
        10 * pow10((e - 1) as nat)
    }
}

/// The millisecond value of a fractional-second digit string: the first three
/// digits scaled to milliseconds, further digits truncated.
pub open spec fn frac_ms(s: Seq<u8>) -> nat {
    if s.len() >= 3 {
        dec_val(s.take(3))
    } else {
        dec_val(s) * pow10((3 - s.len()) as nat)
    }
}

/// What parsing an unsigned decimal seconds string as milliseconds returns:
/// digits with at most one point, at least one digit in all, truncated to
/// millisecond precision; defined only when the result fits.
pub open spec fn spec_parse_secs_ms_unsigned(s: Seq<u8>) -> Option<u64> {
    match find_dot(s) {
        None => {
            if s.len() > 0 && is_dec_digits(s) && dec_val(s) * 1000 <= u64::MAX {
                Some((dec_val(s) * 1000) as u64)
            } else {
                None
            }
        },
        Some(k) => {
            let whole = s.take(k);
            let frac = s.skip(k + 1);
            if (whole.len() > 0 || frac.len() > 0) && is_dec_digits(whole) && is_dec_digits(frac)
                && dec_val(whole) * 1000 + frac_ms(frac) <= u64::MAX {
                Some((dec_val(whole) * 1000 + frac_ms(frac)) as u64)
            } else {
                None
            }
        },
    }
}

/// What parsing a decimal seconds string as milliseconds returns: an
/// optional leading plus sign, then the unsigned grammar.
pub open spec fn spec_parse_secs_ms(s: Seq<u8>) -> Option<u64> {
    if s.len() > 0 && s[0] == 0x2b {
        spec_parse_secs_ms_unsigned(s.skip(1))
    } else {
        spec_parse_secs_ms_unsigned(s)
    }
}

/// The first powers of ten.
proof fn lemma_pow10_small()
    ensures
        pow10(0) == 1,
        pow10(1) == 10,
        pow10(2) == 100,
        pow10(3) == 1000,
{
    assert(pow10(0) == 1);
    assert(pow10(1) == 10);
    assert(pow10(2) == 100);
    assert(pow10(3) == 1000);
}

/// Find the first occurrence of a byte in a slice.
pub fn find_byte_exec(bs: &[u8], b: u8) -> (r: Option<usize>)
    ensures
        match r {
            Some(k) => find_byte(bs@, b) == Some(k as int),
            None => find_byte(bs@, b) is None,
        },
{
    let n = bs.len();
    let mut i: usize = 0;
    while i < n
        invariant
            0 <= i <= n == bs@.len(),
            forall|j: int| 0 <= j < i ==> bs@[j] != b,
        decreases n - i,
    {
        if *vstd::slice::slice_index_get(bs, i) == b {
            proof {
                lemma_find_byte_skip(bs@, b, i as int);
                assert(bs@.skip(i as int)[0] == bs@[i as int]);
            }
            return Some(i);
        }
        i = i + 1;
    }
    proof {
        lemma_find_byte_skip(bs@, b, n as int);
        assert(bs@.skip(n as int).len() == 0);
    }
    None
}

/// Relates the first occurrence in a whole sequence to the first occurrence
/// in a suffix that starts before any occurrence.
pub proof fn lemma_find_byte_skip(s: Seq<u8>, b: u8, i: int)
    requires
        0 <= i <= s.len(),
        forall|j: int| 0 <= j < i ==> s[j] != b,
    ensures
        find_byte(s, b) == match find_byte(s.skip(i), b) {
            Some(k) => Some(k + i),
            None => None::<int>,
        },
    decreases i,
{
    if i > 0 {
        assert(s.skip(1).skip(i - 1) =~= s.skip(i));
        lemma_find_byte_skip(s.skip(1), b, i - 1);
        assert(s[0] != b);
    } else {
        assert(s.skip(0) =~= s);
    }
}

/// Parse an unsigned decimal seconds string into milliseconds.
fn parse_secs_ms_unsigned(bs: &[u8]) -> (r: Option<u64>)
    ensures
        r == spec_parse_secs_ms_unsigned(bs@),
{
    let n = bs.len();
    match find_byte_exec(bs, 0x2e) {
        None => {
            match parse_digits_u64(bs) {
                Some(v) => {
                    match v.checked_mul(1000) {
                        Some(ms) => Some(ms),
                        None => None,
                    }
                },
                None => {
                    proof {
                        if bs@.len() > 0 && is_dec_digits(bs@) {
                            assert(dec_val(bs@) > u64::MAX);
                            assert(dec_val(bs@) * 1000 >= dec_val(bs@)) by (nonlinear_arith);
                        }
                    }
                    None
                },
            }
        },
        Some(k) => {
            proof {
                lemma_find_byte_in_range(bs@, 0x2e);
            }
            let whole = vstd::slice::slice_subrange(bs, 0, k);
            let frac = vstd::slice::slice_subrange(bs, k + 1, n);
            proof {
                assert(whole@ =~= bs@.take(k as int));
                assert(frac@ =~= bs@.skip(k as int + 1));
            }
            if whole.len() == 0 && frac.len() == 0 {
                return None;
            }
            let whole_val: u64 = if whole.len() == 0 {
                0
            } else {
                match parse_digits_u64(whole) {
                    Some(v) => v,
                    None => {
                        proof {
                            if is_dec_digits(whole@) {
                                assert(dec_val(whole@) > u64::MAX);
                                assert(dec_val(whole@) * 1000 >= dec_val(whole@))
                                    by (nonlinear_arith);
                            }
                        }
                        return None;
                    },
                }
            };
            let f = match frac_ms_exec(frac) {
                Some(f) => f,
                None => {
                    return None;
                },
            };
            match whole_val.checked_mul(1000) {
                Some(w1000) => {
                    match w1000.checked_add(f) {
                        Some(ms) => Some(ms),
                        None => None,
                    }
                },
                None => None,
            }
        },
    }
}

/// Parse a decimal seconds string into milliseconds.
pub fn parse_secs_ms(bs: &[u8]) -> (r: Option<u64>)
    ensures
        r == spec_parse_secs_ms(bs@),
{
    let n = bs.len();
    if n > 0 && *vstd::slice::slice_index_get(bs, 0) == 0x2b {
        parse_secs_ms_unsigned(vstd::slice::slice_subrange(bs, 1, n))
    } else {
        parse_secs_ms_unsigned(bs)
    }
}

/// A found byte lies inside the sequence.
pub proof fn lemma_find_byte_in_range(s: Seq<u8>, b: u8)
    ensures
        find_byte(s, b) matches Some(k) ==> 0 <= k < s.len() && s[k] == b,
    decreases s.len(),
{
    if s.len() > 0 && s[0] != b {
        lemma_find_byte_in_range(s.skip(1), b);
    }
}

/// Parse a fractional-second digit string into milliseconds.
fn frac_ms_exec(bs: &[u8]) -> (r: Option<u64>)
    ensures
        match r {
            Some(f) => is_dec_digits(bs@) && f == frac_ms(bs@) && f <= 999,
            None => !is_dec_digits(bs@),
        },
{
    let n = bs.len();
    let m = if n >= 3 {
        3
    } else {
        n
    };
    let head = vstd::slice::slice_subrange(bs, 0, m);
    let mut i: usize = m;
    while i < n
        invariant
            m <= i <= n == bs@.len(),
            forall|j: int| m <= j < i ==> is_dec_byte(#[trigger] bs@[j]),
        decreases n - i,
    {
        let b = *vstd::slice::slice_index_get(bs, i);
        if b < 0x30 || b > 0x39 {
            return None;
        }
        i = i + 1;
    }
    if m == 0 {
        proof {
            lemma_pow10_small();
            assert(bs@.len() == 0);
            assert(dec_val(bs@) == 0);
        }
        return Some(0);
    }
    proof {
        assert(head@ =~= bs@.take(m as int));
        lemma_pow10_small();
    }
    match parse_digits_u64(head) {
        Some(v) => {
            proof {
                lemma_dec_val_bound(head@);
                assert(forall|j: int| 0 <= j < bs@.len() ==> is_dec_byte(#[trigger] bs@[j]))
                    by {
                    assert(forall|j: int|
                        0 <= j < m ==> bs@.take(m as int)[j] == #[trigger] bs@[j]);
                };
                if n >= 3 {
                    assert(head@ =~= bs@.take(3));
                } else {
                    assert(head@ =~= bs@);
                }
            }
            if n >= 3 {
                Some(v)
            } else if n == 1 {
                Some(v * 100)
            } else {
                Some(v * 10)
            }
        },
        None => {
            proof {
                if is_dec_digits(head@) {
                    lemma_dec_val_bound(head@);
                }
                assert(!is_dec_digits(head@));
                let j = choose|j: int| 0 <= j < head@.len() && !is_dec_byte(#[trigger] head@[j]);
                assert(head@[j] == bs@[j]);
            }
            None
        },
    }
}

/// A digit string of bounded length has a bounded value.
proof fn lemma_dec_val_bound(s: Seq<u8>)
    requires
        is_dec_digits(s),
    ensures
        dec_val(s) < pow10(s.len() as nat),
    decreases s.len(),
{
    if s.len() == 0 {
    } else {
        assert(is_dec_digits(s.drop_last())) by {
            assert(forall|i: int|
                0 <= i < s.len() - 1 ==> s.drop_last()[i] == #[trigger] s[i]);
        };
        lemma_dec_val_bound(s.drop_last());
        assert(dec_val(s.drop_last()) * 10 + 9 < pow10(s.len() as nat)) by (nonlinear_arith)
            requires
                dec_val(s.drop_last()) < pow10((s.len() - 1) as nat),
                pow10(s.len() as nat) == 10 * pow10((s.len() - 1) as nat),
        ;
    }
}

} // verus!
