//! Byte-level encoders and decoders.
//!
//! Fixed-width big-endian integers, length-prefixed byte strings and
//! length-prefixed texts. Every decoder is exact over its encoder: the
//! round-trip lemmas below are what the cache and the wire framing rest on.

use vstd::prelude::*;
use vstd::string::*;
use vstd::utf8::{decode_utf8, encode_utf8, encode_utf8_decode_utf8, valid_utf8};

verus! {

/// The big-endian bytes of a 32-bit integer.
pub open spec fn spec_enc_u32(v: u32) -> Seq<u8> {
    seq![(v >> 24) as u8, (v >> 16) as u8, (v >> 8) as u8, v as u8]
}

/// The 32-bit integer of four big-endian bytes.
pub open spec fn spec_u32_of_be(b0: u8, b1: u8, b2: u8, b3: u8) -> u32 {
    ((b0 as u32) << 24) | ((b1 as u32) << 16) | ((b2 as u32) << 8) | (b3 as u32)
}

/// Reassembling the bytes of a 32-bit integer restores it.
pub proof fn lemma_u32_roundtrip(v: u32)
    ensures
        spec_u32_of_be((v >> 24) as u8, (v >> 16) as u8, (v >> 8) as u8, v as u8) == v,
{
    assert((((v >> 24) as u8) as u32) << 24 | (((v >> 16) as u8) as u32) << 16 | (((v >> 8) as u8)
        as u32) << 8 | ((v as u8) as u32) == v) by (bit_vector);
}

/// Four bytes are restored by encoding the integer they assemble to.
pub proof fn lemma_u32_of_be_inverse(b0: u8, b1: u8, b2: u8, b3: u8)
    ensures
        spec_enc_u32(spec_u32_of_be(b0, b1, b2, b3)) == seq![b0, b1, b2, b3],
{
    assert({
        let w = ((b0 as u32) << 24) | ((b1 as u32) << 16) | ((b2 as u32) << 8) | (b3 as u32);
        (w >> 24) as u8 == b0 && (w >> 16) as u8 == b1 && (w >> 8) as u8 == b2 && w as u8 == b3
    }) by (bit_vector);
    assert(spec_enc_u32(spec_u32_of_be(b0, b1, b2, b3)) =~= seq![b0, b1, b2, b3]);
}

/// The big-endian bytes of a 64-bit integer.
pub open spec fn spec_enc_u64(v: u64) -> Seq<u8> {
    seq![
        (v >> 56) as u8,
        (v >> 48) as u8,
        (v >> 40) as u8,
        (v >> 32) as u8,
        (v >> 24) as u8,
        (v >> 16) as u8,
        (v >> 8) as u8,
        v as u8,
    ]
}

/// The 64-bit integer of eight big-endian bytes.
pub open spec fn spec_u64_of_be(b: Seq<u8>) -> u64 {
    ((b[0] as u64) << 56) | ((b[1] as u64) << 48) | ((b[2] as u64) << 40) | ((b[3] as u64) << 32)
        | ((b[4] as u64) << 24) | ((b[5] as u64) << 16) | ((b[6] as u64) << 8) | (b[7] as u64)
}

/// Eight bytes are restored by encoding the integer they assemble to.
pub proof fn lemma_u64_of_be_inverse(b: Seq<u8>)
    requires
        b.len() == 8,
    ensures
        spec_enc_u64(spec_u64_of_be(b)) == b,
{
    let b0 = b[0];
    let b1 = b[1];
    let b2 = b[2];
    let b3 = b[3];
    let b4 = b[4];
    let b5 = b[5];
    let b6 = b[6];
    let b7 = b[7];
    let v = spec_u64_of_be(b);
    assert(v == ((b0 as u64) << 56) | ((b1 as u64) << 48) | ((b2 as u64) << 40) | ((b3 as u64)
        << 32) | ((b4 as u64) << 24) | ((b5 as u64) << 16) | ((b6 as u64) << 8) | (b7 as u64));
    assert({
        let w = ((b0 as u64) << 56) | ((b1 as u64) << 48) | ((b2 as u64) << 40) | ((b3 as u64)
            << 32) | ((b4 as u64) << 24) | ((b5 as u64) << 16) | ((b6 as u64) << 8) | (b7 as u64);
        (w >> 56) as u8 == b0 && (w >> 48) as u8 == b1 && (w >> 40) as u8 == b2 && (w >> 32) as u8
            == b3 && (w >> 24) as u8 == b4 && (w >> 16) as u8 == b5 && (w >> 8) as u8 == b6 && w
            as u8 == b7
    }) by (bit_vector);
    assert(spec_enc_u64(v) =~= b);
}

/// Reassembling the bytes of a 64-bit integer restores it.
pub proof fn lemma_u64_roundtrip(v: u64)
    ensures
        spec_u64_of_be(spec_enc_u64(v)) == v,
{
    assert((((v >> 56) as u8) as u64) << 56 | (((v >> 48) as u8) as u64) << 48 | (((v >> 40) as u8)
        as u64) << 40 | (((v >> 32) as u8) as u64) << 32 | (((v >> 24) as u8) as u64) << 24 | (((v
        >> 16) as u8) as u64) << 16 | (((v >> 8) as u8) as u64) << 8 | ((v as u8) as u64) == v)
        by (bit_vector);
}

/// The big-endian bytes of a 128-bit integer: its high and low halves.
pub open spec fn spec_enc_u128(v: u128) -> Seq<u8> {
    spec_enc_u64((v >> 64) as u64) + spec_enc_u64(v as u64)
}

/// The 128-bit integer of its high and low 64-bit halves.
pub open spec fn spec_u128_of_halves(hi: u64, lo: u64) -> u128 {
    ((hi as u128) << 64) | (lo as u128)
}

/// What reading a 32-bit integer at a position yields: the integer of the
/// four bytes there, or nothing when they are missing.
pub open spec fn spec_read_u32(bs: Seq<u8>, pos: int) -> Option<(u32, int)> {
    if 0 <= pos && pos + 4 <= bs.len() {
        Some((spec_u32_of_be(bs[pos], bs[pos + 1], bs[pos + 2], bs[pos + 3]), pos + 4))
    } else {
        None
    }
}

/// What reading a 64-bit integer at a position yields.
pub open spec fn spec_read_u64(bs: Seq<u8>, pos: int) -> Option<(u64, int)> {
    if 0 <= pos && pos + 8 <= bs.len() {
        Some((spec_u64_of_be(bs.subrange(pos, pos + 8)), pos + 8))
    } else {
        None
    }
}

/// What reading a 128-bit integer at a position yields.
pub open spec fn spec_read_u128(bs: Seq<u8>, pos: int) -> Option<(u128, int)> {
    if 0 <= pos && pos + 16 <= bs.len() {
        Some(
            (
                spec_u128_of_halves(
                    spec_u64_of_be(bs.subrange(pos, pos + 8)),
                    spec_u64_of_be(bs.subrange(pos + 8, pos + 16)),
                ),
                pos + 16,
            ),
        )
    } else {
        None
    }
}

/// What reading a length-prefixed byte string at a position yields.
pub open spec fn spec_read_bytes(bs: Seq<u8>, pos: int) -> Option<(Seq<u8>, int)> {
    match spec_read_u64(bs, pos) {
        Some((l, p)) => {
            if p + l <= bs.len() {
                Some((bs.subrange(p, p + l), p + l))
            } else {
                None
            }
        },
        None => None,
    }
}

/// What reading a length-prefixed text at a position yields: the decoded
/// characters, provided the bytes are valid UTF-8.
pub open spec fn spec_read_text(bs: Seq<u8>, pos: int) -> Option<(Seq<char>, int)> {
    match spec_read_bytes(bs, pos) {
        Some((b, p)) => {
            if valid_utf8(b) {
                Some((decode_utf8(b), p))
            } else {
                None
            }
        },
        None => None,
    }
}

/// Append the big-endian bytes of a 32-bit integer.
pub fn push_u32(out: &mut Vec<u8>, v: u32)
    ensures
        final(out)@ == old(out)@ + spec_enc_u32(v),
{
    out.push(#[verifier::truncate] ((v >> 24) as u8));
    out.push(#[verifier::truncate] ((v >> 16) as u8));
    out.push(#[verifier::truncate] ((v >> 8) as u8));
    out.push(#[verifier::truncate] (v as u8));
    proof {
        assert(out@ =~= old(out)@ + spec_enc_u32(v));
    }
}

/// Append the big-endian bytes of a 64-bit integer.
pub fn push_u64(out: &mut Vec<u8>, v: u64)
    ensures
        final(out)@ == old(out)@ + spec_enc_u64(v),
{
    out.push(#[verifier::truncate] ((v >> 56) as u8));
    out.push(#[verifier::truncate] ((v >> 48) as u8));
    out.push(#[verifier::truncate] ((v >> 40) as u8));
    out.push(#[verifier::truncate] ((v >> 32) as u8));
    out.push(#[verifier::truncate] ((v >> 24) as u8));
    out.push(#[verifier::truncate] ((v >> 16) as u8));
    out.push(#[verifier::truncate] ((v >> 8) as u8));
    out.push(#[verifier::truncate] (v as u8));
    proof {
        assert(out@ =~= old(out)@ + spec_enc_u64(v));
    }
}

/// Append the big-endian bytes of a 128-bit integer.
pub fn push_u128(out: &mut Vec<u8>, v: u128)
    ensures
        final(out)@ == old(out)@ + spec_enc_u128(v),
{
    push_u64(out, #[verifier::truncate] ((v >> 64) as u64));
    push_u64(out, #[verifier::truncate] (v as u64));
    proof {
        assert(out@ =~= old(out)@ + spec_enc_u128(v));
    }
}

/// Read a 32-bit integer at a position; what it returns is the integer of
/// the four bytes there.
pub fn read_u32(bs: &[u8], pos: usize) -> (r: Option<(u32, usize)>)
    ensures
        match r {
            Some((v, p2)) => pos + 4 <= bs@.len() && p2 == pos + 4 && v == spec_u32_of_be(
                bs@[pos as int],
                bs@[pos as int + 1],
                bs@[pos as int + 2],
                bs@[pos as int + 3],
            ),
            None => pos + 4 > bs@.len(),
        },
{
    if pos >= bs.len() || bs.len() - pos < 4 {
        return None;
    }
    let b0 = *vstd::slice::slice_index_get(bs, pos);
    let b1 = *vstd::slice::slice_index_get(bs, pos + 1);
    let b2 = *vstd::slice::slice_index_get(bs, pos + 2);
    let b3 = *vstd::slice::slice_index_get(bs, pos + 3);
    let v = ((b0 as u32) << 24) | ((b1 as u32) << 16) | ((b2 as u32) << 8) | (b3 as u32);
    Some((v, pos + 4))
}

/// Read a 64-bit integer at a position; what it returns is the integer of
/// the eight bytes there.
pub fn read_u64(bs: &[u8], pos: usize) -> (r: Option<(u64, usize)>)
    ensures
        match r {
            Some((v, p2)) => pos + 8 <= bs@.len() && p2 == pos + 8 && v == spec_u64_of_be(
                bs@.subrange(pos as int, pos as int + 8),
            ),
            None => pos + 8 > bs@.len(),
        },
{
    if pos >= bs.len() || bs.len() - pos < 8 {
        return None;
    }
    let b0 = *vstd::slice::slice_index_get(bs, pos);
    let b1 = *vstd::slice::slice_index_get(bs, pos + 1);
    let b2 = *vstd::slice::slice_index_get(bs, pos + 2);
    let b3 = *vstd::slice::slice_index_get(bs, pos + 3);
    let b4 = *vstd::slice::slice_index_get(bs, pos + 4);
    let b5 = *vstd::slice::slice_index_get(bs, pos + 5);
    let b6 = *vstd::slice::slice_index_get(bs, pos + 6);
    let b7 = *vstd::slice::slice_index_get(bs, pos + 7);
    let v = ((b0 as u64) << 56) | ((b1 as u64) << 48) | ((b2 as u64) << 40) | ((b3 as u64) << 32)
        | ((b4 as u64) << 24) | ((b5 as u64) << 16) | ((b6 as u64) << 8) | (b7 as u64);
    proof {
        let sub = bs@.subrange(pos as int, pos as int + 8);
        assert(sub[0] == bs@[pos as int]);
        assert(sub[1] == bs@[pos as int + 1]);
        assert(sub[2] == bs@[pos as int + 2]);
        assert(sub[3] == bs@[pos as int + 3]);
        assert(sub[4] == bs@[pos as int + 4]);
        assert(sub[5] == bs@[pos as int + 5]);
        assert(sub[6] == bs@[pos as int + 6]);
        assert(sub[7] == bs@[pos as int + 7]);
    }
    Some((v, pos + 8))
}

/// Read a 128-bit integer at a position, as its two 64-bit halves.
pub fn read_u128(bs: &[u8], pos: usize) -> (r: Option<(u128, usize)>)
    ensures
        match r {
            Some((v, p2)) => pos + 16 <= bs@.len() && p2 == pos + 16 && v == spec_u128_of_halves(
                spec_u64_of_be(bs@.subrange(pos as int, pos as int + 8)),
                spec_u64_of_be(bs@.subrange(pos as int + 8, pos as int + 16)),
            ),
            None => pos + 16 > bs@.len(),
        },
{
    let (hi, p1) = match read_u64(bs, pos) {
        Some(x) => x,
        None => {
            return None;
        },
    };
    let (lo, p2) = match read_u64(bs, p1) {
        Some(x) => x,
        None => {
            return None;
        },
    };
    let v = ((hi as u128) << 64) | (lo as u128);
    Some((v, p2))
}

/// The length-prefixed encoding of a byte string.
pub open spec fn spec_enc_bytes(data: Seq<u8>) -> Seq<u8> {
    spec_enc_u64(data.len() as u64) + data
}

/// Append a length-prefixed byte string.
pub fn push_bytes(out: &mut Vec<u8>, data: &[u8])
    ensures
        final(out)@ == old(out)@ + spec_enc_bytes(data@),
{
    push_u64(out, #[verifier::truncate] (data.len() as u64));
    let mut i: usize = 0;
    let n = data.len();
    while i < n
        invariant
            0 <= i <= n == data@.len(),
            out@ == old(out)@ + spec_enc_u64(data@.len() as u64) + data@.take(i as int),
        decreases n - i,
    {
        out.push(*vstd::slice::slice_index_get(data, i));
        proof {
            assert(old(out)@ + spec_enc_u64(data@.len() as u64) + data@.take(i as int + 1) =~= (old(
                out,
            )@ + spec_enc_u64(data@.len() as u64) + data@.take(i as int)).push(data@[i as int]));
        }
        i = i + 1;
    }
    proof {
        assert(data@.take(n as int) =~= data@);
        assert(out@ =~= old(out)@ + spec_enc_bytes(data@));
    }
}

/// Read a length-prefixed byte string at a position.
pub fn read_bytes(bs: &[u8], pos: usize) -> (r: Option<(Vec<u8>, usize)>)
    ensures
        match r {
            Some((v, p2)) => pos + 8 <= bs@.len() && spec_u64_of_be(
                bs@.subrange(pos as int, pos as int + 8),
            ) == v@.len() && p2 == pos + 8 + v@.len() && p2 <= bs@.len() && v@ == bs@.subrange(
                pos as int + 8,
                p2 as int,
            ),
            None => true,
        },
        r is None ==> pos + 8 > bs@.len() || pos + 8 + spec_u64_of_be(
            bs@.subrange(pos as int, pos as int + 8),
        ) > bs@.len(),
{
    let (len64, p1) = match read_u64(bs, pos) {
        Some(x) => x,
        None => {
            return None;
        },
    };
    let n = bs.len();
    if len64 > (usize::MAX as u64) {
        proof {
            assert(bs@.len() == n <= usize::MAX);
        }
        return None;
    }
    let len = len64 as usize;
    if len > n - p1 {
        return None;
    }
    let sub = vstd::slice::slice_subrange(bs, p1, p1 + len);
    let v = vstd::slice::slice_to_vec(sub);
    Some((v, p1 + len))
}

/// Encoding then decoding a byte string at any position restores it.
pub proof fn lemma_bytes_roundtrip(prefix: Seq<u8>, data: Seq<u8>, suffix: Seq<u8>)
    requires
        data.len() <= u64::MAX,
    ensures
        ({
            let whole = prefix + spec_enc_bytes(data) + suffix;
            &&& whole.subrange(prefix.len() as int, prefix.len() as int + 8) == spec_enc_u64(
                data.len() as u64,
            )
            &&& whole.subrange(prefix.len() as int + 8, prefix.len() as int + 8 + data.len() as int) == data
        }),
{
    let whole = prefix + spec_enc_bytes(data) + suffix;
    assert(whole.subrange(prefix.len() as int, prefix.len() as int + 8) =~= spec_enc_u64(
        data.len() as u64,
    ));
    assert(whole.subrange(prefix.len() as int + 8, prefix.len() as int + 8 + data.len() as int) =~= data);
}


/// Read a 32-bit integer; the bytes consumed are its encoding.
pub fn read_enc_u32(bs: &[u8], pos: usize) -> (r: Option<(u32, usize)>)
    ensures
        match r {
            Some((v, p2)) => p2 == pos + 4 && p2 <= bs@.len() && bs@.subrange(pos as int, p2 as int)
                == spec_enc_u32(v) && spec_read_u32(bs@, pos as int) == Some((v, p2 as int)),
            None => pos + 4 > bs@.len() && spec_read_u32(bs@, pos as int) is None,
        },
{
    match read_u32(bs, pos) {
        Some((v, p2)) => {
            proof {
                lemma_u32_of_be_inverse(
                    bs@[pos as int],
                    bs@[pos as int + 1],
                    bs@[pos as int + 2],
                    bs@[pos as int + 3],
                );
                assert(bs@.subrange(pos as int, pos as int + 4) =~= seq![
                    bs@[pos as int],
                    bs@[pos as int + 1],
                    bs@[pos as int + 2],
                    bs@[pos as int + 3],
                ]);
            }
            Some((v, p2))
        },
        None => None,
    }
}

/// Read a 64-bit integer; the bytes consumed are its encoding.
pub fn read_enc_u64(bs: &[u8], pos: usize) -> (r: Option<(u64, usize)>)
    ensures
        match r {
            Some((v, p2)) => p2 == pos + 8 && p2 <= bs@.len() && bs@.subrange(pos as int, p2 as int)
                == spec_enc_u64(v) && spec_read_u64(bs@, pos as int) == Some((v, p2 as int)),
            None => pos + 8 > bs@.len() && spec_read_u64(bs@, pos as int) is None,
        },
{
    match read_u64(bs, pos) {
        Some((v, p2)) => {
            proof {
                lemma_u64_of_be_inverse(bs@.subrange(pos as int, pos as int + 8));
            }
            Some((v, p2))
        },
        None => None,
    }
}

/// Read a 128-bit integer; the bytes consumed are its encoding.
pub fn read_enc_u128(bs: &[u8], pos: usize) -> (r: Option<(u128, usize)>)
    ensures
        match r {
            Some((v, p2)) => p2 == pos + 16 && p2 <= bs@.len() && bs@.subrange(
                pos as int,
                p2 as int,
            ) == spec_enc_u128(v) && spec_read_u128(bs@, pos as int) == Some((v, p2 as int)),
            None => pos + 16 > bs@.len() && spec_read_u128(bs@, pos as int) is None,
        },
{
    let (hi, p1) = match read_enc_u64(bs, pos) {
        Some(x) => x,
        None => {
            return None;
        },
    };
    let (lo, p2) = match read_enc_u64(bs, p1) {
        Some(x) => x,
        None => {
            return None;
        },
    };
    let v = ((hi as u128) << 64) | (lo as u128);
    proof {
        assert((((((hi as u128) << 64) | (lo as u128)) >> 64) as u64) == hi && ((((hi as u128)
            << 64) | (lo as u128)) as u64) == lo) by (bit_vector);
        assert(bs@.subrange(pos as int, p2 as int) =~= bs@.subrange(pos as int, p1 as int)
            + bs@.subrange(p1 as int, p2 as int));
        assert(bs@.subrange(pos as int, p2 as int) =~= spec_enc_u128(v));
    }
    Some((v, p2))
}

/// Read a length-prefixed byte string; the bytes consumed are its encoding.
pub fn read_pfx_bytes(bs: &[u8], pos: usize) -> (r: Option<(Vec<u8>, usize)>)
    ensures
        match r {
            Some((v, p2)) => pos + 8 <= p2 <= bs@.len() && bs@.subrange(pos as int, p2 as int)
                == spec_enc_bytes(v@) && p2 == pos + 8 + v@.len() && spec_read_bytes(
                bs@,
                pos as int,
            ) == Some((v@, p2 as int)),
            None => spec_read_bytes(bs@, pos as int) is None,
        },
{
    match read_bytes(bs, pos) {
        Some((v, p2)) => {
            proof {
                lemma_u64_of_be_inverse(bs@.subrange(pos as int, pos as int + 8));
                assert(bs@.subrange(pos as int, p2 as int) =~= bs@.subrange(
                    pos as int,
                    pos as int + 8,
                ) + bs@.subrange(pos as int + 8, p2 as int));
                assert(bs@.subrange(pos as int, p2 as int) =~= spec_enc_bytes(v@));
            }
            Some((v, p2))
        },
        None => None,
    }
}

/// Relies on `String::from_utf8`: succeeds exactly on valid UTF-8 and
/// returns the text whose UTF-8 encoding is the input.
#[verifier::external_body]
pub fn string_from_utf8(v: Vec<u8>) -> (r: Option<String>)
    ensures
        r matches Some(s) ==> encode_utf8(s@) == v@,
        r is Some <==> valid_utf8(v@),
{
    String::from_utf8(v).ok()
}

/// The length-prefixed encoding of a text in its UTF-8 bytes.
pub open spec fn spec_enc_text(s: Seq<char>) -> Seq<u8> {
    spec_enc_bytes(encode_utf8(s))
}

/// Append a length-prefixed text.
pub fn push_text(out: &mut Vec<u8>, s: &str)
    ensures
        final(out)@ == old(out)@ + spec_enc_text(s@),
{
    push_bytes(out, s.as_bytes());
}

/// Read a length-prefixed text; the bytes consumed are its encoding.
pub fn read_pfx_text(bs: &[u8], pos: usize) -> (r: Option<(String, usize)>)
    ensures
        match r {
            Some((v, p2)) => pos + 8 <= p2 <= bs@.len() && bs@.subrange(pos as int, p2 as int)
                == spec_enc_text(v@) && spec_read_text(bs@, pos as int) == Some((v@, p2 as int)),
            None => spec_read_text(bs@, pos as int) is None,
        },
{
    let (raw, p2) = match read_pfx_bytes(bs, pos) {
        Some(x) => x,
        None => {
            return None;
        },
    };
    let ghost raw_view = raw@;
    match string_from_utf8(raw) {
        Some(s) => {
            proof {
                assert(spec_enc_bytes(raw_view) =~= spec_enc_text(s@)) by {
                    assert(encode_utf8(s@) == raw_view);
                }
                encode_utf8_decode_utf8(s@);
            }
            Some((s, p2))
        },
        None => None,
    }
}

} // verus!
