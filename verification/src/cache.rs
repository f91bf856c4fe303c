//! The grader-compile result cache.
//!
//! The cache keys a finished grader compile by the hash of the grader
//! archive and the hash of the user source, and stores the compile outcome
//! together with the raw bytes of the produced artifact. The record format
//! is the library's own: a tag byte for the outcome, the length-prefixed
//! message text, then the length-prefixed artifact bytes. Decoding is exact
//! over encoding, so a hit reproduces the artifact byte for byte. The cache
//! backend itself only moves opaque byte strings.

use vstd::prelude::*;
use vstd::string::*;
use vstd::utf8::{encode_utf8, valid_utf8, encode_utf8_valid_utf8, encode_utf8_decode_utf8};
use crate::bytecodec::{
    spec_enc_bytes, spec_enc_u64, spec_u64_of_be, push_bytes, read_bytes, string_from_utf8,
    lemma_u64_roundtrip, lemma_u64_of_be_inverse, lemma_bytes_roundtrip,
};
use crate::crypto::{digest_of, hash_bytes};
use crate::language::CompileResult;

verus! {

/// A cached grader compile: the outcome and the artifact's raw bytes.
#[derive(Clone, Debug)]
pub struct CacheGraderCompile {
    pub result: CompileResult,
    pub raw: Vec<u8>,
}

/// The tag byte of a compile outcome.
pub open spec fn spec_tag(r: CompileResult) -> u8 {
    match r {
        CompileResult::Success(_) => 0,
        CompileResult::Error(_) => 1,
    }
}

/// The message text of a compile outcome.
pub open spec fn spec_msg(r: CompileResult) -> Seq<char> {
    match r {
        CompileResult::Success(s) => s@,
        CompileResult::Error(s) => s@,
    }
}

/// The encoding of a cache record: tag, length-prefixed message text in its
/// UTF-8 bytes, length-prefixed artifact bytes.
pub open spec fn spec_enc_cache(tag: u8, msg: Seq<char>, raw: Seq<u8>) -> Seq<u8> {
    seq![tag] + spec_enc_bytes(encode_utf8(msg)) + spec_enc_bytes(raw)
}

/// The cache key of a grader compile: the grader archive's digest followed
/// by the digest of the user source.
pub fn grader_cache_key(grader_hash: &[u8], code: &[u8]) -> (r: Vec<u8>)
    requires
        grader_hash@.len() == 32,
    ensures
        r@ == grader_hash@ + digest_of(code@),
        r@.len() == 64,
{
    let code_hash = hash_bytes(code);
    let mut key = vstd::slice::slice_to_vec(grader_hash);
    let mut i: usize = 0;
    while i < code_hash.len()
        invariant
            0 <= i <= code_hash@.len(),
            key@ == grader_hash@ + code_hash@.take(i as int),
        decreases code_hash@.len() - i,
    {
        key.push(code_hash[i]);
        proof {
            assert(grader_hash@ + code_hash@.take(i as int + 1) =~= (grader_hash@
                + code_hash@.take(i as int)).push(code_hash@[i as int]));
        }
        i = i + 1;
    }
    proof {
        assert(code_hash@.take(code_hash@.len() as int) =~= code_hash@);
    }
    key
}

/// Encode a cache record.
pub fn make_cache_entry(result: &CompileResult, raw: &[u8]) -> (r: Vec<u8>)
    ensures
        r@ == spec_enc_cache(spec_tag(*result), spec_msg(*result), raw@),
{
    let mut out: Vec<u8> = Vec::new();
    match result {
        CompileResult::Success(s) => {
            out.push(0u8);
            push_bytes(&mut out, s.as_str().as_bytes());
        },
        CompileResult::Error(s) => {
            out.push(1u8);
            push_bytes(&mut out, s.as_str().as_bytes());
        },
    }
    push_bytes(&mut out, raw);
    proof {
        assert(out@ =~= spec_enc_cache(spec_tag(*result), spec_msg(*result), raw@));
    }
    out
}

/// Decode a cache record. Whatever it accepts is exactly the encoding of
/// what it returns, and it accepts every well-formed record, so a hit hands
/// back the stored outcome and the stored artifact bytes unchanged.
pub fn parse_cache_entry(bs: &[u8]) -> (r: Option<(CompileResult, Vec<u8>)>)
    ensures
        r matches Some((res, raw)) ==> bs@ == spec_enc_cache(spec_tag(res), spec_msg(res), raw@),
        forall|t: u8, m: Seq<char>, w: Seq<u8>|
            t <= 1 && encode_utf8(m).len() <= u64::MAX && w.len() <= u64::MAX && bs@
                == #[trigger] spec_enc_cache(t, m, w) ==> r is Some,
{
    let n = bs.len();
    if n < 1 {
        proof {
            assert forall|t: u8, m: Seq<char>, w: Seq<u8>|
                !(t <= 1 && encode_utf8(m).len() <= u64::MAX && w.len() <= u64::MAX && bs@
                    == #[trigger] spec_enc_cache(t, m, w)) by {
                assert(spec_enc_cache(t, m, w).len() >= 17);
            }
        }
        return None;
    }
    let tag = *vstd::slice::slice_index_get(bs, 0);
    if tag > 1 {
        proof {
            assert forall|t: u8, m: Seq<char>, w: Seq<u8>|
                !(t <= 1 && encode_utf8(m).len() <= u64::MAX && w.len() <= u64::MAX && bs@
                    == #[trigger] spec_enc_cache(t, m, w)) by {
                if bs@ == spec_enc_cache(t, m, w) {
                    assert(bs@[0] == t);
                }
            }
        }
        return None;
    }
    let (msg_bytes, p1) = match read_bytes(bs, 1) {
        Some(x) => x,
        None => {
            proof {
                assert forall|t: u8, m: Seq<char>, w: Seq<u8>|
                    !(t <= 1 && encode_utf8(m).len() <= u64::MAX && w.len() <= u64::MAX && bs@
                        == #[trigger] spec_enc_cache(t, m, w)) by {
                    if t <= 1 && encode_utf8(m).len() <= u64::MAX && w.len() <= u64::MAX && bs@
                        == spec_enc_cache(t, m, w) {
                        lemma_bytes_roundtrip(seq![t], encode_utf8(m), spec_enc_bytes(w));
                        assert(seq![t] + spec_enc_bytes(encode_utf8(m)) + spec_enc_bytes(w) =~= bs@);
                        lemma_u64_roundtrip(encode_utf8(m).len() as u64);
                        assert(spec_u64_of_be(bs@.subrange(1, 9)) == encode_utf8(m).len());
                        assert(1 + 8 + encode_utf8(m).len() <= bs@.len());
                    }
                }
            }
            return None;
        },
    };
    let msg = match string_from_utf8(msg_bytes) {
        Some(s) => s,
        None => {
            proof {
                assert forall|t: u8, m: Seq<char>, w: Seq<u8>|
                    !(t <= 1 && encode_utf8(m).len() <= u64::MAX && w.len() <= u64::MAX && bs@
                        == #[trigger] spec_enc_cache(t, m, w)) by {
                    if t <= 1 && encode_utf8(m).len() <= u64::MAX && w.len() <= u64::MAX && bs@
                        == spec_enc_cache(t, m, w) {
                        lemma_bytes_roundtrip(seq![t], encode_utf8(m), spec_enc_bytes(w));
                        assert(seq![t] + spec_enc_bytes(encode_utf8(m)) + spec_enc_bytes(w) =~= bs@);
                        lemma_u64_roundtrip(encode_utf8(m).len() as u64);
                        assert(encode_utf8(m) == bs@.subrange(9, 9 + encode_utf8(m).len() as int));
                        encode_utf8_valid_utf8(m);
                    }
                }
            }
            return None;
        },
    };
    let (raw, p2) = match read_bytes(bs, p1) {
        Some(x) => x,
        None => {
            proof {
                assert forall|t: u8, m: Seq<char>, w: Seq<u8>|
                    !(t <= 1 && encode_utf8(m).len() <= u64::MAX && w.len() <= u64::MAX && bs@
                        == #[trigger] spec_enc_cache(t, m, w)) by {
                    if t <= 1 && encode_utf8(m).len() <= u64::MAX && w.len() <= u64::MAX && bs@
                        == spec_enc_cache(t, m, w) {
                        lemma_bytes_roundtrip(seq![t], encode_utf8(m), spec_enc_bytes(w));
                        assert(seq![t] + spec_enc_bytes(encode_utf8(m)) + spec_enc_bytes(w) =~= bs@);
                        lemma_u64_roundtrip(encode_utf8(m).len() as u64);
                        assert(p1 == 9 + encode_utf8(m).len());
                        assert(bs@.subrange(p1 as int, p1 as int + 8) =~= spec_enc_u64(
                            w.len() as u64,
                        ));
                        lemma_u64_roundtrip(w.len() as u64);
                        assert(p1 + 8 + w.len() <= bs@.len());
                    }
                }
            }
            return None;
        },
    };
    if p2 != n {
        proof {
            assert forall|t: u8, m: Seq<char>, w: Seq<u8>|
                !(t <= 1 && encode_utf8(m).len() <= u64::MAX && w.len() <= u64::MAX && bs@
                    == #[trigger] spec_enc_cache(t, m, w)) by {
                if t <= 1 && encode_utf8(m).len() <= u64::MAX && w.len() <= u64::MAX && bs@
                    == spec_enc_cache(t, m, w) {
                    lemma_bytes_roundtrip(seq![t], encode_utf8(m), spec_enc_bytes(w));
                    assert(seq![t] + spec_enc_bytes(encode_utf8(m)) + spec_enc_bytes(w) =~= bs@);
                    lemma_u64_roundtrip(encode_utf8(m).len() as u64);
                    assert(p1 == 9 + encode_utf8(m).len());
                    assert(bs@.subrange(p1 as int, p1 as int + 8) =~= spec_enc_u64(w.len() as u64));
                    lemma_u64_roundtrip(w.len() as u64);
                    assert(p2 == p1 + 8 + w.len());
                    assert(bs@.len() == 1 + 8 + encode_utf8(m).len() + 8 + w.len());
                }
            }
        }
        return None;
    }
    let res = if tag == 0 {
        CompileResult::Success(msg)
    } else {
        CompileResult::Error(msg)
    };
    proof {
        let l1 = bs@.subrange(1, 9);
        lemma_u64_of_be_inverse(l1);
        assert(spec_enc_u64(msg_bytes@.len() as u64) == l1);
        let l2 = bs@.subrange(p1 as int, p1 as int + 8);
        lemma_u64_of_be_inverse(l2);
        assert(spec_enc_u64(raw@.len() as u64) == l2);
        assert(encode_utf8(spec_msg(res)) == msg_bytes@);
        assert(bs@ =~= seq![tag] + (spec_enc_u64(msg_bytes@.len() as u64) + msg_bytes@) + (
        spec_enc_u64(raw@.len() as u64) + raw@));
        assert(bs@ =~= spec_enc_cache(spec_tag(res), spec_msg(res), raw@));
    }
    Some((res, raw))
}

/// The record encoding is unambiguous: equal encodings carry the same tag,
/// the same message and, in particular, byte-identical artifact bytes.
pub proof fn lemma_cache_encoding_unambiguous(
    t1: u8,
    m1: Seq<char>,
    w1: Seq<u8>,
    t2: u8,
    m2: Seq<char>,
    w2: Seq<u8>,
)
    requires
        encode_utf8(m1).len() <= u64::MAX,
        w1.len() <= u64::MAX,
        encode_utf8(m2).len() <= u64::MAX,
        w2.len() <= u64::MAX,
        spec_enc_cache(t1, m1, w1) == spec_enc_cache(t2, m2, w2),
    ensures
        t1 == t2,
        m1 == m2,
        w1 == w2,
{
    let e1 = spec_enc_cache(t1, m1, w1);
    let e2 = spec_enc_cache(t2, m2, w2);
    assert(e1[0] == t1 && e2[0] == t2);
    lemma_bytes_roundtrip(seq![t1], encode_utf8(m1), spec_enc_bytes(w1));
    lemma_bytes_roundtrip(seq![t2], encode_utf8(m2), spec_enc_bytes(w2));
    assert(seq![t1] + spec_enc_bytes(encode_utf8(m1)) + spec_enc_bytes(w1) =~= e1);
    assert(seq![t2] + spec_enc_bytes(encode_utf8(m2)) + spec_enc_bytes(w2) =~= e2);
    lemma_u64_roundtrip(encode_utf8(m1).len() as u64);
    lemma_u64_roundtrip(encode_utf8(m2).len() as u64);
    assert(spec_u64_of_be(e1.subrange(1, 9)) == encode_utf8(m1).len());
    assert(spec_u64_of_be(e2.subrange(1, 9)) == encode_utf8(m2).len());
    assert(encode_utf8(m1) == e1.subrange(9, 9 + encode_utf8(m1).len() as int));
    assert(encode_utf8(m2) == e2.subrange(9, 9 + encode_utf8(m2).len() as int));
    assert(encode_utf8(m1) == encode_utf8(m2));
    encode_utf8_decode_utf8(m1);
    encode_utf8_decode_utf8(m2);
    let p = 9 + encode_utf8(m1).len() as int;
    assert(e1.subrange(p, p + 8) =~= spec_enc_u64(w1.len() as u64));
    assert(e2.subrange(p, p + 8) =~= spec_enc_u64(w2.len() as u64));
    lemma_u64_roundtrip(w1.len() as u64);
    lemma_u64_roundtrip(w2.len() as u64);
    assert(spec_u64_of_be(e1.subrange(p, p + 8)) == w1.len());
    assert(spec_u64_of_be(e2.subrange(p, p + 8)) == w2.len());
    assert(w1 =~= e1.subrange(p + 8, p + 8 + w1.len() as int));
    assert(w2 =~= e2.subrange(p + 8, p + 8 + w2.len() as int));
}

} // verus!
