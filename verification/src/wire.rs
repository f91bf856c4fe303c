//! The wire format of the session.
//!
//! A packet is a fixed header — magic, command byte, body length — followed
//! by the body. Bodies are fixed-int, big-endian encodings of the message
//! structs below. Every decoder is sound over its encoder: whatever it
//! accepts is exactly the encoding of what it returns, and the frame parser
//! also accepts every well-formed frame.

use vstd::prelude::*;
use vstd::string::*;
use crate::bytecodec::{
    push_bytes, push_text, push_u128, push_u32, push_u64, read_enc_u128, read_enc_u32,
    read_enc_u64, read_pfx_bytes, read_pfx_text, spec_enc_bytes, spec_enc_text, spec_enc_u128,
    spec_enc_u32, spec_enc_u64, spec_read_bytes, spec_read_text, spec_read_u128, spec_read_u32,
    spec_read_u64, lemma_u32_roundtrip, lemma_u64_roundtrip, lemma_u64_of_be_inverse,
};
use crate::verdict::Verdict;

verus! {

/// The magic word that opens every packet.
pub const PACKET_MAGIC: u32 = 0x504d5331;

/// The commands of the protocol.
#[derive(Clone, Copy, Debug, PartialEq, Eq, Structural)]
pub enum Command {
    Handshake,
    VerifyToken,
    ReqVerifyToken,
    GetJudge,
    GetJudgev2,
    TestCaseUpdate,
    TestCaseEnd,
    GetJudgeStateUpdate,
    Unknown,
}

/// The byte of a command on the wire.
pub open spec fn spec_command_byte(c: Command) -> u8 {
    match c {
        Command::Handshake => 1,
        Command::VerifyToken => 2,
        Command::ReqVerifyToken => 3,
        Command::GetJudge => 4,
        Command::GetJudgev2 => 5,
        Command::TestCaseUpdate => 6,
        Command::TestCaseEnd => 7,
        Command::GetJudgeStateUpdate => 8,
        Command::Unknown => 0,
    }
}

/// The command a byte names; anything unassigned is unknown.
pub open spec fn spec_command_of_byte(b: u8) -> Command {
    if b == 1 {
        Command::Handshake
    } else if b == 2 {
        Command::VerifyToken
    } else if b == 3 {
        Command::ReqVerifyToken
    } else if b == 4 {
        Command::GetJudge
    } else if b == 5 {
        Command::GetJudgev2
    } else if b == 6 {
        Command::TestCaseUpdate
    } else if b == 7 {
        Command::TestCaseEnd
    } else if b == 8 {
        Command::GetJudgeStateUpdate
    } else {
        Command::Unknown
    }
}

/// Map a byte to its command.
pub fn command_of_byte(b: u8) -> (r: Command)
    ensures
        r == spec_command_of_byte(b),
{
    if b == 1 {
        Command::Handshake
    } else if b == 2 {
        Command::VerifyToken
    } else if b == 3 {
        Command::ReqVerifyToken
    } else if b == 4 {
        Command::GetJudge
    } else if b == 5 {
        Command::GetJudgev2
    } else if b == 6 {
        Command::TestCaseUpdate
    } else if b == 7 {
        Command::TestCaseEnd
    } else if b == 8 {
        Command::GetJudgeStateUpdate
    } else {
        Command::Unknown
    }
}

/// Map a command to its byte.
pub fn command_byte(c: Command) -> (r: u8)
    ensures
        r == spec_command_byte(c),
{
    match c {
        Command::Handshake => 1,
        Command::VerifyToken => 2,
        Command::ReqVerifyToken => 3,
        Command::GetJudge => 4,
        Command::GetJudgev2 => 5,
        Command::TestCaseUpdate => 6,
        Command::TestCaseEnd => 7,
        Command::GetJudgeStateUpdate => 8,
        Command::Unknown => 0,
    }
}

/// The frame of a packet: magic, command byte, body length, body.
pub open spec fn spec_enc_frame(cb: u8, body: Seq<u8>) -> Seq<u8> {
    spec_enc_u32(PACKET_MAGIC) + seq![cb] + spec_enc_u64(body.len() as u64) + body
}

/// Build the frame of a packet.
pub fn make_frame(c: Command, body: &[u8]) -> (r: Vec<u8>)
    ensures
        r@ == spec_enc_frame(spec_command_byte(c), body@),
{
    let mut out: Vec<u8> = Vec::new();
    push_u32(&mut out, PACKET_MAGIC);
    out.push(command_byte(c));
    push_bytes(&mut out, body);
    proof {
        assert(out@ =~= spec_enc_frame(spec_command_byte(c), body@));
    }
    out
}

/// Split a whole packet into its command and its body. Whatever is accepted
/// is exactly a frame of the returned command byte and body, and every
/// well-formed frame is accepted.
pub fn parse_frame(bs: &[u8]) -> (r: Option<(Command, Vec<u8>)>)
    ensures
        r matches Some(p) ==> bs@.len() > 4 && bs@ == spec_enc_frame(bs@[4], p.1@) && p.0
            == spec_command_of_byte(bs@[4]),
        forall|cb: u8, body: Seq<u8>|
            body.len() <= u64::MAX && bs@ == #[trigger] spec_enc_frame(cb, body) ==> r is Some,
{
    let n = bs.len();
    let (magic, p1) = match read_enc_u32(bs, 0) {
        Some(x) => x,
        None => {
            proof {
                assert forall|cb: u8, body: Seq<u8>|
                    !(body.len() <= u64::MAX && bs@ == #[trigger] spec_enc_frame(cb, body)) by {
                    if bs@ == spec_enc_frame(cb, body) {
                        assert(bs@.len() >= 13);
                    }
                }
            }
            return None;
        },
    };
    if magic != PACKET_MAGIC {
        proof {
            assert forall|cb: u8, body: Seq<u8>|
                !(body.len() <= u64::MAX && bs@ == #[trigger] spec_enc_frame(cb, body)) by {
                if bs@ == spec_enc_frame(cb, body) {
                    assert(bs@.subrange(0, 4) =~= spec_enc_u32(PACKET_MAGIC));
                    lemma_u32_roundtrip(magic);
                    lemma_u32_roundtrip(PACKET_MAGIC);
                    assert(spec_enc_u32(magic) == spec_enc_u32(PACKET_MAGIC));
                    assert(spec_enc_u32(magic)[0] == spec_enc_u32(PACKET_MAGIC)[0]);
                    assert(spec_enc_u32(magic)[1] == spec_enc_u32(PACKET_MAGIC)[1]);
                    assert(spec_enc_u32(magic)[2] == spec_enc_u32(PACKET_MAGIC)[2]);
                    assert(spec_enc_u32(magic)[3] == spec_enc_u32(PACKET_MAGIC)[3]);
                    assert(magic == PACKET_MAGIC);
                }
            }
        }
        return None;
    }
    if n < 5 {
        proof {
            assert forall|cb: u8, body: Seq<u8>|
                !(body.len() <= u64::MAX && bs@ == #[trigger] spec_enc_frame(cb, body)) by {
                if bs@ == spec_enc_frame(cb, body) {
                    assert(bs@.len() >= 13);
                }
            }
        }
        return None;
    }
    let cb = *vstd::slice::slice_index_get(bs, 4);
    let (len64, p2) = match read_enc_u64(bs, 5) {
        Some(x) => x,
        None => {
            proof {
                assert forall|cb2: u8, body: Seq<u8>|
                    !(body.len() <= u64::MAX && bs@ == #[trigger] spec_enc_frame(cb2, body)) by {
                    if bs@ == spec_enc_frame(cb2, body) {
                        assert(bs@.len() >= 13);
                    }
                }
            }
            return None;
        },
    };
    if len64 > (usize::MAX as u64) {
        proof {
            assert forall|cb2: u8, body: Seq<u8>|
                !(body.len() <= u64::MAX && bs@ == #[trigger] spec_enc_frame(cb2, body)) by {
                if body.len() <= u64::MAX && bs@ == spec_enc_frame(cb2, body) {
                    assert(bs@.subrange(5, 13) =~= spec_enc_u64(body.len() as u64));
                    lemma_u64_roundtrip(body.len() as u64);
                    lemma_u64_roundtrip(len64);
                    assert(spec_enc_u64(len64) == spec_enc_u64(body.len() as u64));
                    assert(spec_enc_u64(len64) =~= spec_enc_u64(body.len() as u64));
                    assert(len64 == body.len());
                    assert(bs@.len() == 13 + body.len());
                    assert(bs@.len() <= usize::MAX);
                }
            }
        }
        return None;
    }
    let len = len64 as usize;
    if n - p2 != len {
        proof {
            assert forall|cb2: u8, body: Seq<u8>|
                !(body.len() <= u64::MAX && bs@ == #[trigger] spec_enc_frame(cb2, body)) by {
                if body.len() <= u64::MAX && bs@ == spec_enc_frame(cb2, body) {
                    assert(bs@.subrange(5, 13) =~= spec_enc_u64(body.len() as u64));
                    lemma_u64_roundtrip(body.len() as u64);
                    lemma_u64_roundtrip(len64);
                    assert(spec_enc_u64(len64) == spec_enc_u64(body.len() as u64));
                    assert(spec_enc_u64(len64) =~= spec_enc_u64(body.len() as u64));
                    assert(len64 == body.len());
                    assert(bs@.len() == 13 + body.len());
                }
            }
        }
        return None;
    }
    let body_slice = vstd::slice::slice_subrange(bs, p2, n);
    let body = vstd::slice::slice_to_vec(body_slice);
    let c = command_of_byte(cb);
    proof {
        lemma_u64_of_be_inverse(bs@.subrange(5, 13));
        assert(cb == bs@[4]);
        assert(bs@ =~= spec_enc_frame(cb, body@));
    }
    Some((c, body))
}

/// An enciphered payload: the nonce it was drawn under and the bytes.
#[derive(Clone, Debug, PartialEq)]
pub struct EncPayload {
    pub nonce: u64,
    pub data: Vec<u8>,
}

/// The view of an enciphered payload: its nonce and its bytes.
pub struct PayloadView {
    pub nonce: u64,
    pub data: Seq<u8>,
}

impl View for EncPayload {
    type V = PayloadView;

    open spec fn view(&self) -> PayloadView {
        PayloadView { nonce: self.nonce, data: self.data@ }
    }
}

/// The encoding of an enciphered payload.
pub open spec fn spec_enc_payload(p: EncPayload) -> Seq<u8> {
    spec_enc_u64(p.nonce) + spec_enc_bytes(p.data@)
}

/// What reading an enciphered payload at a position yields.
pub open spec fn spec_read_payload(bs: Seq<u8>, pos: int) -> Option<(PayloadView, int)> {
    match spec_read_u64(bs, pos) {
        Some((nonce, p1)) => match spec_read_bytes(bs, p1) {
            Some((data, p2)) => Some((PayloadView { nonce, data }, p2)),
            None => None,
        },
        None => None,
    }
}

/// Append an enciphered payload.
pub fn push_payload(out: &mut Vec<u8>, p: &EncPayload)
    ensures
        final(out)@ == old(out)@ + spec_enc_payload(*p),
{
    push_u64(out, p.nonce);
    push_bytes(out, p.data.as_slice());
    proof {
        assert(out@ =~= old(out)@ + spec_enc_payload(*p));
    }
}

/// Read an enciphered payload; the bytes consumed are its encoding.
pub fn read_payload(bs: &[u8], pos: usize) -> (r: Option<(EncPayload, usize)>)
    ensures
        match r {
            Some((p, p2)) => pos <= p2 <= bs@.len() && bs@.subrange(pos as int, p2 as int)
                == spec_enc_payload(p) && spec_read_payload(bs@, pos as int) == Some(
                (p@, p2 as int),
            ),
            None => spec_read_payload(bs@, pos as int) is None,
        },
{
    let (nonce, p1) = match read_enc_u64(bs, pos) {
        Some(x) => x,
        None => {
            return None;
        },
    };
    let (data, p2) = match read_pfx_bytes(bs, p1) {
        Some(x) => x,
        None => {
            return None;
        },
    };
    let p = EncPayload { nonce, data };
    proof {
        assert(bs@.subrange(pos as int, p2 as int) =~= bs@.subrange(pos as int, p1 as int)
            + bs@.subrange(p1 as int, p2 as int));
        assert(bs@.subrange(pos as int, p2 as int) =~= spec_enc_payload(p));
    }
    Some((p, p2))
}

/// The handshake request: the worker's public key and the hashed password.
pub struct HandshakeRequest {
    pub client_pubkey: Vec<u8>,
    pub pass: Vec<u8>,
}

/// The encoding of a handshake request.
pub open spec fn spec_enc_handshake_request(r: HandshakeRequest) -> Seq<u8> {
    spec_enc_bytes(r.client_pubkey@) + spec_enc_bytes(r.pass@)
}

/// Encode a handshake request.
pub fn encode_handshake_request(r: &HandshakeRequest) -> (out: Vec<u8>)
    ensures
        out@ == spec_enc_handshake_request(*r),
{
    let mut out: Vec<u8> = Vec::new();
    push_bytes(&mut out, r.client_pubkey.as_slice());
    push_bytes(&mut out, r.pass.as_slice());
    proof {
        assert(out@ =~= spec_enc_handshake_request(*r));
    }
    out
}

/// How the master answered the handshake.
#[derive(Clone, Copy, Debug, PartialEq, Eq, Structural)]
pub enum HandshakeResult {
    Success,
    PasswordNotMatched,
    Unknown,
}

/// The handshake response: on success it carries the assigned node
/// identifier and the master's public key.
pub struct HandshakeResponse {
    pub result: HandshakeResult,
    pub node_id: Option<u32>,
    pub server_pubkey: Option<Vec<u8>>,
}

/// The tag byte of a handshake result.
pub open spec fn spec_hresult_tag(r: HandshakeResult) -> u8 {
    match r {
        HandshakeResult::Success => 0,
        HandshakeResult::PasswordNotMatched => 1,
        HandshakeResult::Unknown => 2,
    }
}

/// The encoding of an optional 32-bit integer.
pub open spec fn spec_enc_opt_u32(o: Option<u32>) -> Seq<u8> {
    match o {
        None => seq![0u8],
        Some(v) => seq![1u8] + spec_enc_u32(v),
    }
}

/// The encoding of an optional byte string.
pub open spec fn spec_enc_opt_bytes(o: Option<Seq<u8>>) -> Seq<u8> {
    match o {
        None => seq![0u8],
        Some(v) => seq![1u8] + spec_enc_bytes(v),
    }
}

/// The encoding of a handshake response.
pub open spec fn spec_enc_handshake_response(r: HandshakeResponse) -> Seq<u8> {
    seq![spec_hresult_tag(r.result)] + spec_enc_opt_u32(r.node_id) + spec_enc_opt_bytes(
        match r.server_pubkey {
            Some(v) => Some(v@),
            None => None,
        },
    )
}

/// Encode a handshake response.
pub fn encode_handshake_response(r: &HandshakeResponse) -> (out: Vec<u8>)
    ensures
        out@ == spec_enc_handshake_response(*r),
{
    let mut out: Vec<u8> = Vec::new();
    match r.result {
        HandshakeResult::Success => out.push(0u8),
        HandshakeResult::PasswordNotMatched => out.push(1u8),
        HandshakeResult::Unknown => out.push(2u8),
    }
    match &r.node_id {
        None => out.push(0u8),
        Some(v) => {
            out.push(1u8);
            push_u32(&mut out, *v);
        },
    }
    match &r.server_pubkey {
        None => out.push(0u8),
        Some(v) => {
            out.push(1u8);
            push_bytes(&mut out, v.as_slice());
        },
    }
    proof {
        assert(out@ =~= spec_enc_handshake_response(*r));
    }
    out
}

/// The view of a handshake response.
pub struct HandshakeResponseView {
    pub result: HandshakeResult,
    pub node_id: Option<u32>,
    pub server_pubkey: Option<Seq<u8>>,
}

impl View for HandshakeResponse {
    type V = HandshakeResponseView;

    open spec fn view(&self) -> HandshakeResponseView {
        HandshakeResponseView {
            result: self.result,
            node_id: self.node_id,
            server_pubkey: match self.server_pubkey {
                Some(v) => Some(v@),
                None => None,
            },
        }
    }
}

/// The handshake result a tag byte names, if any.
pub open spec fn spec_dec_hresult(t: u8) -> Option<HandshakeResult> {
    if t == 0 {
        Some(HandshakeResult::Success)
    } else if t == 1 {
        Some(HandshakeResult::PasswordNotMatched)
    } else if t == 2 {
        Some(HandshakeResult::Unknown)
    } else {
        None
    }
}

/// What reading an optional 32-bit integer at a position yields.
pub open spec fn spec_dec_opt_u32(bs: Seq<u8>, pos: int) -> Option<(Option<u32>, int)> {
    if 0 <= pos < bs.len() {
        if bs[pos] == 0 {
            Some((None, pos + 1))
        } else if bs[pos] == 1 {
            match spec_read_u32(bs, pos + 1) {
                Some((v, p)) => Some((Some(v), p)),
                None => None,
            }
        } else {
            None
        }
    } else {
        None
    }
}

/// What reading an optional byte string at a position yields.
pub open spec fn spec_dec_opt_bytes(bs: Seq<u8>, pos: int) -> Option<(Option<Seq<u8>>, int)> {
    if 0 <= pos < bs.len() {
        if bs[pos] == 0 {
            Some((None, pos + 1))
        } else if bs[pos] == 1 {
            match spec_read_bytes(bs, pos + 1) {
                Some((v, p)) => Some((Some(v), p)),
                None => None,
            }
        } else {
            None
        }
    } else {
        None
    }
}

/// What decoding a whole handshake response yields.
pub open spec fn spec_dec_handshake_response(bs: Seq<u8>) -> Option<HandshakeResponseView> {
    if bs.len() < 1 {
        None
    } else {
        match spec_dec_hresult(bs[0]) {
            Some(result) => match spec_dec_opt_u32(bs, 1) {
                Some((node_id, p1)) => match spec_dec_opt_bytes(bs, p1) {
                    Some((server_pubkey, p2)) => {
                        if p2 == bs.len() {
                            Some(HandshakeResponseView { result, node_id, server_pubkey })
                        } else {
                            None
                        }
                    },
                    None => None,
                },
                None => None,
            },
            None => None,
        }
    }
}

/// Decode a handshake response: it returns exactly what the bytes encode,
/// and fails exactly on bytes that encode no response.
#[verifier::rlimit(60)]
pub fn decode_handshake_response(bs: &[u8]) -> (r: Option<HandshakeResponse>)
    ensures
        r matches Some(h) ==> bs@ == spec_enc_handshake_response(h),
        match r {
            Some(h) => spec_dec_handshake_response(bs@) == Some(h@),
            None => spec_dec_handshake_response(bs@) is None,
        },
{
    let n = bs.len();
    if n < 1 {
        return None;
    }
    let t0 = *vstd::slice::slice_index_get(bs, 0);
    let result = if t0 == 0 {
        HandshakeResult::Success
    } else if t0 == 1 {
        HandshakeResult::PasswordNotMatched
    } else if t0 == 2 {
        HandshakeResult::Unknown
    } else {
        return None;
    };
    if n < 2 {
        return None;
    }
    let t1 = *vstd::slice::slice_index_get(bs, 1);
    let (node_id, p1): (Option<u32>, usize) = if t1 == 0 {
        (None, 2)
    } else if t1 == 1 {
        match read_enc_u32(bs, 2) {
            Some((v, p)) => (Some(v), p),
            None => {
                return None;
            },
        }
    } else {
        return None;
    };
    if p1 >= n {
        return None;
    }
    let t2 = *vstd::slice::slice_index_get(bs, p1);
    let (server_pubkey, p2): (Option<Vec<u8>>, usize) = if t2 == 0 {
        (None, p1 + 1)
    } else if t2 == 1 {
        match read_pfx_bytes(bs, p1 + 1) {
            Some((v, p)) => (Some(v), p),
            None => {
                return None;
            },
        }
    } else {
        return None;
    };
    if p2 != n {
        return None;
    }
    let h = HandshakeResponse { result, node_id, server_pubkey };
    proof {
        assert(bs@ =~= spec_enc_handshake_response(h));
        assert(spec_dec_handshake_response(bs@) == Some(h@));
    }
    Some(h)
}

/// The encoding of the token-check body: one boolean byte.
pub open spec fn spec_enc_bool(v: bool) -> Seq<u8> {
    if v {
        seq![1u8]
    } else {
        seq![0u8]
    }
}

/// Encode a boolean body.
pub fn encode_bool(v: bool) -> (out: Vec<u8>)
    ensures
        out@ == spec_enc_bool(v),
{
    let mut out: Vec<u8> = Vec::new();
    if v {
        out.push(1u8);
    } else {
        out.push(0u8);
    }
    proof {
        assert(out@ =~= spec_enc_bool(v));
    }
    out
}

/// What decoding a boolean body yields: exactly one byte, zero or one.
pub open spec fn spec_dec_bool(bs: Seq<u8>) -> Option<bool> {
    if bs == spec_enc_bool(false) {
        Some(false)
    } else if bs == spec_enc_bool(true) {
        Some(true)
    } else {
        None
    }
}

/// Decode a boolean body: it returns exactly what the bytes encode, and
/// fails exactly on anything else.
pub fn decode_bool(bs: &[u8]) -> (r: Option<bool>)
    ensures
        r matches Some(v) ==> bs@ == spec_enc_bool(v),
        r == spec_dec_bool(bs@),
{
    if bs.len() != 1 {
        proof {
            assert(bs@.len() != 1);
        }
        return None;
    }
    let b = *vstd::slice::slice_index_get(bs, 0);
    if b == 0 {
        proof {
            assert(bs@ =~= spec_enc_bool(false));
        }
        Some(false)
    } else if b == 1 {
        proof {
            assert(bs@ =~= spec_enc_bool(true));
        }
        Some(true)
    } else {
        proof {
            assert(bs@ != spec_enc_bool(false) && bs@ != spec_enc_bool(true)) by {
                assert(bs@[0] == b);
            }
        }
        None
    }
}

/// A Simple-mode judge request.
pub struct JudgeRequestBody {
    pub uuid: u128,
    pub main_lang: u128,
    pub main_code: EncPayload,
    pub checker_lang: u128,
    pub checker_code: EncPayload,
    pub time_limit: u64,
    pub mem_limit: u64,
}

/// The view of a Simple-mode judge request.
pub struct JudgeRequestView {
    pub uuid: u128,
    pub main_lang: u128,
    pub main_code: PayloadView,
    pub checker_lang: u128,
    pub checker_code: PayloadView,
    pub time_limit: u64,
    pub mem_limit: u64,
}

impl View for JudgeRequestBody {
    type V = JudgeRequestView;

    open spec fn view(&self) -> JudgeRequestView {
        JudgeRequestView {
            uuid: self.uuid,
            main_lang: self.main_lang,
            main_code: self.main_code@,
            checker_lang: self.checker_lang,
            checker_code: self.checker_code@,
            time_limit: self.time_limit,
            mem_limit: self.mem_limit,
        }
    }
}

/// The encoding of a Simple-mode judge request.
pub open spec fn spec_enc_judge_request(r: JudgeRequestBody) -> Seq<u8> {
    spec_enc_u128(r.uuid) + spec_enc_u128(r.main_lang) + spec_enc_payload(r.main_code)
        + spec_enc_u128(r.checker_lang) + spec_enc_payload(r.checker_code) + spec_enc_u64(
        r.time_limit,
    ) + spec_enc_u64(r.mem_limit)
}

/// What reading the Simple-mode judge-request fields from the start of a
/// buffer yields.
pub open spec fn spec_read_judge_core(bs: Seq<u8>) -> Option<(JudgeRequestView, int)> {
    match spec_read_u128(bs, 0) {
        Some((uuid, p1)) => match spec_read_u128(bs, p1) {
            Some((main_lang, p2)) => match spec_read_payload(bs, p2) {
                Some((main_code, p3)) => match spec_read_u128(bs, p3) {
                    Some((checker_lang, p4)) => match spec_read_payload(bs, p4) {
                        Some((checker_code, p5)) => match spec_read_u64(bs, p5) {
                            Some((time_limit, p6)) => match spec_read_u64(bs, p6) {
                                Some((mem_limit, p7)) => Some(
                                    (
                                        JudgeRequestView {
                                            uuid,
                                            main_lang,
                                            main_code,
                                            checker_lang,
                                            checker_code,
                                            time_limit,
                                            mem_limit,
                                        },
                                        p7,
                                    ),
                                ),
                                None => None,
                            },
                            None => None,
                        },
                        None => None,
                    },
                    None => None,
                },
                None => None,
            },
            None => None,
        },
        None => None,
    }
}

/// What decoding a whole Simple-mode judge request yields: the fields, with
/// nothing left over.
pub open spec fn spec_dec_judge_request(bs: Seq<u8>) -> Option<JudgeRequestView> {
    match spec_read_judge_core(bs) {
        Some((v, p)) => {
            if p == bs.len() {
                Some(v)
            } else {
                None
            }
        },
        None => None,
    }
}

/// Encode a Simple-mode judge request.
pub fn encode_judge_request(r: &JudgeRequestBody) -> (out: Vec<u8>)
    ensures
        out@ == spec_enc_judge_request(*r),
{
    let mut out: Vec<u8> = Vec::new();
    push_u128(&mut out, r.uuid);
    push_u128(&mut out, r.main_lang);
    push_payload(&mut out, &r.main_code);
    push_u128(&mut out, r.checker_lang);
    push_payload(&mut out, &r.checker_code);
    push_u64(&mut out, r.time_limit);
    push_u64(&mut out, r.mem_limit);
    proof {
        assert(out@ =~= spec_enc_judge_request(*r));
    }
    out
}

/// Read the Simple-mode judge-request fields from the start of a buffer;
/// the bytes consumed are their encoding.
#[verifier::rlimit(100)]
fn read_judge_core(bs: &[u8]) -> (r: Option<(JudgeRequestBody, usize)>)
    ensures
        match r {
            Some((b, p)) => p <= bs@.len() && bs@.subrange(0, p as int) == spec_enc_judge_request(
                b,
            ) && spec_read_judge_core(bs@) == Some((b@, p as int)),
            None => spec_read_judge_core(bs@) is None,
        },
{
    let (uuid, p1) = match read_enc_u128(bs, 0) {
        Some(x) => x,
        None => {
            return None;
        },
    };
    let (main_lang, p2) = match read_enc_u128(bs, p1) {
        Some(x) => x,
        None => {
            return None;
        },
    };
    let (main_code, p3) = match read_payload(bs, p2) {
        Some(x) => x,
        None => {
            return None;
        },
    };
    let (checker_lang, p4) = match read_enc_u128(bs, p3) {
        Some(x) => x,
        None => {
            return None;
        },
    };
    let (checker_code, p5) = match read_payload(bs, p4) {
        Some(x) => x,
        None => {
            return None;
        },
    };
    let (time_limit, p6) = match read_enc_u64(bs, p5) {
        Some(x) => x,
        None => {
            return None;
        },
    };
    let (mem_limit, p7) = match read_enc_u64(bs, p6) {
        Some(x) => x,
        None => {
            return None;
        },
    };
    let b = JudgeRequestBody {
        uuid,
        main_lang,
        main_code,
        checker_lang,
        checker_code,
        time_limit,
        mem_limit,
    };
    proof {
        let w = bs@;
        assert(w.subrange(0, p2 as int) =~= w.subrange(0, p1 as int) + w.subrange(
            p1 as int,
            p2 as int,
        ));
        assert(w.subrange(0, p3 as int) =~= w.subrange(0, p2 as int) + w.subrange(
            p2 as int,
            p3 as int,
        ));
        assert(w.subrange(0, p4 as int) =~= w.subrange(0, p3 as int) + w.subrange(
            p3 as int,
            p4 as int,
        ));
        assert(w.subrange(0, p5 as int) =~= w.subrange(0, p4 as int) + w.subrange(
            p4 as int,
            p5 as int,
        ));
        assert(w.subrange(0, p6 as int) =~= w.subrange(0, p5 as int) + w.subrange(
            p5 as int,
            p6 as int,
        ));
        assert(w.subrange(0, p7 as int) =~= w.subrange(0, p6 as int) + w.subrange(
            p6 as int,
            p7 as int,
        ));
        assert(w.subrange(0, p7 as int) == spec_enc_judge_request(b));
    }
    Some((b, p7))
}

/// Decode a Simple-mode judge request: it returns exactly what the bytes
/// encode, and fails exactly on bytes that encode no request.
pub fn decode_judge_request(bs: &[u8]) -> (r: Option<JudgeRequestBody>)
    ensures
        r matches Some(b) ==> bs@ == spec_enc_judge_request(b),
        match r {
            Some(b) => spec_dec_judge_request(bs@) == Some(b@),
            None => spec_dec_judge_request(bs@) is None,
        },
{
    let (b, p) = match read_judge_core(bs) {
        Some(x) => x,
        None => {
            return None;
        },
    };
    if p != bs.len() {
        return None;
    }
    proof {
        assert(bs@ =~= bs@.subrange(0, p as int));
    }
    Some(b)
}

/// An Interactive-mode judge request: the Simple-mode fields, then the
/// manager and the grader tree.
pub struct JudgeRequestBodyv2 {
    pub uuid: u128,
    pub main_lang: u128,
    pub main_code: EncPayload,
    pub checker_lang: u128,
    pub checker_code: EncPayload,
    pub time_limit: u64,
    pub mem_limit: u64,
    pub manager_lang: u128,
    pub manager_code: EncPayload,
    pub graders: EncPayload,
    pub main_path: String,
    pub object_path: String,
}

/// The view of an Interactive-mode judge request.
pub struct JudgeRequestV2View {
    pub uuid: u128,
    pub main_lang: u128,
    pub main_code: PayloadView,
    pub checker_lang: u128,
    pub checker_code: PayloadView,
    pub time_limit: u64,
    pub mem_limit: u64,
    pub manager_lang: u128,
    pub manager_code: PayloadView,
    pub graders: PayloadView,
    pub main_path: Seq<char>,
    pub object_path: Seq<char>,
}

impl View for JudgeRequestBodyv2 {
    type V = JudgeRequestV2View;

    open spec fn view(&self) -> JudgeRequestV2View {
        JudgeRequestV2View {
            uuid: self.uuid,
            main_lang: self.main_lang,
            main_code: self.main_code@,
            checker_lang: self.checker_lang,
            checker_code: self.checker_code@,
            time_limit: self.time_limit,
            mem_limit: self.mem_limit,
            manager_lang: self.manager_lang,
            manager_code: self.manager_code@,
            graders: self.graders@,
            main_path: self.main_path@,
            object_path: self.object_path@,
        }
    }
}

/// The Simple-mode half of an Interactive-mode request.
pub open spec fn spec_v2_core(r: JudgeRequestBodyv2) -> JudgeRequestBody {
    JudgeRequestBody {
        uuid: r.uuid,
        main_lang: r.main_lang,
        main_code: r.main_code,
        checker_lang: r.checker_lang,
        checker_code: r.checker_code,
        time_limit: r.time_limit,
        mem_limit: r.mem_limit,
    }
}

/// The encoding of an Interactive-mode judge request: the Simple-mode
/// fields, then the manager language and code, the grader archive and the
/// two paths.
pub open spec fn spec_enc_judge_request_v2(r: JudgeRequestBodyv2) -> Seq<u8> {
    spec_enc_judge_request(spec_v2_core(r)) + spec_enc_u128(r.manager_lang) + spec_enc_payload(
        r.manager_code,
    ) + spec_enc_payload(r.graders) + spec_enc_text(r.main_path@) + spec_enc_text(r.object_path@)
}

/// What decoding a whole Interactive-mode judge request yields.
pub open spec fn spec_dec_judge_request_v2(bs: Seq<u8>) -> Option<JudgeRequestV2View> {
    match spec_read_judge_core(bs) {
        Some((core, p7)) => match spec_read_u128(bs, p7) {
            Some((manager_lang, p8)) => match spec_read_payload(bs, p8) {
                Some((manager_code, p9)) => match spec_read_payload(bs, p9) {
                    Some((graders, p10)) => match spec_read_text(bs, p10) {
                        Some((main_path, p11)) => match spec_read_text(bs, p11) {
                            Some((object_path, p12)) => {
                                if p12 == bs.len() {
                                    Some(
                                        JudgeRequestV2View {
                                            uuid: core.uuid,
                                            main_lang: core.main_lang,
                                            main_code: core.main_code,
                                            checker_lang: core.checker_lang,
                                            checker_code: core.checker_code,
                                            time_limit: core.time_limit,
                                            mem_limit: core.mem_limit,
                                            manager_lang,
                                            manager_code,
                                            graders,
                                            main_path,
                                            object_path,
                                        },
                                    )
                                } else {
                                    None
                                }
                            },
                            None => None,
                        },
                        None => None,
                    },
                    None => None,
                },
                None => None,
            },
            None => None,
        },
        None => None,
    }
}

/// Encode an Interactive-mode judge request.
pub fn encode_judge_request_v2(r: &JudgeRequestBodyv2) -> (out: Vec<u8>)
    ensures
        out@ == spec_enc_judge_request_v2(*r),
{
    let mut out: Vec<u8> = Vec::new();
    push_u128(&mut out, r.uuid);
    push_u128(&mut out, r.main_lang);
    push_payload(&mut out, &r.main_code);
    push_u128(&mut out, r.checker_lang);
    push_payload(&mut out, &r.checker_code);
    push_u64(&mut out, r.time_limit);
    push_u64(&mut out, r.mem_limit);
    push_u128(&mut out, r.manager_lang);
    push_payload(&mut out, &r.manager_code);
    push_payload(&mut out, &r.graders);
    push_text(&mut out, r.main_path.as_str());
    push_text(&mut out, r.object_path.as_str());
    proof {
        assert(out@ =~= spec_enc_judge_request_v2(*r));
    }
    out
}

/// Decode an Interactive-mode judge request: it returns exactly what the
/// bytes encode, and fails exactly on bytes that encode no request.
#[verifier::rlimit(100)]
pub fn decode_judge_request_v2(bs: &[u8]) -> (r: Option<JudgeRequestBodyv2>)
    ensures
        r matches Some(b) ==> bs@ == spec_enc_judge_request_v2(b),
        match r {
            Some(b) => spec_dec_judge_request_v2(bs@) == Some(b@),
            None => spec_dec_judge_request_v2(bs@) is None,
        },
{
    let (core, p7) = match read_judge_core(bs) {
        Some(x) => x,
        None => {
            return None;
        },
    };
    let (manager_lang, p8) = match read_enc_u128(bs, p7) {
        Some(x) => x,
        None => {
            return None;
        },
    };
    let (manager_code, p9) = match read_payload(bs, p8) {
        Some(x) => x,
        None => {
            return None;
        },
    };
    let (graders, p10) = match read_payload(bs, p9) {
        Some(x) => x,
        None => {
            return None;
        },
    };
    let (main_path, p11) = match read_pfx_text(bs, p10) {
        Some(x) => x,
        None => {
            return None;
        },
    };
    let (object_path, p12) = match read_pfx_text(bs, p11) {
        Some(x) => x,
        None => {
            return None;
        },
    };
    if p12 != bs.len() {
        return None;
    }
    let b = JudgeRequestBodyv2 {
        uuid: core.uuid,
        main_lang: core.main_lang,
        main_code: core.main_code,
        checker_lang: core.checker_lang,
        checker_code: core.checker_code,
        time_limit: core.time_limit,
        mem_limit: core.mem_limit,
        manager_lang,
        manager_code,
        graders,
        main_path,
        object_path,
    };
    proof {
        lemma_v2_encoding(
            bs@,
            b,
            p7 as int,
            p8 as int,
            p9 as int,
            p10 as int,
            p11 as int,
            p12 as int,
        );
        lemma_v2_decoding(
            bs@,
            b,
            p7 as int,
            p8 as int,
            p9 as int,
            p10 as int,
            p11 as int,
            p12 as int,
        );
    }
    Some(b)
}

/// When the buffer reads back as these fields with nothing left over, the
/// buffer is exactly their encoding.
#[verifier::rlimit(100)]
proof fn lemma_v2_encoding(
    bs: Seq<u8>,
    b: JudgeRequestBodyv2,
    p7: int,
    p8: int,
    p9: int,
    p10: int,
    p11: int,
    p12: int,
)
    requires
        spec_read_judge_core(bs) == Some((spec_v2_core(b)@, p7)),
        bs.subrange(0, p7) == spec_enc_judge_request(spec_v2_core(b)),
        0 <= p7 <= p8 <= p9 <= p10 <= p11 <= p12 <= bs.len(),
        spec_read_u128(bs, p7) == Some((b.manager_lang, p8)),
        bs.subrange(p7, p8) == spec_enc_u128(b.manager_lang),
        spec_read_payload(bs, p8) == Some((b.manager_code@, p9)),
        bs.subrange(p8, p9) == spec_enc_payload(b.manager_code),
        spec_read_payload(bs, p9) == Some((b.graders@, p10)),
        bs.subrange(p9, p10) == spec_enc_payload(b.graders),
        spec_read_text(bs, p10) == Some((b.main_path@, p11)),
        bs.subrange(p10, p11) == spec_enc_text(b.main_path@),
        spec_read_text(bs, p11) == Some((b.object_path@, p12)),
        bs.subrange(p11, p12) == spec_enc_text(b.object_path@),
        p12 == bs.len(),
    ensures
        bs == spec_enc_judge_request_v2(b),
{
    assert(bs.subrange(0, p8) =~= bs.subrange(0, p7) + bs.subrange(p7, p8));
    assert(bs.subrange(0, p9) =~= bs.subrange(0, p8) + bs.subrange(p8, p9));
    assert(bs.subrange(0, p10) =~= bs.subrange(0, p9) + bs.subrange(p9, p10));
    assert(bs.subrange(0, p11) =~= bs.subrange(0, p10) + bs.subrange(p10, p11));
    assert(bs.subrange(0, p12) =~= bs.subrange(0, p11) + bs.subrange(p11, p12));
    assert(bs =~= bs.subrange(0, p12));
}

/// When the buffer reads back as these fields with nothing left over, the
/// decoded view is theirs.
#[verifier::rlimit(100)]
proof fn lemma_v2_decoding(
    bs: Seq<u8>,
    b: JudgeRequestBodyv2,
    p7: int,
    p8: int,
    p9: int,
    p10: int,
    p11: int,
    p12: int,
)
    requires
        spec_read_judge_core(bs) == Some((spec_v2_core(b)@, p7)),
        bs.subrange(0, p7) == spec_enc_judge_request(spec_v2_core(b)),
        0 <= p7 <= p8 <= p9 <= p10 <= p11 <= p12 <= bs.len(),
        spec_read_u128(bs, p7) == Some((b.manager_lang, p8)),
        bs.subrange(p7, p8) == spec_enc_u128(b.manager_lang),
        spec_read_payload(bs, p8) == Some((b.manager_code@, p9)),
        bs.subrange(p8, p9) == spec_enc_payload(b.manager_code),
        spec_read_payload(bs, p9) == Some((b.graders@, p10)),
        bs.subrange(p9, p10) == spec_enc_payload(b.graders),
        spec_read_text(bs, p10) == Some((b.main_path@, p11)),
        bs.subrange(p10, p11) == spec_enc_text(b.main_path@),
        spec_read_text(bs, p11) == Some((b.object_path@, p12)),
        bs.subrange(p11, p12) == spec_enc_text(b.object_path@),
        p12 == bs.len(),
    ensures
        spec_dec_judge_request_v2(bs) == Some(b@),
{
    assert(spec_dec_judge_request_v2(bs) == Some(b@));
}

/// A test-case update: the job, the test, and the enciphered input and
/// reference output.
pub struct TestCaseUpdateBody {
    pub uuid: u128,
    pub test_uuid: u128,
    pub stdin: EncPayload,
    pub stdout: EncPayload,
}

/// The view of a test-case update.
pub struct TestCaseUpdateView {
    pub uuid: u128,
    pub test_uuid: u128,
    pub stdin: PayloadView,
    pub stdout: PayloadView,
}

impl View for TestCaseUpdateBody {
    type V = TestCaseUpdateView;

    open spec fn view(&self) -> TestCaseUpdateView {
        TestCaseUpdateView {
            uuid: self.uuid,
            test_uuid: self.test_uuid,
            stdin: self.stdin@,
            stdout: self.stdout@,
        }
    }
}

/// The encoding of a test-case update.
pub open spec fn spec_enc_test_case_update(r: TestCaseUpdateBody) -> Seq<u8> {
    spec_enc_u128(r.uuid) + spec_enc_u128(r.test_uuid) + spec_enc_payload(r.stdin)
        + spec_enc_payload(r.stdout)
}

/// What decoding a whole test-case update yields.
pub open spec fn spec_dec_test_case_update(bs: Seq<u8>) -> Option<TestCaseUpdateView> {
    match spec_read_u128(bs, 0) {
        Some((uuid, p1)) => match spec_read_u128(bs, p1) {
            Some((test_uuid, p2)) => match spec_read_payload(bs, p2) {
                Some((stdin, p3)) => match spec_read_payload(bs, p3) {
                    Some((stdout, p4)) => {
                        if p4 == bs.len() {
                            Some(TestCaseUpdateView { uuid, test_uuid, stdin, stdout })
                        } else {
                            None
                        }
                    },
                    None => None,
                },
                None => None,
            },
            None => None,
        },
        None => None,
    }
}

/// Encode a test-case update.
pub fn encode_test_case_update(r: &TestCaseUpdateBody) -> (out: Vec<u8>)
    ensures
        out@ == spec_enc_test_case_update(*r),
{
    let mut out: Vec<u8> = Vec::new();
    push_u128(&mut out, r.uuid);
    push_u128(&mut out, r.test_uuid);
    push_payload(&mut out, &r.stdin);
    push_payload(&mut out, &r.stdout);
    proof {
        assert(out@ =~= spec_enc_test_case_update(*r));
    }
    out
}

/// Decode a test-case update: it returns exactly what the bytes encode, and
/// fails exactly on bytes that encode no update.
#[verifier::rlimit(60)]
pub fn decode_test_case_update(bs: &[u8]) -> (r: Option<TestCaseUpdateBody>)
    ensures
        r matches Some(b) ==> bs@ == spec_enc_test_case_update(b),
        match r {
            Some(b) => spec_dec_test_case_update(bs@) == Some(b@),
            None => spec_dec_test_case_update(bs@) is None,
        },
{
    let (uuid, p1) = match read_enc_u128(bs, 0) {
        Some(x) => x,
        None => {
            return None;
        },
    };
    let (test_uuid, p2) = match read_enc_u128(bs, p1) {
        Some(x) => x,
        None => {
            return None;
        },
    };
    let (stdin, p3) = match read_payload(bs, p2) {
        Some(x) => x,
        None => {
            return None;
        },
    };
    let (stdout, p4) = match read_payload(bs, p3) {
        Some(x) => x,
        None => {
            return None;
        },
    };
    if p4 != bs.len() {
        return None;
    }
    let b = TestCaseUpdateBody { uuid, test_uuid, stdin, stdout };
    proof {
        let w = bs@;
        assert(w.subrange(0, p2 as int) =~= w.subrange(0, p1 as int) + w.subrange(
            p1 as int,
            p2 as int,
        ));
        assert(w.subrange(0, p3 as int) =~= w.subrange(0, p2 as int) + w.subrange(
            p2 as int,
            p3 as int,
        ));
        assert(w.subrange(0, p4 as int) =~= w.subrange(0, p3 as int) + w.subrange(
            p3 as int,
            p4 as int,
        ));
        assert(w =~= w.subrange(0, p4 as int));
        assert(w == spec_enc_test_case_update(b));
    }
    Some(b)
}

/// What decoding a whole test-case end body yields: the job identifier,
/// with nothing left over.
pub open spec fn spec_dec_test_case_end(bs: Seq<u8>) -> Option<u128> {
    match spec_read_u128(bs, 0) {
        Some((uuid, p)) => {
            if p == bs.len() {
                Some(uuid)
            } else {
                None
            }
        },
        None => None,
    }
}

/// Encode a test-case end body: the job identifier alone.
pub fn encode_test_case_end(uuid: u128) -> (out: Vec<u8>)
    ensures
        out@ == spec_enc_u128(uuid),
{
    let mut out: Vec<u8> = Vec::new();
    push_u128(&mut out, uuid);
    proof {
        assert(out@ =~= spec_enc_u128(uuid));
    }
    out
}

/// Decode a test-case end body: it returns exactly what the bytes encode,
/// and fails exactly on anything else.
pub fn decode_test_case_end(bs: &[u8]) -> (r: Option<u128>)
    ensures
        r matches Some(uuid) ==> bs@ == spec_enc_u128(uuid),
        r == spec_dec_test_case_end(bs@),
{
    let (uuid, p1) = match read_enc_u128(bs, 0) {
        Some(x) => x,
        None => {
            return None;
        },
    };
    if p1 != bs.len() {
        return None;
    }
    proof {
        assert(bs@ =~= bs@.subrange(0, p1 as int));
    }
    Some(uuid)
}

/// The tag byte of a verdict.
pub open spec fn spec_verdict_tag(v: Verdict) -> u8 {
    match v {
        Verdict::DoCompile => 0,
        Verdict::CompileError(_) => 1,
        Verdict::CompleteCompile(_) => 2,
        Verdict::Accepted(_, _, _) => 3,
        Verdict::WrongAnswer(_, _, _) => 4,
        Verdict::Complete(_, _, _, _) => 5,
        Verdict::TimeLimitExceed(_) => 6,
        Verdict::RuntimeError(_, _) => 7,
        Verdict::DiedOnSignal(_, _) => 8,
        Verdict::InternalError(_) => 9,
        Verdict::UnknownError => 10,
        Verdict::LanguageNotFound => 11,
        Verdict::LockedSlave => 12,
        Verdict::UnlockedSlave => 13,
        Verdict::JudgeNotFound => 14,
        Verdict::GeneralError(_) => 15,
    }
}

/// How a verdict is encoded: the variant byte, then the fields in order.
/// An exit code or a signal number travels as 32 raw bits.
pub open spec fn spec_enc_verdict(v: Verdict) -> Seq<u8> {
    seq![spec_verdict_tag(v)] + match v {
        Verdict::DoCompile => Seq::<u8>::empty(),
        Verdict::CompileError(s) => spec_enc_text(s@),
        Verdict::CompleteCompile(s) => spec_enc_text(s@),
        Verdict::Accepted(t, ms, mem) => spec_enc_u128(t) + spec_enc_u64(ms) + spec_enc_u64(mem),
        Verdict::WrongAnswer(t, ms, mem) => spec_enc_u128(t) + spec_enc_u64(ms) + spec_enc_u64(
            mem,
        ),
        Verdict::Complete(t, sc, ms, mem) => spec_enc_u128(t) + spec_enc_text(sc@) + spec_enc_u64(
            ms,
        ) + spec_enc_u64(mem),
        Verdict::TimeLimitExceed(t) => spec_enc_u128(t),
        Verdict::RuntimeError(t, code) => spec_enc_u128(t) + spec_enc_u32(code as u32),
        Verdict::DiedOnSignal(t, sig) => spec_enc_u128(t) + spec_enc_u32(sig as u32),
        Verdict::InternalError(t) => spec_enc_u128(t),
        Verdict::UnknownError => Seq::<u8>::empty(),
        Verdict::LanguageNotFound => Seq::<u8>::empty(),
        Verdict::LockedSlave => Seq::<u8>::empty(),
        Verdict::UnlockedSlave => Seq::<u8>::empty(),
        Verdict::JudgeNotFound => Seq::<u8>::empty(),
        Verdict::GeneralError(s) => spec_enc_text(s@),
    }
}

/// Encode a verdict.
pub fn encode_verdict(v: &Verdict) -> (out: Vec<u8>)
    ensures
        out@ == spec_enc_verdict(*v),
{
    let mut out: Vec<u8> = Vec::new();
    match v {
        Verdict::DoCompile => {
            out.push(0u8);
        },
        Verdict::CompileError(s) => {
            out.push(1u8);
            push_text(&mut out, s.as_str());
        },
        Verdict::CompleteCompile(s) => {
            out.push(2u8);
            push_text(&mut out, s.as_str());
        },
        Verdict::Accepted(t, ms, mem) => {
            out.push(3u8);
            push_u128(&mut out, *t);
            push_u64(&mut out, *ms);
            push_u64(&mut out, *mem);
        },
        Verdict::WrongAnswer(t, ms, mem) => {
            out.push(4u8);
            push_u128(&mut out, *t);
            push_u64(&mut out, *ms);
            push_u64(&mut out, *mem);
        },
        Verdict::Complete(t, sc, ms, mem) => {
            out.push(5u8);
            push_u128(&mut out, *t);
            push_text(&mut out, sc.as_str());
            push_u64(&mut out, *ms);
            push_u64(&mut out, *mem);
        },
        Verdict::TimeLimitExceed(t) => {
            out.push(6u8);
            push_u128(&mut out, *t);
        },
        Verdict::RuntimeError(t, code) => {
            out.push(7u8);
            push_u128(&mut out, *t);
            push_u32(&mut out, #[verifier::truncate] (*code as u32));
        },
        Verdict::DiedOnSignal(t, sig) => {
            out.push(8u8);
            push_u128(&mut out, *t);
            push_u32(&mut out, #[verifier::truncate] (*sig as u32));
        },
        Verdict::InternalError(t) => {
            out.push(9u8);
            push_u128(&mut out, *t);
        },
        Verdict::UnknownError => {
            out.push(10u8);
        },
        Verdict::LanguageNotFound => {
            out.push(11u8);
        },
        Verdict::LockedSlave => {
            out.push(12u8);
        },
        Verdict::UnlockedSlave => {
            out.push(13u8);
        },
        Verdict::JudgeNotFound => {
            out.push(14u8);
        },
        Verdict::GeneralError(s) => {
            out.push(15u8);
            push_text(&mut out, s.as_str());
        },
    }
    proof {
        assert(out@ =~= spec_enc_verdict(*v));
    }
    out
}

/// The encoding of a body that follows the handshake: the node identifier,
/// the worker's public key, then the inner body.
pub open spec fn spec_enc_after_handshake(node_id: u32, pubkey: Seq<u8>, inner: Seq<u8>) -> Seq<
    u8,
> {
    spec_enc_u32(node_id) + spec_enc_bytes(pubkey) + inner
}

/// Encode the token-check request body.
pub fn encode_verify_token(node_id: u32, pubkey: &[u8]) -> (out: Vec<u8>)
    ensures
        out@ == spec_enc_after_handshake(node_id, pubkey@, Seq::<u8>::empty()),
{
    let mut out: Vec<u8> = Vec::new();
    push_u32(&mut out, node_id);
    push_bytes(&mut out, pubkey);
    proof {
        assert(out@ =~= spec_enc_after_handshake(node_id, pubkey@, Seq::<u8>::empty()));
    }
    out
}

/// Encode the verdict-update body: the worker's identity, the job and the
/// verdict.
pub fn encode_judge_state_update(node_id: u32, pubkey: &[u8], uuid: u128, v: &Verdict) -> (out:
    Vec<u8>)
    ensures
        out@ == spec_enc_after_handshake(
            node_id,
            pubkey@,
            spec_enc_u128(uuid) + spec_enc_verdict(*v),
        ),
{
    let mut out: Vec<u8> = Vec::new();
    push_u32(&mut out, node_id);
    push_bytes(&mut out, pubkey);
    push_u128(&mut out, uuid);
    let venc = encode_verdict(v);
    let mut i: usize = 0;
    let n = venc.len();
    while i < n
        invariant
            0 <= i <= n == venc@.len(),
            venc@ == spec_enc_verdict(*v),
            out@ == spec_enc_u32(node_id) + spec_enc_bytes(pubkey@) + spec_enc_u128(uuid)
                + venc@.take(i as int),
        decreases n - i,
    {
        out.push(venc[i]);
        proof {
            assert(spec_enc_u32(node_id) + spec_enc_bytes(pubkey@) + spec_enc_u128(uuid)
                + venc@.take(i as int + 1) =~= (spec_enc_u32(node_id) + spec_enc_bytes(pubkey@)
                + spec_enc_u128(uuid) + venc@.take(i as int)).push(venc@[i as int]));
        }
        i = i + 1;
    }
    proof {
        assert(venc@.take(n as int) =~= venc@);
        assert(out@ =~= spec_enc_after_handshake(
            node_id,
            pubkey@,
            spec_enc_u128(uuid) + spec_enc_verdict(*v),
        ));
    }
    out
}

} // verus!
