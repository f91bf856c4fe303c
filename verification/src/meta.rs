//! Parsing of the sandbox meta-file.
//!
//! The isolation tool writes one `key:value` pair per line. Exactly the keys
//! `time`, `time-wall`, `status`, `cg-mem`, `exitcode` and `exitsig` are
//! recognized; unknown keys and empty lines are ignored. A recognized key
//! whose value is missing or malformed makes the whole parse fail, which the
//! caller reports as an unknown error for that run. Times are kept in
//! milliseconds.

use vstd::prelude::*;
use vstd::string::*;
use crate::numfmt::{find_byte, find_byte_exec, lemma_find_byte_in_range, spec_parse_secs_ms, spec_parse_u64, spec_parse_i32, parse_secs_ms, parse_u64, parse_i32};

verus! {

/// How a sandboxed run ended when it did not end cleanly.
#[derive(Clone, Copy, Debug, PartialEq, Eq, Structural)]
pub enum RunStatus {
    RuntimeErr,
    DiedOnSignal,
    TimedOut,
    InternalErr,
    Unknown,
}

/// The parsed meta-file. A `status` of `None` means the program exited
/// cleanly within its limits. Fields that the sandbox did not report stay
/// `None`.
#[derive(Clone, Debug, PartialEq)]
pub struct RunMeta {
    pub status: Option<RunStatus>,
    pub time_ms: Option<u64>,
    pub time_wall_ms: Option<u64>,
    pub message: Option<String>,
    pub max_rss: Option<i32>,
    pub killed: Option<i32>,
    pub exitsig: Option<i32>,
    pub exitcode: Option<i32>,
    pub csw_voluntary: Option<i32>,
    pub csw_forced: Option<i32>,
    pub cg_mem: Option<u64>,
    pub cg_oom_killed: Option<i32>,
}

/// Outcome of a program or interactive run.
#[derive(Clone, Debug, PartialEq)]
pub struct RunResult {
    pub meta: RunMeta,
}

/// Outcome of a checker run: the run itself plus the optional score text
/// from the checker's result file.
#[derive(Clone, Debug, PartialEq)]
pub struct CheckerResult {
    pub score: Option<String>,
    pub meta: RunMeta,
}

/// The meta value with every field unset.
pub open spec fn spec_empty_meta() -> RunMeta {
    RunMeta {
        status: None,
        time_ms: None,
        time_wall_ms: None,
        message: None,
        max_rss: None,
        killed: None,
        exitsig: None,
        exitcode: None,
        csw_voluntary: None,
        csw_forced: None,
        cg_mem: None,
        cg_oom_killed: None,
    }
}

/// A fresh meta value with every field unset.
pub fn empty_meta() -> (r: RunMeta)
    ensures
        r == spec_empty_meta(),
{
    RunMeta {
        status: None,
        time_ms: None,
        time_wall_ms: None,
        message: None,
        max_rss: None,
        killed: None,
        exitsig: None,
        exitcode: None,
        csw_voluntary: None,
        csw_forced: None,
        cg_mem: None,
        cg_oom_killed: None,
    }
}

/// The bytes of the key `time`.
pub open spec fn key_time() -> Seq<u8> {
    seq![0x74, 0x69, 0x6d, 0x65]
}

/// The bytes of the key `time-wall`.
pub open spec fn key_time_wall() -> Seq<u8> {
    seq![0x74, 0x69, 0x6d, 0x65, 0x2d, 0x77, 0x61, 0x6c, 0x6c]
}

/// The bytes of the key `status`.
pub open spec fn key_status() -> Seq<u8> {
    seq![0x73, 0x74, 0x61, 0x74, 0x75, 0x73]
}

/// The bytes of the key `cg-mem`.
pub open spec fn key_cg_mem() -> Seq<u8> {
    seq![0x63, 0x67, 0x2d, 0x6d, 0x65, 0x6d]
}

/// The bytes of the key `exitcode`.
pub open spec fn key_exitcode() -> Seq<u8> {
    seq![0x65, 0x78, 0x69, 0x74, 0x63, 0x6f, 0x64, 0x65]
}

/// The bytes of the key `exitsig`.
pub open spec fn key_exitsig() -> Seq<u8> {
    seq![0x65, 0x78, 0x69, 0x74, 0x73, 0x69, 0x67]
}

/// The bytes of the status value `TO`.
pub open spec fn status_to() -> Seq<u8> {
    seq![0x54, 0x4f]
}

/// The bytes of the status value `SG`.
pub open spec fn status_sg() -> Seq<u8> {
    seq![0x53, 0x47]
}

/// The bytes of the status value `RE`.
pub open spec fn status_re() -> Seq<u8> {
    seq![0x52, 0x45]
}

/// The bytes of the status value `XX`.
pub open spec fn status_xx() -> Seq<u8> {
    seq![0x58, 0x58]
}

/// The run status named by a status value; anything unrecognized maps to
/// `Unknown`.
pub open spec fn spec_status_of(val: Seq<u8>) -> RunStatus {
    if val == status_to() {
        RunStatus::TimedOut
    } else if val == status_sg() {
        RunStatus::DiedOnSignal
    } else if val == status_re() {
        RunStatus::RuntimeErr
    } else if val == status_xx() {
        RunStatus::InternalErr
    } else {
        RunStatus::Unknown
    }
}

/// Whether a key is one of the recognized meta keys.
pub open spec fn is_known_key(key: Seq<u8>) -> bool {
    ||| key == key_time()
    ||| key == key_time_wall()
    ||| key == key_status()
    ||| key == key_cg_mem()
    ||| key == key_exitcode()
    ||| key == key_exitsig()
}

/// The value part of a line after its first colon: the text up to the next
/// colon, or to the end of the line.
pub open spec fn spec_line_value(rest: Seq<u8>) -> Seq<u8> {
    match find_byte(rest, 0x3a) {
        Some(c) => rest.take(c),
        None => rest,
    }
}

/// Fold one meta line into the accumulated record. An empty line or an
/// unknown key leaves the record unchanged; a recognized key without a colon
/// or with an unparsable value fails.
pub open spec fn spec_apply_line(line: Seq<u8>, acc: RunMeta) -> Option<RunMeta> {
    if line.len() == 0 {
        Some(acc)
    } else {
        match find_byte(line, 0x3a) {
            None => {
                if is_known_key(line) {
                    None
                } else {
                    Some(acc)
                }
            },
            Some(c) => {
                let key = line.take(c);
                let val = spec_line_value(line.skip(c + 1));
                if key == key_time() {
                    match spec_parse_secs_ms(val) {
                        Some(ms) => Some(RunMeta { time_ms: Some(ms), ..acc }),
                        None => None,
                    }
                } else if key == key_time_wall() {
                    match spec_parse_secs_ms(val) {
                        Some(ms) => Some(RunMeta { time_wall_ms: Some(ms), ..acc }),
                        None => None,
                    }
                } else if key == key_status() {
                    Some(RunMeta { status: Some(spec_status_of(val)), ..acc })
                } else if key == key_cg_mem() {
                    match spec_parse_u64(val) {
                        Some(v) => Some(RunMeta { cg_mem: Some(v), ..acc }),
                        None => None,
                    }
                } else if key == key_exitcode() {
                    match spec_parse_i32(val) {
                        Some(v) => Some(RunMeta { exitcode: Some(v), ..acc }),
                        None => None,
                    }
                } else if key == key_exitsig() {
                    match spec_parse_i32(val) {
                        Some(v) => Some(RunMeta { exitsig: Some(v), ..acc }),
                        None => None,
                    }
                } else {
                    Some(acc)
                }
            },
        }
    }
}

/// Fold the remaining meta text, line by line, into the accumulated record.
pub open spec fn spec_parse_meta_rec(s: Seq<u8>, acc: RunMeta) -> Option<RunMeta>
    decreases s.len(),
    via spec_parse_meta_rec_decreases
{
    if s.len() == 0 {
        Some(acc)
    } else {
        match find_byte(s, 0x0a) {
            Some(k) => {
                match spec_apply_line(s.take(k), acc) {
                    Some(a2) => spec_parse_meta_rec(s.skip(k + 1), a2),
                    None => None,
                }
            },
            None => spec_apply_line(s, acc),
        }
    }
}

#[via_fn]
proof fn spec_parse_meta_rec_decreases(s: Seq<u8>, acc: RunMeta) {
    lemma_find_byte_in_range(s, 0x0a);
}

/// What parsing a whole meta-file returns.
pub open spec fn spec_parse_meta(s: Seq<u8>) -> Option<RunMeta> {
    spec_parse_meta_rec(s, spec_empty_meta())
}

/// Whether two byte slices hold the same bytes.
fn bytes_eq(a: &[u8], b: &[u8]) -> (r: bool)
    ensures
        r == (a@ == b@),
{
    let n = a.len();
    if n != b.len() {
        proof {
            assert(a@.len() != b@.len());
        }
        return false;
    }
    let mut i: usize = 0;
    while i < n
        invariant
            0 <= i <= n == a@.len() == b@.len(),
            forall|j: int| 0 <= j < i ==> a@[j] == b@[j],
        decreases n - i,
    {
        if *vstd::slice::slice_index_get(a, i) != *vstd::slice::slice_index_get(b, i) {
            return false;
        }
        i = i + 1;
    }
    proof {
        assert(a@ =~= b@);
    }
    true
}

/// The key `time` as bytes.
fn key_time_vec() -> (r: Vec<u8>)
    ensures
        r@ == key_time(),
{
    let mut v: Vec<u8> = Vec::new();
    v.push(0x74);
    v.push(0x69);
    v.push(0x6d);
    v.push(0x65);
    proof {
        assert(v@ =~= key_time());
    }
    v
}

/// The key `time-wall` as bytes.
fn key_time_wall_vec() -> (r: Vec<u8>)
    ensures
        r@ == key_time_wall(),
{
    let mut v: Vec<u8> = Vec::new();
    v.push(0x74);
    v.push(0x69);
    v.push(0x6d);
    v.push(0x65);
    v.push(0x2d);
    v.push(0x77);
    v.push(0x61);
    v.push(0x6c);
    v.push(0x6c);
    proof {
        assert(v@ =~= key_time_wall());
    }
    v
}

/// The key `status` as bytes.
fn key_status_vec() -> (r: Vec<u8>)
    ensures
        r@ == key_status(),
{
    let mut v: Vec<u8> = Vec::new();
    v.push(0x73);
    v.push(0x74);
    v.push(0x61);
    v.push(0x74);
    v.push(0x75);
    v.push(0x73);
    proof {
        assert(v@ =~= key_status());
    }
    v
}

/// The key `cg-mem` as bytes.
fn key_cg_mem_vec() -> (r: Vec<u8>)
    ensures
        r@ == key_cg_mem(),
{
    let mut v: Vec<u8> = Vec::new();
    v.push(0x63);
    v.push(0x67);
    v.push(0x2d);
    v.push(0x6d);
    v.push(0x65);
    v.push(0x6d);
    proof {
        assert(v@ =~= key_cg_mem());
    }
    v
}

/// The key `exitcode` as bytes.
fn key_exitcode_vec() -> (r: Vec<u8>)
    ensures
        r@ == key_exitcode(),
{
    let mut v: Vec<u8> = Vec::new();
    v.push(0x65);
    v.push(0x78);
    v.push(0x69);
    v.push(0x74);
    v.push(0x63);
    v.push(0x6f);
    v.push(0x64);
    v.push(0x65);
    proof {
        assert(v@ =~= key_exitcode());
    }
    v
}

/// The key `exitsig` as bytes.
fn key_exitsig_vec() -> (r: Vec<u8>)
    ensures
        r@ == key_exitsig(),
{
    let mut v: Vec<u8> = Vec::new();
    v.push(0x65);
    v.push(0x78);
    v.push(0x69);
    v.push(0x74);
    v.push(0x73);
    v.push(0x69);
    v.push(0x67);
    proof {
        assert(v@ =~= key_exitsig());
    }
    v
}

/// Map a status value to its run status.
fn status_of(val: &[u8]) -> (r: RunStatus)
    ensures
        r == spec_status_of(val@),
{
    let mut to: Vec<u8> = Vec::new();
    to.push(0x54);
    to.push(0x4f);
    let mut sg: Vec<u8> = Vec::new();
    sg.push(0x53);
    sg.push(0x47);
    let mut re: Vec<u8> = Vec::new();
    re.push(0x52);
    re.push(0x45);
    let mut xx: Vec<u8> = Vec::new();
    xx.push(0x58);
    xx.push(0x58);
    proof {
        assert(to@ =~= status_to());
        assert(sg@ =~= status_sg());
        assert(re@ =~= status_re());
        assert(xx@ =~= status_xx());
    }
    if bytes_eq(val, to.as_slice()) {
        RunStatus::TimedOut
    } else if bytes_eq(val, sg.as_slice()) {
        RunStatus::DiedOnSignal
    } else if bytes_eq(val, re.as_slice()) {
        RunStatus::RuntimeErr
    } else if bytes_eq(val, xx.as_slice()) {
        RunStatus::InternalErr
    } else {
        RunStatus::Unknown
    }
}

/// Fold one line into the record.
fn apply_line(line: &[u8], acc: RunMeta) -> (r: Option<RunMeta>)
    ensures
        r == spec_apply_line(line@, acc),
{
    let n = line.len();
    if n == 0 {
        return Some(acc);
    }
    let k_time = key_time_vec();
    let k_time_wall = key_time_wall_vec();
    let k_status = key_status_vec();
    let k_cg_mem = key_cg_mem_vec();
    let k_exitcode = key_exitcode_vec();
    let k_exitsig = key_exitsig_vec();
    match find_byte_exec(line, 0x3a) {
        None => {
            if bytes_eq(line, k_time.as_slice()) || bytes_eq(line, k_time_wall.as_slice())
                || bytes_eq(line, k_status.as_slice()) || bytes_eq(line, k_cg_mem.as_slice())
                || bytes_eq(line, k_exitcode.as_slice()) || bytes_eq(line, k_exitsig.as_slice()) {
                None
            } else {
                Some(acc)
            }
        },
        Some(c) => {
            proof {
                lemma_find_byte_in_range(line@, 0x3a);
            }
            let key = vstd::slice::slice_subrange(line, 0, c);
            let rest = vstd::slice::slice_subrange(line, c + 1, n);
            let val = match find_byte_exec(rest, 0x3a) {
                Some(c2) => {
                    proof {
                        lemma_find_byte_in_range(rest@, 0x3a);
                    }
                    vstd::slice::slice_subrange(rest, 0, c2)
                },
                None => rest,
            };
            proof {
                assert(key@ =~= line@.take(c as int));
                assert(rest@ =~= line@.skip(c as int + 1));
                assert(val@ =~= spec_line_value(line@.skip(c as int + 1)));
            }
            if bytes_eq(key, k_time.as_slice()) {
                match parse_secs_ms(val) {
                    Some(ms) => Some(RunMeta { time_ms: Some(ms), ..acc }),
                    None => None,
                }
            } else if bytes_eq(key, k_time_wall.as_slice()) {
                match parse_secs_ms(val) {
                    Some(ms) => Some(RunMeta { time_wall_ms: Some(ms), ..acc }),
                    None => None,
                }
            } else if bytes_eq(key, k_status.as_slice()) {
                Some(RunMeta { status: Some(status_of(val)), ..acc })
            } else if bytes_eq(key, k_cg_mem.as_slice()) {
                match parse_u64(val) {
                    Some(v) => Some(RunMeta { cg_mem: Some(v), ..acc }),
                    None => None,
                }
            } else if bytes_eq(key, k_exitcode.as_slice()) {
                match parse_i32(val) {
                    Some(v) => Some(RunMeta { exitcode: Some(v), ..acc }),
                    None => None,
                }
            } else if bytes_eq(key, k_exitsig.as_slice()) {
                match parse_i32(val) {
                    Some(v) => Some(RunMeta { exitsig: Some(v), ..acc }),
                    None => None,
                }
            } else {
                Some(acc)
            }
        },
    }
}

/// Parse a whole meta-file, line by line.
pub fn parse_meta(s: &str) -> (r: Option<RunMeta>)
    ensures
        r == spec_parse_meta(s.spec_bytes()),
{
    let bs = s.as_bytes();
    let n = bs.len();
    let mut acc = empty_meta();
    let mut pos: usize = 0;
    proof {
        assert(bs@.skip(0) =~= bs@);
    }
    while pos < n
        invariant
            0 <= pos <= n == bs@.len(),
            bs@ == s.spec_bytes(),
            spec_parse_meta(s.spec_bytes()) == spec_parse_meta_rec(bs@.skip(pos as int), acc),
        decreases n - pos,
    {
        let rest = vstd::slice::slice_subrange(bs, pos, n);
        proof {
            assert(rest@ =~= bs@.skip(pos as int));
        }
        let (line, next) = match find_byte_exec(rest, 0x0a) {
            Some(k) => {
                proof {
                    lemma_find_byte_in_range(rest@, 0x0a);
                }
                (vstd::slice::slice_subrange(rest, 0, k), pos + k + 1)
            },
            None => (rest, n),
        };
        proof {
            if let Some(k) = find_byte(rest@, 0x0a) {
                assert(line@ =~= rest@.take(k));
                assert(bs@.skip(next as int) =~= rest@.skip(k + 1));
            }
        }
        match apply_line(line, acc) {
            Some(a2) => {
                acc = a2;
            },
            None => {
                return None;
            },
        }
        pos = next;
    }
    proof {
        assert(bs@.skip(n as int).len() == 0);
    }
    Some(acc)
}

/// Parsing is a pure function of the text: parsing the same log twice
/// yields equal records.
pub proof fn lemma_parse_meta_idempotent(s: Seq<u8>, r1: Option<RunMeta>, r2: Option<RunMeta>)
    requires
        r1 == spec_parse_meta(s),
        r2 == spec_parse_meta(s),
    ensures
        r1 == r2,
{
}

} // verus!
