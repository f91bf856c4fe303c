//! The judge session state machine.
//!
//! The session owns the single-job lock, the node identity and the derived
//! session key, and decides what every incoming command does: which verdicts
//! leave, how the state changes, and which actions the outer loop performs.
//! Everything that touches the outside world — sockets, files, subprocesses
//! — happens between these functions; each of them is total over whatever
//! the world handed back.
//!
//! The governing invariant: the session is locked exactly while a job
//! record is present.

use vstd::prelude::*;
use vstd::string::*;
use crate::constants::SLEEP_TIME;
use crate::crypto::{
    derive_session_key, diffie_hellman_bytes, parse_public_key, parses_as_public_key,
    spec_xor_stream, xor_stream, PeerKey, SessionSecret,
};
use crate::language::{spec_lang_get, CompileResult, Language, Languages};
use crate::meta::{CheckerResult, RunMeta};
use crate::sandbox::{CheckerRun, Run, Runv2};
use crate::verdict::{spec_verdict_of_checker, spec_verdict_of_run, verdict_of_checker,
    verdict_of_run, Verdict};
use crate::wire::{HandshakeResponse, HandshakeResult, JudgeRequestBody,
    JudgeRequestBodyv2, TestCaseUpdateBody};

verus! {

/// What the outer loop is asked to do.
#[derive(Clone, Copy, Debug, PartialEq, Eq, Structural)]
pub enum Actions {
    Reconnect(u64),
    Shutdown,
    Unknown,
}

/// How the outer loop proceeds after an action.
#[derive(Clone, Copy, Debug, PartialEq, Eq, Structural)]
pub enum LoopControl {
    Continue,
    ReconnectNow,
    Stop,
}

/// The active job: everything a test case needs, fixed at compile time of
/// the submission. Paths live under the job's temp directory; an
/// Interactive job carries its manager language and the object path inside
/// the grader tree.
pub struct OnJudge {
    pub uuid: u128,
    pub main_lang: Language,
    pub checker_lang: Language,
    pub manager_lang: Option<Language>,
    pub main_binary: String,
    pub checker_binary: String,
    pub object_binary: Option<String>,
    pub time_limit: u64,
    pub mem_limit: u64,
    pub tempdir: String,
}

impl OnJudge {
    /// A job is Interactive exactly when it has a manager.
    pub open spec fn spec_interactive(&self) -> bool {
        self.manager_lang is Some
    }

    /// Whether the job runs in Interactive mode.
    pub fn is_interactive(&self) -> (r: bool)
        ensures
            r == self.spec_interactive(),
    {
        self.manager_lang.is_some()
    }

    /// The Simple-mode run of this job in a given box directory.
    pub fn program_run(&self, box_dir: String) -> (r: Run)
        ensures
            r.temp_path == self.tempdir,
            r.language == self.main_lang,
            r.box_dir == box_dir,
            r.time_limit_ms == self.time_limit,
            r.mem_limit == self.mem_limit,
    {
        Run {
            temp_path: self.tempdir.clone(),
            language: self.main_lang.clone(),
            box_dir,
            time_limit_ms: self.time_limit,
            mem_limit: self.mem_limit,
        }
    }

    /// The Interactive-mode run of this job in a given box directory.
    pub fn interactive_run(&self, box_dir: String) -> (r: Runv2)
        requires
            self.manager_lang is Some,
            self.object_binary is Some,
        ensures
            r.temp_path == self.tempdir,
            r.object_path == self.object_binary->0,
            r.main_lang == self.main_lang,
            r.manager_lang == self.manager_lang->0,
            r.box_dir == box_dir,
            r.time_limit_ms == self.time_limit,
            r.mem_limit == self.mem_limit,
    {
        let manager_lang = match &self.manager_lang {
            Some(l) => l.clone(),
            None => unreached(),
        };
        let object_path = match &self.object_binary {
            Some(p) => p.clone(),
            None => unreached(),
        };
        Runv2 {
            temp_path: self.tempdir.clone(),
            object_path,
            main_lang: self.main_lang.clone(),
            manager_lang,
            box_dir,
            time_limit_ms: self.time_limit,
            mem_limit: self.mem_limit,
        }
    }

    /// The checker run of this job in a given box directory.
    pub fn checker_run(&self, box_dir: String) -> (r: CheckerRun)
        ensures
            r.checker_lang == self.checker_lang,
            r.temp_path == self.tempdir,
            r.box_dir == box_dir,
    {
        CheckerRun {
            checker_lang: self.checker_lang.clone(),
            temp_path: self.tempdir.clone(),
            box_dir,
        }
    }
}

/// The session state: the single-job lock, the assigned node identifier
/// (the all-ones sentinel until the handshake succeeds), the derived
/// session key and the active job.
pub struct State {
    pub locked: bool,
    pub node_id: u32,
    pub shared: Option<Vec<u8>>,
    pub judge: Option<OnJudge>,
}

impl State {
    /// The session invariant: locked exactly while a job is present, a
    /// derived key is always 32 bytes, and an Interactive job carries its
    /// object path exactly when it carries its manager.
    pub open spec fn wf(&self) -> bool {
        &&& self.locked <==> self.judge is Some
        &&& (self.shared matches Some(k) ==> k@.len() == 32)
        &&& (self.judge matches Some(j) ==> (j.manager_lang is Some <==> j.object_binary is Some))
    }

    /// A fresh session: unlocked, unassigned, without a key or a job.
    pub fn new() -> (r: State)
        ensures
            r.wf(),
            !r.locked,
            r.node_id == u32::MAX,
            r.shared is None,
            r.judge is None,
    {
        State { locked: false, node_id: u32::MAX, shared: None, judge: None }
    }
}

/// The session is locked exactly while a job is present.
pub proof fn lemma_lock_iff_job(s: State)
    requires
        s.wf(),
    ensures
        s.locked <==> s.judge is Some,
{
}

impl State {
    /// Service the handshake response. A response that did not decode asks
    /// for a reconnect after the usual pause; a password mismatch asks for
    /// shutdown; a success stores the node identifier and derives the
    /// session key from the exchange, unless the master's key is absent or
    /// malformed, which counts as a decode failure.
    pub fn on_handshake(&mut self, secret: &SessionSecret, res: Option<HandshakeResponse>) -> (r:
        Option<Actions>)
        requires
            old(self).wf(),
        ensures
            final(self).wf(),
            final(self).locked == old(self).locked,
            final(self).judge == old(self).judge,
            res is None ==> r == Some(Actions::Reconnect(SLEEP_TIME)) && *final(self) == *old(self),
            (res is Some && res->0.result is PasswordNotMatched) ==> r == Some(Actions::Shutdown)
                && *final(self) == *old(self),
            (res is Some && res->0.result is Unknown) ==> r is None && *final(self) == *old(self),
            (res is Some && res->0.result is Success && (res->0.node_id is None
                || res->0.server_pubkey is None)) ==> r == Some(Actions::Reconnect(SLEEP_TIME))
                && *final(self) == *old(self),
            (res is Some && res->0.result is Success && res->0.node_id is Some
                && res->0.server_pubkey is Some && parses_as_public_key(
                res->0.server_pubkey->0@,
            )) ==> (r is None && final(self).node_id == res->0.node_id->0 && final(self).shared is Some && final(self).shared->0@.len() == 32),
            (res is Some && res->0.result is Success && res->0.node_id is Some
                && res->0.server_pubkey is Some && !parses_as_public_key(
                res->0.server_pubkey->0@,
            )) ==> (r == Some(Actions::Reconnect(SLEEP_TIME)) && *final(self) == *old(self)),
    {
        let h = match res {
            Some(h) => h,
            None => {
                return Some(Actions::Reconnect(SLEEP_TIME));
            },
        };
        match h.result {
            HandshakeResult::PasswordNotMatched => Some(Actions::Shutdown),
            HandshakeResult::Unknown => None,
            HandshakeResult::Success => {
                let node_id = match h.node_id {
                    Some(v) => v,
                    None => {
                        return Some(Actions::Reconnect(SLEEP_TIME));
                    },
                };
                let server_pubkey = match h.server_pubkey {
                    Some(v) => v,
                    None => {
                        return Some(Actions::Reconnect(SLEEP_TIME));
                    },
                };
                let peer: PeerKey = match parse_public_key(server_pubkey.as_slice()) {
                    Some(k) => k,
                    None => {
                        return Some(Actions::Reconnect(SLEEP_TIME));
                    },
                };
                let material = diffie_hellman_bytes(secret, &peer);
                let key = derive_session_key(material.as_slice());
                self.node_id = node_id;
                self.shared = Some(key);
                None
            },
        }
    }

    /// Clear the job and the lock when the master ends the test sequence.
    /// No verdict is sent.
    pub fn on_test_case_end(&mut self)
        requires
            old(self).wf(),
        ensures
            final(self).wf(),
            !final(self).locked,
            final(self).judge is None,
            final(self).node_id == old(self).node_id,
            final(self).shared == old(self).shared,
    {
        self.judge = None;
        self.locked = false;
    }
}

/// Service the token check. A valid session continues silently, an expired
/// one reconnects at once, and an undecodable body reconnects after the
/// usual pause.
pub fn on_req_verify_token(decoded: Option<bool>) -> (r: Option<Actions>)
    ensures
        decoded == Some(true) ==> r is None,
        decoded == Some(false) ==> r == Some(Actions::Reconnect(0)),
        decoded is None ==> r == Some(Actions::Reconnect(SLEEP_TIME)),
{
    match decoded {
        Some(true) => None,
        Some(false) => Some(Actions::Reconnect(0)),
        None => Some(Actions::Reconnect(SLEEP_TIME)),
    }
}

/// Perform an action of the outer loop: a reconnect breaks the inner loop
/// after sleeping the given seconds; a shutdown stops the process, and no
/// further verdict is emitted.
pub fn action_step(a: Actions) -> (r: (LoopControl, u64))
    ensures
        a matches Actions::Reconnect(s) ==> r == (LoopControl::ReconnectNow, s),
        a is Shutdown ==> r == (LoopControl::Stop, 0u64),
        a is Unknown ==> r == (LoopControl::Continue, 0u64),
{
    match a {
        Actions::Reconnect(s) => (LoopControl::ReconnectNow, s),
        Actions::Shutdown => (LoopControl::Stop, 0),
        Actions::Unknown => (LoopControl::Continue, 0),
    }
}

/// Decide the keepalive probe: a readable stream that offers zero bytes is
/// a closed peer, which asks for an immediate reconnect; anything else is
/// left alone.
pub fn keepalive_decision(peek: Option<usize>) -> (r: Option<Actions>)
    ensures
        peek == Some(0usize) ==> r == Some(Actions::Reconnect(0)),
        (peek matches Some(n) && n > 0) ==> r is None,
        peek is None ==> r is None,
{
    match peek {
        Some(0) => Some(Actions::Reconnect(0)),
        Some(_) => None,
        None => None,
    }
}

/// A Simple-mode job that passed admission: the looked-up languages and
/// the deciphered sources.
pub struct JobPrep {
    pub checker_lang: Language,
    pub main_lang: Language,
    pub checker_code: Vec<u8>,
    pub main_code: Vec<u8>,
}

/// The admission decision for a judge request.
pub enum JudgeGate {
    Reject(Verdict),
    Proceed(JobPrep),
}

impl State {
    /// Gate a Simple-mode judge request. A locked session rejects it with
    /// `LockedSlave` and services nothing; an unknown language is reported
    /// without locking; a session without a key reports an empty general
    /// error. Otherwise the sources are deciphered and the job may proceed
    /// to compilation.
    pub fn get_judge_gate(&self, req: &JudgeRequestBody, langs: &Languages) -> (r: JudgeGate)
        requires
            self.wf(),
        ensures
            self.locked ==> (r is Reject && r->Reject_0 is LockedSlave),
            (!self.locked && (spec_lang_get(langs.langs@, req.checker_lang) is None
                || spec_lang_get(langs.langs@, req.main_lang) is None)) ==> (r is Reject
                && r->Reject_0 is LanguageNotFound),
            (!self.locked && spec_lang_get(langs.langs@, req.checker_lang) is Some
                && spec_lang_get(langs.langs@, req.main_lang) is Some && self.shared is None) ==> (
            r is Reject && r->Reject_0 is GeneralError && r->Reject_0->GeneralError_0@
                == Seq::<char>::empty()),
            (!self.locked && spec_lang_get(langs.langs@, req.checker_lang) is Some
                && spec_lang_get(langs.langs@, req.main_lang) is Some && self.shared is Some) ==> (
            r is Proceed && Some(r->Proceed_0.checker_lang) == spec_lang_get(
                langs.langs@,
                req.checker_lang,
            ) && Some(r->Proceed_0.main_lang) == spec_lang_get(langs.langs@, req.main_lang)
                && r->Proceed_0.checker_code@ == spec_xor_stream(
                self.shared->0@,
                req.checker_code.nonce,
                req.checker_code.data@,
            ) && r->Proceed_0.main_code@ == spec_xor_stream(
                self.shared->0@,
                req.main_code.nonce,
                req.main_code.data@,
            )),
    {
        if self.locked {
            return JudgeGate::Reject(Verdict::LockedSlave);
        }
        let checker_lang = match langs.get(req.checker_lang) {
            Some(l) => l.clone(),
            None => {
                return JudgeGate::Reject(Verdict::LanguageNotFound);
            },
        };
        let main_lang = match langs.get(req.main_lang) {
            Some(l) => l.clone(),
            None => {
                return JudgeGate::Reject(Verdict::LanguageNotFound);
            },
        };
        let key = match &self.shared {
            Some(k) => k,
            None => {
                return JudgeGate::Reject(Verdict::GeneralError(String::new()));
            },
        };
        let checker_code = xor_stream(
            key.as_slice(),
            req.checker_code.nonce,
            req.checker_code.data.as_slice(),
        );
        let main_code = xor_stream(key.as_slice(), req.main_code.nonce, req.main_code.data.as_slice());
        JudgeGate::Proceed(JobPrep { checker_lang, main_lang, checker_code, main_code })
    }

    /// Finish a Simple-mode judge request after the parallel compiles. A
    /// failed checker compile is the worker's own fault and reported as a
    /// general error; a failed main compile is the submission's compile
    /// error; both leave the session unlocked. Success locks the session
    /// and installs the job.
    pub fn get_judge_finish(
        &mut self,
        req: &JudgeRequestBody,
        prep: JobPrep,
        tempdir: String,
        c_res: CompileResult,
        m_res: CompileResult,
    ) -> (r: Verdict)
        requires
            old(self).wf(),
            !old(self).locked,
        ensures
            final(self).wf(),
            final(self).node_id == old(self).node_id,
            final(self).shared == old(self).shared,
            c_res is Error ==> r == Verdict::GeneralError(c_res->Error_0) && *final(self)
                == *old(self),
            (c_res is Success && m_res is Error) ==> r == Verdict::CompileError(m_res->Error_0)
                && *final(self) == *old(self),
            (c_res is Success && m_res is Success) ==> (r == Verdict::CompleteCompile(
                m_res->Success_0,
            ) && final(self).locked && final(self).judge is Some && ({
                let j = final(self).judge->0;
                &&& j.uuid == req.uuid
                &&& j.main_lang == prep.main_lang
                &&& j.checker_lang == prep.checker_lang
                &&& j.manager_lang is None
                &&& j.object_binary is None
                &&& j.main_binary@ == tempdir@ + "/main"@
                &&& j.checker_binary@ == tempdir@ + "/checker"@
                &&& j.time_limit == req.time_limit
                &&& j.mem_limit == req.mem_limit
                &&& j.tempdir == tempdir
            })),
    {
        match c_res {
            CompileResult::Error(stderr) => {
                return Verdict::GeneralError(stderr);
            },
            CompileResult::Success(_) => {},
        }
        match m_res {
            CompileResult::Error(stderr) => Verdict::CompileError(stderr),
            CompileResult::Success(stdout) => {
                let mut main_binary = tempdir.clone();
                main_binary.append("/main");
                let mut checker_binary = tempdir.clone();
                checker_binary.append("/checker");
                self.judge = Some(
                    OnJudge {
                        uuid: req.uuid,
                        main_lang: prep.main_lang,
                        checker_lang: prep.checker_lang,
                        manager_lang: None,
                        main_binary,
                        checker_binary,
                        object_binary: None,
                        time_limit: req.time_limit,
                        mem_limit: req.mem_limit,
                        tempdir,
                    },
                );
                self.locked = true;
                Verdict::CompleteCompile(stdout)
            },
        }
    }
}

/// An Interactive-mode job that passed admission: the looked-up languages,
/// the deciphered sources and the deciphered grader archive.
pub struct JobPrepV2 {
    pub checker_lang: Language,
    pub main_lang: Language,
    pub manager_lang: Language,
    pub checker_code: Vec<u8>,
    pub main_code: Vec<u8>,
    pub manager_code: Vec<u8>,
    pub graders: Vec<u8>,
}

/// The admission decision for an Interactive-mode judge request.
pub enum JudgeGateV2 {
    Reject(Verdict),
    Proceed(JobPrepV2),
}

impl State {
    /// Gate an Interactive-mode judge request: the same gating as the
    /// Simple mode, with the manager language looked up as well, and the
    /// grader archive deciphered alongside the sources.
    pub fn get_judge_v2_gate(&self, req: &JudgeRequestBodyv2, langs: &Languages) -> (r:
        JudgeGateV2)
        requires
            self.wf(),
        ensures
            self.locked ==> (r is Reject && r->Reject_0 is LockedSlave),
            (!self.locked && (spec_lang_get(langs.langs@, req.checker_lang) is None
                || spec_lang_get(langs.langs@, req.main_lang) is None || spec_lang_get(
                langs.langs@,
                req.manager_lang,
            ) is None)) ==> (r is Reject && r->Reject_0 is LanguageNotFound),
            (!self.locked && spec_lang_get(langs.langs@, req.checker_lang) is Some
                && spec_lang_get(langs.langs@, req.main_lang) is Some && spec_lang_get(
                langs.langs@,
                req.manager_lang,
            ) is Some && self.shared is None) ==> (r is Reject && r->Reject_0 is GeneralError
                && r->Reject_0->GeneralError_0@ == Seq::<char>::empty()),
            (!self.locked && spec_lang_get(langs.langs@, req.checker_lang) is Some
                && spec_lang_get(langs.langs@, req.main_lang) is Some && spec_lang_get(
                langs.langs@,
                req.manager_lang,
            ) is Some && self.shared is Some) ==> (r is Proceed && ({
                let p = r->Proceed_0;
                let key = self.shared->0;
                &&& Some(p.checker_lang) == spec_lang_get(langs.langs@, req.checker_lang)
                &&& Some(p.main_lang) == spec_lang_get(langs.langs@, req.main_lang)
                &&& Some(p.manager_lang) == spec_lang_get(langs.langs@, req.manager_lang)
                &&& p.checker_code@ == spec_xor_stream(
                    key@,
                    req.checker_code.nonce,
                    req.checker_code.data@,
                )
                &&& p.main_code@ == spec_xor_stream(
                    key@,
                    req.main_code.nonce,
                    req.main_code.data@,
                )
                &&& p.manager_code@ == spec_xor_stream(
                    key@,
                    req.manager_code.nonce,
                    req.manager_code.data@,
                )
                &&& p.graders@ == spec_xor_stream(key@, req.graders.nonce, req.graders.data@)
            })),
    {
        if self.locked {
            return JudgeGateV2::Reject(Verdict::LockedSlave);
        }
        let checker_lang = match langs.get(req.checker_lang) {
            Some(l) => l.clone(),
            None => {
                return JudgeGateV2::Reject(Verdict::LanguageNotFound);
            },
        };
        let main_lang = match langs.get(req.main_lang) {
            Some(l) => l.clone(),
            None => {
                return JudgeGateV2::Reject(Verdict::LanguageNotFound);
            },
        };
        let manager_lang = match langs.get(req.manager_lang) {
            Some(l) => l.clone(),
            None => {
                return JudgeGateV2::Reject(Verdict::LanguageNotFound);
            },
        };
        let key = match &self.shared {
            Some(k) => k,
            None => {
                return JudgeGateV2::Reject(Verdict::GeneralError(String::new()));
            },
        };
        let checker_code = xor_stream(
            key.as_slice(),
            req.checker_code.nonce,
            req.checker_code.data.as_slice(),
        );
        let main_code = xor_stream(key.as_slice(), req.main_code.nonce, req.main_code.data.as_slice());
        let manager_code = xor_stream(
            key.as_slice(),
            req.manager_code.nonce,
            req.manager_code.data.as_slice(),
        );
        let graders = xor_stream(key.as_slice(), req.graders.nonce, req.graders.data.as_slice());
        JudgeGateV2::Proceed(
            JobPrepV2 {
                checker_lang,
                main_lang,
                manager_lang,
                checker_code,
                main_code,
                manager_code,
                graders,
            },
        )
    }

    /// Finish an Interactive-mode judge request after the three parallel
    /// compiles and the check that the expected object file exists. A main
    /// compile failure is the submission's; a checker or manager failure,
    /// or a missing object, is a general error; all failures leave the
    /// session unlocked.
    pub fn get_judge_v2_finish(
        &mut self,
        req: &JudgeRequestBodyv2,
        prep: JobPrepV2,
        tempdir: String,
        b_res: CompileResult,
        c_res: CompileResult,
        m_res: CompileResult,
        object_exists: bool,
    ) -> (r: Verdict)
        requires
            old(self).wf(),
            !old(self).locked,
        ensures
            final(self).wf(),
            final(self).node_id == old(self).node_id,
            final(self).shared == old(self).shared,
            b_res is Error ==> r == Verdict::CompileError(b_res->Error_0) && *final(self)
                == *old(self),
            (b_res is Success && (c_res is Error || m_res is Error)) ==> (r is GeneralError
                && r->GeneralError_0@ == "Checker or manager compile failed"@ && *final(self)
                == *old(self)),
            (b_res is Success && c_res is Success && m_res is Success && !object_exists) ==> (
            r is GeneralError && r->GeneralError_0@ == "o_path is not exists"@ && *final(self)
                == *old(self)),
            (b_res is Success && c_res is Success && m_res is Success && object_exists) ==> (r
                == Verdict::CompleteCompile(b_res->Success_0) && final(self).locked && final(self).judge is Some && ({
                let j = final(self).judge->0;
                &&& j.uuid == req.uuid
                &&& j.main_lang == prep.main_lang
                &&& j.checker_lang == prep.checker_lang
                &&& j.manager_lang == Some(prep.manager_lang)
                &&& j.object_binary == Some(req.object_path)
                &&& j.main_binary@ == tempdir@ + "/graders/"@ + req.object_path@
                &&& j.checker_binary@ == tempdir@ + "/checker"@
                &&& j.time_limit == req.time_limit
                &&& j.mem_limit == req.mem_limit
                &&& j.tempdir == tempdir
            })),
    {
        let stdout = match b_res {
            CompileResult::Error(stderr) => {
                return Verdict::CompileError(stderr);
            },
            CompileResult::Success(stdout) => stdout,
        };
        let c_ok = match &c_res {
            CompileResult::Success(_) => true,
            CompileResult::Error(_) => false,
        };
        let m_ok = match &m_res {
            CompileResult::Success(_) => true,
            CompileResult::Error(_) => false,
        };
        if !c_ok || !m_ok {
            return Verdict::GeneralError(String::from_str("Checker or manager compile failed"));
        }
        if !object_exists {
            return Verdict::GeneralError(String::from_str("o_path is not exists"));
        }
        let mut main_binary = tempdir.clone();
        main_binary.append("/graders/");
        main_binary.append(req.object_path.as_str());
        let mut checker_binary = tempdir.clone();
        checker_binary.append("/checker");
        self.judge = Some(
            OnJudge {
                uuid: req.uuid,
                main_lang: prep.main_lang,
                checker_lang: prep.checker_lang,
                manager_lang: Some(prep.manager_lang),
                main_binary,
                checker_binary,
                object_binary: Some(req.object_path.clone()),
                time_limit: req.time_limit,
                mem_limit: req.mem_limit,
                tempdir,
            },
        );
        self.locked = true;
        Verdict::CompleteCompile(stdout)
    }
}

/// A test case that passed admission: the deciphered input and reference
/// output.
pub struct TestPrep {
    pub stdin: Vec<u8>,
    pub stdout_origin: Vec<u8>,
}

/// The admission decision for a test-case update: a rejection verdict, a
/// silent drop, or the deciphered test data.
pub enum TestGate {
    Reject(Verdict),
    Ignore,
    Proceed(TestPrep),
}

impl State {
    /// Gate a test-case update. Without a matching job the update is
    /// answered with `JudgeNotFound`; an unlocked session answers
    /// `UnlockedSlave`; a session without a key drops the update. While
    /// the session is unlocked no update is ever serviced.
    pub fn test_case_gate(&self, test: &TestCaseUpdateBody) -> (r: TestGate)
        requires
            self.wf(),
        ensures
            self.judge is None ==> (r is Reject && r->Reject_0 is JudgeNotFound),
            (self.judge is Some && self.judge->0.uuid != test.uuid) ==> (r is Reject
                && r->Reject_0 is JudgeNotFound),
            !self.locked ==> (r is Reject && (r->Reject_0 is JudgeNotFound
                || r->Reject_0 is UnlockedSlave)),
            (self.judge is Some && self.judge->0.uuid == test.uuid && self.shared is None) ==> r
                is Ignore,
            (self.judge is Some && self.judge->0.uuid == test.uuid && self.shared is Some) ==> (
            r is Proceed && r->Proceed_0.stdin@ == spec_xor_stream(
                self.shared->0@,
                test.stdin.nonce,
                test.stdin.data@,
            ) && r->Proceed_0.stdout_origin@ == spec_xor_stream(
                self.shared->0@,
                test.stdout.nonce,
                test.stdout.data@,
            )),
    {
        let j = match &self.judge {
            Some(j) => j,
            None => {
                return TestGate::Reject(Verdict::JudgeNotFound);
            },
        };
        if j.uuid != test.uuid {
            return TestGate::Reject(Verdict::JudgeNotFound);
        }
        if !self.locked {
            return TestGate::Reject(Verdict::UnlockedSlave);
        }
        let key = match &self.shared {
            Some(k) => k,
            None => {
                return TestGate::Ignore;
            },
        };
        let stdin = xor_stream(key.as_slice(), test.stdin.nonce, test.stdin.data.as_slice());
        let stdout_origin = xor_stream(
            key.as_slice(),
            test.stdout.nonce,
            test.stdout.data.as_slice(),
        );
        TestGate::Proceed(TestPrep { stdin, stdout_origin })
    }
}

/// The verdict of a serviced test case: the run's own failure if it did not
/// end cleanly, otherwise the checker's judgement.
pub open spec fn spec_test_verdict(
    run_meta: RunMeta,
    checker: Option<CheckerResult>,
    test: u128,
) -> Verdict {
    match spec_verdict_of_run(run_meta, test) {
        Some(v) => v,
        None => match checker {
            Some(c) => spec_verdict_of_checker(c.meta, c.score, test),
            None => Verdict::UnknownError,
        },
    }
}

/// Judge one serviced test case: exactly one verdict leaves, decided by the
/// run's status and, on a clean run, by the checker.
pub fn judge_test_outcome(run_meta: &RunMeta, checker: Option<CheckerResult>, test: u128) -> (r:
    Verdict)
    requires
        spec_verdict_of_run(*run_meta, test) is None ==> checker is Some,
    ensures
        r == spec_test_verdict(*run_meta, checker, test),
{
    match verdict_of_run(run_meta, test) {
        Some(v) => v,
        None => match checker {
            Some(c) => verdict_of_checker(&c.meta, c.score, test),
            None => unreached(),
        },
    }
}

/// The verdict stream of a sequence of serviced test cases: one verdict
/// for each case, in the order the cases were handled.
pub open spec fn spec_test_verdicts(cases: Seq<(RunMeta, Option<CheckerResult>, u128)>) -> Seq<
    Verdict,
> {
    Seq::new(cases.len(), |i: int| spec_test_verdict(cases[i].0, cases[i].1, cases[i].2))
}

/// Verdicts keep the order of their test cases: the stream carries exactly
/// one verdict per serviced case, and the verdict at each position is the
/// verdict of the case at that position.
pub proof fn lemma_verdicts_follow_update_order(
    cases: Seq<(RunMeta, Option<CheckerResult>, u128)>,
    i: int,
)
    requires
        0 <= i < cases.len(),
    ensures
        spec_test_verdicts(cases).len() == cases.len(),
        spec_test_verdicts(cases)[i] == spec_test_verdict(cases[i].0, cases[i].1, cases[i].2),
{
}

} // verus!
