use pms_slave::crypto::{generate_secret, public_key_bytes, xor_stream};
use pms_slave::language::{CompileResult, Language, Languages};
use pms_slave::meta::{empty_meta, CheckerResult, RunMeta, RunStatus};
use pms_slave::session::{
    action_step, judge_test_outcome, keepalive_decision, on_req_verify_token, Actions, JudgeGate,
    JudgeGateV2, LoopControl, State, TestGate,
};
use pms_slave::verdict::Verdict;
use pms_slave::wire::{
    EncPayload, HandshakeResponse, HandshakeResult, JudgeRequestBody, JudgeRequestBodyv2,
    TestCaseUpdateBody,
};

const JOB: u128 = 0x1111;
const TEST: u128 = 0x2222;

fn lang(uuid: u128) -> Language {
    Language {
        uuid,
        name: "L".to_string(),
        version: "1".to_string(),
        exec_cmd: "{file}".to_string(),
        compile_exec: "cc".to_string(),
        compile_args: "{infile} {outfile}".to_string(),
        entry_source: "main.c".to_string(),
        add_mem_limit: 0,
        add_time_limit: 0,
    }
}

fn langs() -> Languages {
    Languages::from_entries(vec![lang(1), lang(2), lang(3)])
}

fn key() -> Vec<u8> {
    vec![0x5au8; 32]
}

fn sealed(nonce: u64, data: &[u8]) -> EncPayload {
    EncPayload { nonce, data: xor_stream(&key(), nonce, data) }
}

fn keyed_state() -> State {
    let mut st = State::new();
    st.shared = Some(key());
    st
}

fn simple_request() -> JudgeRequestBody {
    JudgeRequestBody {
        uuid: JOB,
        main_lang: 1,
        main_code: sealed(1, b"int main(){}"),
        checker_lang: 2,
        checker_code: sealed(2, b"checker source"),
        time_limit: 1000,
        mem_limit: 65536,
    }
}

fn clean_meta(time_ms: u64, mem: u64) -> RunMeta {
    let mut m = empty_meta();
    m.time_ms = Some(time_ms);
    m.cg_mem = Some(mem);
    m
}

fn start_simple_job(st: &mut State) {
    let req = simple_request();
    let prep = match st.get_judge_gate(&req, &langs()) {
        JudgeGate::Proceed(p) => p,
        JudgeGate::Reject(v) => panic!("rejected with {:?}", v),
    };
    assert_eq!(prep.main_code, b"int main(){}".to_vec());
    assert_eq!(prep.checker_code, b"checker source".to_vec());
    let v = st.get_judge_finish(
        &req,
        prep,
        "/tmp/job".to_string(),
        CompileResult::Success("".to_string()),
        CompileResult::Success("built".to_string()),
    );
    assert_eq!(v, Verdict::CompleteCompile("built".to_string()));
}

#[test]
fn happy_path_simple_accepts() {
    let mut st = keyed_state();
    start_simple_job(&mut st);
    assert!(st.locked && st.judge.is_some());

    let update = TestCaseUpdateBody {
        uuid: JOB,
        test_uuid: TEST,
        stdin: sealed(3, b"42\n"),
        stdout: sealed(4, b"42\n"),
    };
    let prep = match st.test_case_gate(&update) {
        TestGate::Proceed(p) => p,
        _ => panic!("update was not serviced"),
    };
    assert_eq!(prep.stdin, b"42\n".to_vec());
    assert_eq!(prep.stdout_origin, b"42\n".to_vec());

    let run = clean_meta(40, 900);
    let checker = CheckerResult { score: None, meta: clean_meta(12, 800) };
    let v = judge_test_outcome(&run, Some(checker), TEST);
    assert_eq!(v, Verdict::Accepted(TEST, 12, 800));
}

#[test]
fn wrong_answer_comes_from_the_checker() {
    let run = clean_meta(40, 900);
    let mut checker_meta = clean_meta(12, 800);
    checker_meta.status = Some(RunStatus::RuntimeErr);
    checker_meta.exitcode = Some(1);
    let v = judge_test_outcome(&run, Some(CheckerResult { score: None, meta: checker_meta }), TEST);
    assert_eq!(v, Verdict::WrongAnswer(TEST, 12, 800));
}

#[test]
fn time_limit_is_the_runs_own_verdict() {
    let mut run = clean_meta(5000, 900);
    run.status = Some(RunStatus::TimedOut);
    let v = judge_test_outcome(&run, None, TEST);
    assert_eq!(v, Verdict::TimeLimitExceed(TEST));
}

#[test]
fn runtime_error_reports_the_exit_code() {
    let mut run = clean_meta(10, 900);
    run.status = Some(RunStatus::RuntimeErr);
    run.exitcode = Some(7);
    let v = judge_test_outcome(&run, None, TEST);
    assert_eq!(v, Verdict::RuntimeError(TEST, 7));
}

#[test]
fn died_on_signal_reports_the_signal() {
    let mut run = clean_meta(10, 900);
    run.status = Some(RunStatus::DiedOnSignal);
    run.exitsig = Some(11);
    assert_eq!(judge_test_outcome(&run, None, TEST), Verdict::DiedOnSignal(TEST, 11));
}

#[test]
fn internal_and_unknown_errors_map_through() {
    let mut run = clean_meta(10, 900);
    run.status = Some(RunStatus::InternalErr);
    assert_eq!(judge_test_outcome(&run, None, TEST), Verdict::InternalError(TEST));
    run.status = Some(RunStatus::Unknown);
    assert_eq!(judge_test_outcome(&run, None, TEST), Verdict::UnknownError);
}

#[test]
fn compile_error_leaves_the_session_unlocked() {
    let mut st = keyed_state();
    let req = simple_request();
    let prep = match st.get_judge_gate(&req, &langs()) {
        JudgeGate::Proceed(p) => p,
        JudgeGate::Reject(v) => panic!("rejected with {:?}", v),
    };
    let v = st.get_judge_finish(
        &req,
        prep,
        "/tmp/job".to_string(),
        CompileResult::Success("".to_string()),
        CompileResult::Error("syntax error".to_string()),
    );
    assert_eq!(v, Verdict::CompileError("syntax error".to_string()));
    assert!(!st.locked && st.judge.is_none());

    // a subsequent request must succeed
    start_simple_job(&mut st);
    assert!(st.locked);
}

#[test]
fn a_failed_checker_compile_is_a_general_error() {
    let mut st = keyed_state();
    let req = simple_request();
    let prep = match st.get_judge_gate(&req, &langs()) {
        JudgeGate::Proceed(p) => p,
        JudgeGate::Reject(v) => panic!("rejected with {:?}", v),
    };
    let v = st.get_judge_finish(
        &req,
        prep,
        "/tmp/job".to_string(),
        CompileResult::Error("checker broken".to_string()),
        CompileResult::Success("".to_string()),
    );
    assert_eq!(v, Verdict::GeneralError("checker broken".to_string()));
    assert!(!st.locked);
}

#[test]
fn a_second_request_is_rejected_while_locked() {
    let mut st = keyed_state();
    start_simple_job(&mut st);
    let job_uuid = st.judge.as_ref().unwrap().uuid;

    let second = simple_request();
    match st.get_judge_gate(&second, &langs()) {
        JudgeGate::Reject(v) => assert_eq!(v, Verdict::LockedSlave),
        JudgeGate::Proceed(_) => panic!("locked session serviced a request"),
    }
    // the first job is undisturbed
    assert!(st.locked);
    assert_eq!(st.judge.as_ref().unwrap().uuid, job_uuid);
}

#[test]
fn unknown_languages_are_reported_without_locking() {
    let mut st = keyed_state();
    let mut req = simple_request();
    req.main_lang = 99;
    match st.get_judge_gate(&req, &langs()) {
        JudgeGate::Reject(v) => assert_eq!(v, Verdict::LanguageNotFound),
        JudgeGate::Proceed(_) => panic!("unknown language accepted"),
    }
    assert!(!st.locked);
    st.shared = None;
    let req2 = simple_request();
    match st.get_judge_gate(&req2, &langs()) {
        JudgeGate::Reject(v) => assert_eq!(v, Verdict::GeneralError(String::new())),
        JudgeGate::Proceed(_) => panic!("keyless session accepted a request"),
    }
}

#[test]
fn updates_without_a_job_get_judge_not_found() {
    let st = keyed_state();
    let update = TestCaseUpdateBody {
        uuid: JOB,
        test_uuid: TEST,
        stdin: sealed(1, b"x"),
        stdout: sealed(2, b"x"),
    };
    match st.test_case_gate(&update) {
        TestGate::Reject(v) => assert_eq!(v, Verdict::JudgeNotFound),
        _ => panic!("unlocked session serviced an update"),
    }
}

#[test]
fn updates_for_another_job_get_judge_not_found() {
    let mut st = keyed_state();
    start_simple_job(&mut st);
    let update = TestCaseUpdateBody {
        uuid: JOB + 1,
        test_uuid: TEST,
        stdin: sealed(1, b"x"),
        stdout: sealed(2, b"x"),
    };
    match st.test_case_gate(&update) {
        TestGate::Reject(v) => assert_eq!(v, Verdict::JudgeNotFound),
        _ => panic!("update for a foreign job was serviced"),
    }
}

#[test]
fn test_case_end_unlocks_and_clears_the_job() {
    let mut st = keyed_state();
    start_simple_job(&mut st);
    st.on_test_case_end();
    assert!(!st.locked && st.judge.is_none());
    // the lock mirrors the job at every step of the scenario
    start_simple_job(&mut st);
    assert_eq!(st.locked, st.judge.is_some());
}

#[test]
fn interactive_job_with_a_scored_checker_completes() {
    let mut st = keyed_state();
    let req = JudgeRequestBodyv2 {
        uuid: JOB,
        main_lang: 1,
        main_code: sealed(1, b"solution"),
        checker_lang: 2,
        checker_code: sealed(2, b"checker"),
        time_limit: 1000,
        mem_limit: 65536,
        manager_lang: 3,
        manager_code: sealed(3, b"manager"),
        graders: sealed(4, b"grader tree tar"),
        main_path: "impl/sol.cpp".to_string(),
        object_path: "impl/sol.o".to_string(),
    };
    let prep = match st.get_judge_v2_gate(&req, &langs()) {
        JudgeGateV2::Proceed(p) => p,
        _ => panic!("interactive request was not serviced"),
    };
    assert_eq!(prep.graders, b"grader tree tar".to_vec());
    let v = st.get_judge_v2_finish(
        &req,
        prep,
        "/tmp/job".to_string(),
        CompileResult::Success("made".to_string()),
        CompileResult::Success("".to_string()),
        CompileResult::Success("".to_string()),
        true,
    );
    assert_eq!(v, Verdict::CompleteCompile("made".to_string()));
    let j = st.judge.as_ref().unwrap();
    assert!(j.manager_lang.is_some());
    assert_eq!(j.object_binary, Some("impl/sol.o".to_string()));
    assert_eq!(j.main_binary, "/tmp/job/graders/impl/sol.o");

    let run = clean_meta(300, 5000);
    let checker = CheckerResult { score: Some("0.5".to_string()), meta: clean_meta(20, 640) };
    let v = judge_test_outcome(&run, Some(checker), TEST);
    assert_eq!(v, Verdict::Complete(TEST, "0.5".to_string(), 20, 640));
}

#[test]
fn a_keyless_session_rejects_an_interactive_request() {
    let mut st = State::new();
    let req = JudgeRequestBodyv2 {
        uuid: JOB,
        main_lang: 1,
        main_code: sealed(1, b"s"),
        checker_lang: 2,
        checker_code: sealed(2, b"c"),
        time_limit: 1000,
        mem_limit: 65536,
        manager_lang: 3,
        manager_code: sealed(3, b"m"),
        graders: sealed(4, b"t"),
        main_path: "a".to_string(),
        object_path: "b".to_string(),
    };
    match st.get_judge_v2_gate(&req, &langs()) {
        JudgeGateV2::Reject(v) => assert_eq!(v, Verdict::GeneralError(String::new())),
        JudgeGateV2::Proceed(_) => panic!("keyless session accepted a request"),
    }
    assert!(!st.locked);
}

#[test]
fn a_missing_object_fails_the_interactive_job() {
    let mut st = keyed_state();
    let req = JudgeRequestBodyv2 {
        uuid: JOB,
        main_lang: 1,
        main_code: sealed(1, b"s"),
        checker_lang: 2,
        checker_code: sealed(2, b"c"),
        time_limit: 1000,
        mem_limit: 65536,
        manager_lang: 3,
        manager_code: sealed(3, b"m"),
        graders: sealed(4, b"t"),
        main_path: "a".to_string(),
        object_path: "b".to_string(),
    };
    let prep = match st.get_judge_v2_gate(&req, &langs()) {
        JudgeGateV2::Proceed(p) => p,
        _ => panic!("interactive request was not serviced"),
    };
    let v = st.get_judge_v2_finish(
        &req,
        prep,
        "/tmp/job".to_string(),
        CompileResult::Success("".to_string()),
        CompileResult::Success("".to_string()),
        CompileResult::Success("".to_string()),
        false,
    );
    assert_eq!(v, Verdict::GeneralError("o_path is not exists".to_string()));
    assert!(!st.locked);
}

#[test]
fn an_expired_token_asks_for_an_immediate_reconnect() {
    assert_eq!(on_req_verify_token(Some(false)), Some(Actions::Reconnect(0)));
    assert_eq!(on_req_verify_token(Some(true)), None);
    assert_eq!(on_req_verify_token(None), Some(Actions::Reconnect(5)));
    assert_eq!(action_step(Actions::Reconnect(0)), (LoopControl::ReconnectNow, 0));
}

#[test]
fn handshake_outcomes_drive_the_session() {
    let secret = generate_secret();
    let master = generate_secret();

    let mut st = State::new();
    let r = st.on_handshake(&secret, None);
    assert_eq!(r, Some(Actions::Reconnect(5)));
    assert!(st.shared.is_none());

    let r = st.on_handshake(
        &secret,
        Some(HandshakeResponse {
            result: HandshakeResult::PasswordNotMatched,
            node_id: None,
            server_pubkey: None,
        }),
    );
    assert_eq!(r, Some(Actions::Shutdown));
    assert_eq!(action_step(Actions::Shutdown), (LoopControl::Stop, 0));

    let r = st.on_handshake(
        &secret,
        Some(HandshakeResponse {
            result: HandshakeResult::Success,
            node_id: Some(9),
            server_pubkey: Some(public_key_bytes(&master)),
        }),
    );
    assert_eq!(r, None);
    assert_eq!(st.node_id, 9);
    assert_eq!(st.shared.as_ref().unwrap().len(), 32);

    // a malformed master key counts as a decode failure
    let mut st2 = State::new();
    let r = st2.on_handshake(
        &secret,
        Some(HandshakeResponse {
            result: HandshakeResult::Success,
            node_id: Some(9),
            server_pubkey: Some(vec![1, 2, 3]),
        }),
    );
    assert_eq!(r, Some(Actions::Reconnect(5)));
    assert!(st2.shared.is_none());
}

#[test]
fn the_keepalive_probe_reconnects_on_a_closed_peer() {
    assert_eq!(keepalive_decision(Some(0)), Some(Actions::Reconnect(0)));
    assert_eq!(keepalive_decision(Some(1)), None);
    assert_eq!(keepalive_decision(None), None);
}

#[test]
fn verdicts_follow_the_update_order() {
    let mut st = keyed_state();
    start_simple_job(&mut st);
    let mut verdicts: Vec<Verdict> = Vec::new();
    for (i, code) in [(1u64, 0i32), (2, 7)] {
        let update = TestCaseUpdateBody {
            uuid: JOB,
            test_uuid: TEST + i as u128,
            stdin: sealed(i, b"in"),
            stdout: sealed(i + 10, b"out"),
        };
        match st.test_case_gate(&update) {
            TestGate::Proceed(_) => {},
            _ => panic!("update was not serviced"),
        }
        let mut run = clean_meta(10, 100);
        if code != 0 {
            run.status = Some(RunStatus::RuntimeErr);
            run.exitcode = Some(code);
        }
        let checker = CheckerResult { score: None, meta: clean_meta(5, 50) };
        verdicts.push(judge_test_outcome(&run, Some(checker), update.test_uuid));
    }
    assert_eq!(
        verdicts,
        vec![Verdict::Accepted(TEST + 1, 5, 50), Verdict::RuntimeError(TEST + 2, 7)]
    );
}
