use pms_slave::verdict::Verdict;
use pms_slave::wire::{
    decode_bool, decode_handshake_response, decode_judge_request, decode_judge_request_v2,
    decode_test_case_end, decode_test_case_update, encode_bool, encode_handshake_request,
    encode_handshake_response, encode_judge_request, encode_judge_request_v2,
    encode_judge_state_update, encode_test_case_end, encode_test_case_update, encode_verdict,
    make_frame, parse_frame, Command, EncPayload, HandshakeRequest, HandshakeResponse,
    HandshakeResult, JudgeRequestBody, JudgeRequestBodyv2, TestCaseUpdateBody,
};

fn payload(nonce: u64, data: &[u8]) -> EncPayload {
    EncPayload { nonce, data: data.to_vec() }
}

#[test]
fn frames_round_trip() {
    let body = b"some body".to_vec();
    let framed = make_frame(Command::GetJudge, &body);
    let (cmd, body2) = parse_frame(&framed).unwrap();
    assert_eq!(cmd, Command::GetJudge);
    assert_eq!(body2, body);
}

#[test]
fn an_unassigned_command_byte_is_unknown() {
    let mut framed = make_frame(Command::TestCaseEnd, b"x");
    framed[4] = 200;
    let (cmd, body) = parse_frame(&framed).unwrap();
    assert_eq!(cmd, Command::Unknown);
    assert_eq!(body, b"x".to_vec());
}

#[test]
fn bad_frames_are_rejected() {
    assert!(parse_frame(&[]).is_none());
    let mut framed = make_frame(Command::Handshake, b"abc");
    framed[0] = 0;
    assert!(parse_frame(&framed).is_none());
    let mut truncated = make_frame(Command::Handshake, b"abc");
    truncated.pop();
    assert!(parse_frame(&truncated).is_none());
}

#[test]
fn bool_bodies_round_trip() {
    assert_eq!(decode_bool(&encode_bool(true)), Some(true));
    assert_eq!(decode_bool(&encode_bool(false)), Some(false));
    assert_eq!(decode_bool(&[2]), None);
    assert_eq!(decode_bool(&[]), None);
}

#[test]
fn handshake_bodies_round_trip() {
    let req = HandshakeRequest { client_pubkey: vec![1, 2, 3], pass: vec![9; 32] };
    let enc = encode_handshake_request(&req);
    assert_eq!(enc.len(), 8 + 3 + 8 + 32);

    let res = HandshakeResponse {
        result: HandshakeResult::Success,
        node_id: Some(42),
        server_pubkey: Some(vec![4, 5]),
    };
    let enc = encode_handshake_response(&res);
    let dec = decode_handshake_response(&enc).unwrap();
    assert_eq!(dec.result, HandshakeResult::Success);
    assert_eq!(dec.node_id, Some(42));
    assert_eq!(dec.server_pubkey, Some(vec![4, 5]));

    let res2 = HandshakeResponse {
        result: HandshakeResult::PasswordNotMatched,
        node_id: None,
        server_pubkey: None,
    };
    let dec2 = decode_handshake_response(&encode_handshake_response(&res2)).unwrap();
    assert_eq!(dec2.result, HandshakeResult::PasswordNotMatched);
    assert_eq!(dec2.node_id, None);
    assert_eq!(dec2.server_pubkey, None);

    assert!(decode_handshake_response(&[7]).is_none());
}

#[test]
fn judge_requests_round_trip() {
    let req = JudgeRequestBody {
        uuid: 0xdead_beef,
        main_lang: 3,
        main_code: payload(1, b"main code"),
        checker_lang: 4,
        checker_code: payload(2, b"checker code"),
        time_limit: 1000,
        mem_limit: 65536,
    };
    let dec = decode_judge_request(&encode_judge_request(&req)).unwrap();
    assert_eq!(dec.uuid, req.uuid);
    assert_eq!(dec.main_lang, req.main_lang);
    assert_eq!(dec.main_code, req.main_code);
    assert_eq!(dec.checker_lang, req.checker_lang);
    assert_eq!(dec.checker_code, req.checker_code);
    assert_eq!(dec.time_limit, req.time_limit);
    assert_eq!(dec.mem_limit, req.mem_limit);
    assert!(decode_judge_request(&[0, 1]).is_none());
}

#[test]
fn interactive_judge_requests_round_trip() {
    let req = JudgeRequestBodyv2 {
        uuid: 77,
        main_lang: 3,
        main_code: payload(1, b"m"),
        checker_lang: 4,
        checker_code: payload(2, b"c"),
        time_limit: 2000,
        mem_limit: 1024,
        manager_lang: 5,
        manager_code: payload(3, b"g"),
        graders: payload(4, b"tar bytes"),
        main_path: "impl/sol.cpp".to_string(),
        object_path: "impl/sol.o".to_string(),
    };
    let dec = decode_judge_request_v2(&encode_judge_request_v2(&req)).unwrap();
    assert_eq!(dec.uuid, 77);
    assert_eq!(dec.manager_lang, 5);
    assert_eq!(dec.graders, payload(4, b"tar bytes"));
    assert_eq!(dec.main_path, "impl/sol.cpp");
    assert_eq!(dec.object_path, "impl/sol.o");
}

#[test]
fn test_case_bodies_round_trip() {
    let t = TestCaseUpdateBody {
        uuid: 10,
        test_uuid: 11,
        stdin: payload(1, b"42\n"),
        stdout: payload(2, b"42\n"),
    };
    let dec = decode_test_case_update(&encode_test_case_update(&t)).unwrap();
    assert_eq!(dec.uuid, 10);
    assert_eq!(dec.test_uuid, 11);
    assert_eq!(dec.stdin, payload(1, b"42\n"));
    assert_eq!(dec.stdout, payload(2, b"42\n"));

    assert_eq!(decode_test_case_end(&encode_test_case_end(99)), Some(99));
    assert_eq!(decode_test_case_end(&[1, 2]), None);
}

#[test]
fn verdicts_encode_with_their_tags() {
    assert_eq!(encode_verdict(&Verdict::DoCompile), vec![0]);
    assert_eq!(encode_verdict(&Verdict::UnknownError), vec![10]);
    assert_eq!(encode_verdict(&Verdict::LockedSlave), vec![12]);
    let enc = encode_verdict(&Verdict::RuntimeError(1, 7));
    assert_eq!(enc[0], 7);
    assert_eq!(enc.len(), 1 + 16 + 4);
    assert_eq!(&enc[17..], &[0, 0, 0, 7]);
    let acc = encode_verdict(&Verdict::Accepted(1, 2, 3));
    assert_eq!(acc[0], 3);
    assert_eq!(acc.len(), 1 + 16 + 8 + 8);
}

#[test]
fn the_update_body_carries_identity_job_and_verdict() {
    let out = encode_judge_state_update(5, &[1, 2], 9, &Verdict::DoCompile);
    // node id, then the two key bytes length-prefixed, the job id, the verdict
    assert_eq!(out, vec![0, 0, 0, 5, 0, 0, 0, 0, 0, 0, 0, 2, 1, 2, 0, 0, 0, 0, 0, 0, 0, 0, 0, 0, 0, 0, 0, 0, 0, 9, 0]);
}
