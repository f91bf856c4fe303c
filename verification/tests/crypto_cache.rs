use pms_slave::cache::{grader_cache_key, make_cache_entry, parse_cache_entry};
use pms_slave::crypto::{
    derive_session_key, diffie_hellman_bytes, encrypt_then_decrypt, generate_secret,
    parse_public_key, public_key_bytes, xor_stream,
};
use pms_slave::language::CompileResult;
use pms_slave::resultfile::parse_result_file;

#[test]
fn both_peers_derive_the_same_session_key() {
    let worker = generate_secret();
    let master = generate_secret();
    let worker_pub = public_key_bytes(&worker);
    let master_pub = public_key_bytes(&master);
    let worker_view = parse_public_key(&worker_pub).unwrap();
    let master_view = parse_public_key(&master_pub).unwrap();
    let s1 = diffie_hellman_bytes(&worker, &master_view);
    let s2 = diffie_hellman_bytes(&master, &worker_view);
    assert_eq!(s1, s2);
    assert_eq!(derive_session_key(&s1), derive_session_key(&s2));
    assert_eq!(derive_session_key(&s1).len(), 32);
    assert_ne!(derive_session_key(&s1), s1);
}

#[test]
fn a_garbage_public_key_is_rejected() {
    assert!(parse_public_key(&[1, 2, 3]).is_none());
}

#[test]
fn payloads_round_trip_through_the_cipher() {
    let key = vec![9u8; 32];
    let data = b"42\nthe whole test input".to_vec();
    assert_eq!(encrypt_then_decrypt(&key, 5, &data), data);
    let c = xor_stream(&key, 5, &data);
    assert_ne!(c, data);
    let p = xor_stream(&key, 5, &c);
    assert_eq!(p, data);
}

#[test]
fn different_nonces_give_different_ciphertexts() {
    let key = vec![7u8; 32];
    let data = vec![0u8; 40];
    assert_ne!(xor_stream(&key, 1, &data), xor_stream(&key, 2, &data));
}

#[test]
fn the_cache_key_is_both_digests() {
    let grader_hash = vec![0xabu8; 32];
    let k1 = grader_cache_key(&grader_hash, b"source a");
    let k2 = grader_cache_key(&grader_hash, b"source b");
    assert_eq!(k1.len(), 64);
    assert_eq!(&k1[..32], &grader_hash[..]);
    assert_eq!(k1, grader_cache_key(&grader_hash, b"source a"));
    assert_ne!(&k1[32..], &k2[32..]);
}

#[test]
fn cache_records_round_trip() {
    let result = CompileResult::Success("warnings: none".to_string());
    let raw = vec![0u8, 1, 2, 250, 251];
    let entry = make_cache_entry(&result, &raw);
    let (res2, raw2) = parse_cache_entry(&entry).unwrap();
    assert_eq!(res2, result);
    assert_eq!(raw2, raw);

    let failed = CompileResult::Error("boom".to_string());
    let entry2 = make_cache_entry(&failed, &[]);
    let (res3, raw3) = parse_cache_entry(&entry2).unwrap();
    assert_eq!(res3, failed);
    assert!(raw3.is_empty());
}

#[test]
fn a_corrupt_cache_record_is_a_miss() {
    assert!(parse_cache_entry(&[]).is_none());
    assert!(parse_cache_entry(&[9, 0, 0]).is_none());
    let mut entry = make_cache_entry(&CompileResult::Success("s".to_string()), b"xy");
    entry.pop();
    assert!(parse_cache_entry(&entry).is_none());
}

#[test]
fn result_files_parse_exactly() {
    let r = parse_result_file("outcome = \"ok\"\npoints = \"0.5\"\n").unwrap();
    assert_eq!(r.outcome, "ok");
    assert_eq!(r.points, Some("0.5".to_string()));

    let r2 = parse_result_file("outcome = \"translate:wrong\"").unwrap();
    assert_eq!(r2.outcome, "translate:wrong");
    assert_eq!(r2.points, None);

    let r3 = parse_result_file("  outcome\t=  \"ok\"  \ncomment = \"ignored\"\n").unwrap();
    assert_eq!(r3.outcome, "ok");
}

#[test]
fn bad_result_files_are_rejected() {
    assert!(parse_result_file("points = \"1\"\n").is_none());
    assert!(parse_result_file("outcome = \"a\"\noutcome = \"b\"\n").is_none());
    assert!(parse_result_file("outcome = ok\n").is_none());
    assert!(parse_result_file("just text\n").is_none());
    assert!(parse_result_file("outcome = \"a\\\"b\"\n").is_none());
}
