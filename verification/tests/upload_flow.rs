use drift::engine::Registry;
use drift::ErrorCode;

const HELLO_DIGEST: &str = "sha256:2cf24dba5fb0a30e26e83b2ac5b9e29e1b161e5c1fa7425e73043362938b9824";

#[test]
fn push_pull_round_trip() {
    let mut reg = Registry::new(1024 * 1024);
    let id = reg.start_upload("lib/app", 100).unwrap();

    let offset = reg.upload_chunk(&id, None, b"hello".to_vec(), 101).unwrap();
    assert_eq!(offset, 5);

    let digest = reg.complete_upload(&id, HELLO_DIGEST, Vec::new(), 102).unwrap();
    assert_eq!(digest, HELLO_DIGEST);

    let data = reg.get_blob(HELLO_DIGEST).unwrap();
    assert_eq!(data.as_slice(), b"hello");
    assert_eq!(reg.head_blob(HELLO_DIGEST).unwrap(), 5);
}

#[test]
fn chunks_accumulate_in_order() {
    let mut reg = Registry::new(1024);
    let id = reg.start_upload("r", 0).unwrap();
    assert_eq!(reg.upload_chunk(&id, Some(0), b"he".to_vec(), 1).unwrap(), 2);
    assert_eq!(reg.upload_chunk(&id, Some(2), b"llo".to_vec(), 2).unwrap(), 5);
    let digest = reg.complete_upload(&id, HELLO_DIGEST, Vec::new(), 3).unwrap();
    assert_eq!(digest, HELLO_DIGEST);
    assert_eq!(reg.get_blob(HELLO_DIGEST).unwrap().as_slice(), b"hello");
}

#[test]
fn commit_with_trailing_body() {
    let mut reg = Registry::new(1024);
    let id = reg.start_upload("r", 0).unwrap();
    assert_eq!(reg.upload_chunk(&id, None, b"hel".to_vec(), 1).unwrap(), 3);
    let digest = reg.complete_upload(&id, HELLO_DIGEST, b"lo".to_vec(), 2).unwrap();
    assert_eq!(digest, HELLO_DIGEST);
}

#[test]
fn digest_mismatch_creates_no_blob() {
    let mut reg = Registry::new(1024);
    let id = reg.start_upload("r", 0).unwrap();
    reg.upload_chunk(&id, None, b"hi".to_vec(), 1).unwrap();
    let wrong = "sha256:0000000000000000000000000000000000000000000000000000000000000000";
    let err = reg.complete_upload(&id, wrong, Vec::new(), 2).unwrap_err();
    assert_eq!(err, ErrorCode::DigestInvalid);
    assert_eq!(reg.get_blob(wrong).unwrap_err(), ErrorCode::BlobUnknown);
    // the session stays receiving, so the client may go on
    assert_eq!(reg.get_upload_status(&id).unwrap(), 2);
}

#[test]
fn wrong_range_start_leaves_offset_unchanged() {
    let mut reg = Registry::new(1024);
    let id = reg.start_upload("r", 0).unwrap();
    reg.upload_chunk(&id, Some(0), b"ab".to_vec(), 1).unwrap();
    let err = reg.upload_chunk(&id, Some(5), b"cd".to_vec(), 2).unwrap_err();
    assert_eq!(err, ErrorCode::RangeInvalid);
    assert_eq!(reg.get_upload_status(&id).unwrap(), 2);
}

#[test]
fn cancel_is_idempotent() {
    let mut reg = Registry::new(1024);
    let id = reg.start_upload("r", 0).unwrap();
    reg.cancel_upload(&id);
    reg.cancel_upload(&id);
    assert_eq!(reg.get_upload_status(&id).unwrap_err(), ErrorCode::BlobUploadUnknown);
}

#[test]
fn unknown_session_is_reported() {
    let mut reg = Registry::new(1024);
    assert_eq!(
        reg.upload_chunk("no-such-id", None, b"x".to_vec(), 1).unwrap_err(),
        ErrorCode::BlobUploadUnknown
    );
    assert_eq!(
        reg.complete_upload("no-such-id", HELLO_DIGEST, Vec::new(), 1).unwrap_err(),
        ErrorCode::BlobUploadUnknown
    );
}

#[test]
fn size_cap_exact_and_one_over() {
    let mut reg = Registry::new(5);
    let id = reg.start_upload("r", 0).unwrap();
    assert_eq!(reg.upload_chunk(&id, None, b"hello".to_vec(), 1).unwrap(), 5);
    let digest = reg.complete_upload(&id, HELLO_DIGEST, Vec::new(), 2).unwrap();
    assert_eq!(digest, HELLO_DIGEST);

    let mut reg2 = Registry::new(5);
    let id2 = reg2.start_upload("r", 0).unwrap();
    assert_eq!(
        reg2.upload_chunk(&id2, None, b"hello!".to_vec(), 1).unwrap_err(),
        ErrorCode::SizeInvalid
    );
}

#[test]
fn monolithic_upload() {
    let mut reg = Registry::new(1024);
    let digest = reg.upload_monolithic("r", HELLO_DIGEST, b"hello".to_vec(), 7).unwrap();
    assert_eq!(digest, HELLO_DIGEST);
    assert_eq!(reg.get_blob(HELLO_DIGEST).unwrap().as_slice(), b"hello");

    let wrong = "sha256:0000000000000000000000000000000000000000000000000000000000000000";
    let mut reg2 = Registry::new(1024);
    assert_eq!(
        reg2.upload_monolithic("r", wrong, b"hello".to_vec(), 7).unwrap_err(),
        ErrorCode::DigestInvalid
    );
}

#[test]
fn invalid_repo_name_is_rejected() {
    let mut reg = Registry::new(1024);
    assert_eq!(reg.start_upload("Bad/Name", 0).unwrap_err(), ErrorCode::NameInvalid);
    assert_eq!(reg.start_upload("", 0).unwrap_err(), ErrorCode::NameInvalid);
    assert!(reg.start_upload("lib/app", 0).is_ok());
}

#[test]
fn committed_session_refuses_more_bytes() {
    let mut reg = Registry::new(1024);
    let id = reg.start_upload("r", 0).unwrap();
    reg.upload_chunk(&id, None, b"hello".to_vec(), 1).unwrap();
    reg.complete_upload(&id, HELLO_DIGEST, Vec::new(), 2).unwrap();
    assert_eq!(
        reg.upload_chunk(&id, None, b"more".to_vec(), 3).unwrap_err(),
        ErrorCode::BlobUploadInvalid
    );
}

#[test]
fn invalid_claimed_digest_format() {
    let mut reg = Registry::new(1024);
    let id = reg.start_upload("r", 0).unwrap();
    reg.upload_chunk(&id, None, b"hello".to_vec(), 1).unwrap();
    assert_eq!(
        reg.complete_upload(&id, "sha256:XYZ", Vec::new(), 2).unwrap_err(),
        ErrorCode::DigestInvalid
    );
}

#[test]
fn blob_delete_then_missing() {
    let mut reg = Registry::new(1024);
    reg.upload_monolithic("r", HELLO_DIGEST, b"hello".to_vec(), 1).unwrap();
    reg.delete_blob(HELLO_DIGEST).unwrap();
    assert_eq!(reg.get_blob(HELLO_DIGEST).unwrap_err(), ErrorCode::BlobUnknown);
    // deleting an absent blob is still success
    reg.delete_blob(HELLO_DIGEST).unwrap();
}

#[test]
fn idle_sessions_expire() {
    let mut reg = Registry::new(1024);
    let id = reg.start_upload("r", 1000).unwrap();
    // not idle for the full hour yet
    reg.expire_idle_sessions(1000 + 3599, 3600);
    assert!(reg.get_upload_status(&id).is_ok());
    reg.expire_idle_sessions(1000 + 3600, 3600);
    assert_eq!(reg.get_upload_status(&id).unwrap_err(), ErrorCode::BlobUploadUnknown);
    assert_eq!(
        reg.upload_chunk(&id, None, b"x".to_vec(), 5000).unwrap_err(),
        ErrorCode::BlobUploadInvalid
    );
}

#[test]
fn activity_defers_expiry() {
    let mut reg = Registry::new(1024);
    let id = reg.start_upload("r", 1000).unwrap();
    reg.upload_chunk(&id, None, b"ab".to_vec(), 3000).unwrap();
    // idle time counts from the last chunk, not from the start
    reg.expire_idle_sessions(1000 + 3600, 3600);
    assert_eq!(reg.get_upload_status(&id).unwrap(), 2);
}
