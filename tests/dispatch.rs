use push_gateway::base64::decode_base64;
use push_gateway::blob::DecryptedPayloadBlob;
use push_gateway::error::Error;
use push_gateway::fcm_provider::{classify_response, ErrorReason, FcmProvider, Priority, TransportError};
use push_gateway::noop::NoopProvider;
use push_gateway::payload::{MessagePayload, ENCRYPTED_FLAG};

const HI_THERE: &str = "eyJ0aXRsZSI6IkhpIiwiYm9keSI6IlRoZXJlIn0=";

fn payload(flags: u32, blob: &str) -> MessagePayload {
    MessagePayload { topic: Some("topic".to_string()), flags, blob: blob.to_string() }
}

fn same_payload(a: &MessagePayload, b: &MessagePayload) -> bool {
    a.topic == b.topic && a.flags == b.flags && a.blob == b.blob
}

#[test]
fn encrypted_payload_gives_data_only_message() {
    let provider = FcmProvider::new("key1".to_string());
    let p = payload(ENCRYPTED_FLAG, "c2VjcmV0");
    let m = provider.build_message("tok1".to_string(), p.clone()).unwrap();
    assert_eq!(m.api_key, "key1");
    assert_eq!(m.to, "tok1");
    assert!(same_payload(&m.data, &p));
    assert_eq!(m.priority, Some(Priority::High));
    assert_eq!(m.content_available, Some(true));
    assert!(m.notification.is_none());
}

#[test]
fn encrypted_payload_is_not_decoded() {
    let provider = FcmProvider::new("key1".to_string());
    let p = payload(ENCRYPTED_FLAG | 2, "%%% not base64 %%%");
    let m = provider.build_message("tok1".to_string(), p).unwrap();
    assert!(m.notification.is_none());
    assert_eq!(m.priority, Some(Priority::High));
}

#[test]
fn plaintext_payload_gives_visible_message() {
    let provider = FcmProvider::new("key2".to_string());
    let p = payload(0, HI_THERE);
    let m = provider.build_message("tok2".to_string(), p.clone()).unwrap();
    let n = m.notification.unwrap();
    assert_eq!(n.title, "Hi");
    assert_eq!(n.body, "There");
    assert!(same_payload(&m.data, &p));
    assert_eq!(m.to, "tok2");
    assert_eq!(m.priority, None);
    assert_eq!(m.content_available, None);
}

#[test]
fn plaintext_with_bad_base64_fails_to_decode() {
    let provider = FcmProvider::new("key".to_string());
    let r = provider.build_message("tok".to_string(), payload(0, "not base64!"));
    assert!(matches!(r, Err(Error::PayloadDecode)));
    let r = provider.build_message("tok".to_string(), payload(0, "eyJ0aXRsZSI6IkhpIn0"));
    assert!(matches!(r, Err(Error::PayloadDecode)));
}

#[test]
fn plaintext_without_body_fails_to_decode() {
    let provider = FcmProvider::new("key".to_string());
    let r = provider.build_message("tok".to_string(), payload(0, "eyJ0aXRsZSI6IkhpIn0="));
    assert!(matches!(r, Err(Error::PayloadDecode)));
}

#[test]
fn plaintext_that_is_not_json_fails_to_decode() {
    let r = DecryptedPayloadBlob::from_base64_encoded("bm90IGpzb24=".to_string());
    assert!(matches!(r, Err(Error::PayloadDecode)));
}

#[test]
fn null_title_does_not_count() {
    let r = DecryptedPayloadBlob::from_base64_encoded("eyJ0aXRsZSI6bnVsbCwiYm9keSI6IkIifQ==".to_string());
    assert!(matches!(r, Err(Error::PayloadDecode)));
}

#[test]
fn blob_with_whitespace_escapes_and_other_members() {
    let b = DecryptedPayloadBlob::from_base64_encoded(
        "IHsgInRvcGljIiA6IG51bGwsICJ0aXRsZSIgOiAiYVwiYiIsICJmbGFnIjogdHJ1ZSwgImJvZHkiOiJ4XG55IiB9IA=="
            .to_string(),
    )
    .unwrap();
    assert_eq!(b.title, "a\"b");
    assert_eq!(b.body, "x\ny");
}

#[test]
fn blob_keeps_first_title() {
    let b = DecryptedPayloadBlob::from_base64_encoded(
        "eyJ0aXRsZSI6ImZpcnN0IiwidGl0bGUiOiJzZWNvbmQiLCJib2R5IjoiQiJ9".to_string(),
    )
    .unwrap();
    assert_eq!(b.title, "first");
    assert_eq!(b.body, "B");
}

#[test]
fn blob_with_non_ascii_text() {
    let b = DecryptedPayloadBlob::from_base64_encoded("eyJ0aXRsZSI6ImNhZsOpIiwiYm9keSI6IsO8YmVyIn0=".to_string())
        .unwrap();
    assert_eq!(b.title, "caf\u{e9}");
    assert_eq!(b.body, "\u{fc}ber");
}

#[test]
fn blob_with_invalid_utf8_fails_to_decode() {
    let r = DecryptedPayloadBlob::from_base64_encoded("eyJ0aXRsZSI6Iv8iLCJib2R5IjoiYiJ9".to_string());
    assert!(matches!(r, Err(Error::PayloadDecode)));
}

#[test]
fn base64_exact_values() {
    assert_eq!(decode_base64(b"TWFu"), Some(b"Man".to_vec()));
    assert_eq!(decode_base64(b"TWE="), Some(b"Ma".to_vec()));
    assert_eq!(decode_base64(b"TQ=="), Some(b"M".to_vec()));
    assert_eq!(decode_base64(b""), Some(Vec::new()));
    assert_eq!(decode_base64(b"+/+/"), Some(vec![251, 255, 191]));
}

#[test]
fn base64_rejects_malformed_text() {
    assert_eq!(decode_base64(b"TWF"), None);
    assert_eq!(decode_base64(b"TR=="), None);
    assert_eq!(decode_base64(b"TQ==TWFu"), None);
    assert_eq!(decode_base64(b"T===") , None);
    assert_eq!(decode_base64(b"TW-u"), None);
}

#[test]
fn backend_reasons_are_classified() {
    assert!(matches!(classify_response(Ok(None)), Ok(())));
    match classify_response(Ok(Some(ErrorReason::MissingRegistration))) {
        Err(Error::BadDeviceToken(m)) => assert_eq!(m, "Missing registration for token"),
        other => panic!("unexpected {:?}", other),
    }
    match classify_response(Ok(Some(ErrorReason::InvalidRegistration))) {
        Err(Error::BadDeviceToken(m)) => assert_eq!(m, "Invalid token registration"),
        other => panic!("unexpected {:?}", other),
    }
    match classify_response(Ok(Some(ErrorReason::NotRegistered))) {
        Err(Error::BadDeviceToken(m)) => assert_eq!(m, "Token is not registered"),
        other => panic!("unexpected {:?}", other),
    }
    assert!(matches!(
        classify_response(Ok(Some(ErrorReason::InvalidApnsCredential))),
        Err(Error::BadApnsCredentials)
    ));
    match classify_response(Ok(Some(ErrorReason::Other("MessageTooBig".to_string())))) {
        Err(Error::BackendResponse(m)) => assert_eq!(m, "MessageTooBig"),
        other => panic!("unexpected {:?}", other),
    }
}

#[test]
fn transport_failures_are_classified() {
    assert!(matches!(classify_response(Err(TransportError::Unauthorized)), Err(Error::BadFcmApiKey)));
    match classify_response(Err(TransportError::Other("ServerError".to_string()))) {
        Err(Error::BackendTransport(m)) => assert_eq!(m, "ServerError"),
        other => panic!("unexpected {:?}", other),
    }
}

#[test]
fn noop_records_payloads_in_order() {
    let first = payload(0, "one");
    let second = payload(ENCRYPTED_FLAG, "two");
    let abc = "abc".to_string();
    let mut a = NoopProvider::new();
    let mut b = NoopProvider::new();
    for provider in [&mut a, &mut b] {
        assert!(provider.notifications_for(&abc).is_none());
        provider.send_notification(abc.clone(), first.clone());
        provider.send_notification(abc.clone(), second.clone());
        let got = provider.notifications_for(&abc).unwrap();
        assert_eq!(got.len(), 2);
        assert!(same_payload(&got[0], &first));
        assert!(same_payload(&got[1], &second));
        assert!(provider.notifications_for(&"other".to_string()).is_none());
    }
}

#[test]
fn noop_bootstrap_gives_empty_record_once() {
    let mut n = NoopProvider::new();
    let t = "t".to_string();
    n.bootstrap(t.clone());
    assert_eq!(n.notifications_for(&t).unwrap().len(), 0);
    n.send_notification(t.clone(), payload(0, "x"));
    n.bootstrap(t.clone());
    assert_eq!(n.notifications_for(&t).unwrap().len(), 1);
}

#[test]
fn fcm_provider_clone_equals_original() {
    let a = FcmProvider::new("key1".to_string());
    let b = a.clone();
    assert!(a == b);
    assert_eq!(b.api_key(), "key1");
    assert!(!std::ptr::eq(a.client(), b.client()));
    let mut c = FcmProvider::new("other".to_string());
    assert!(a != c);
    c.clone_from(&a);
    assert!(a == c);
}

#[test]
fn payload_encryption_flag() {
    assert!(payload(ENCRYPTED_FLAG, "").is_encrypted());
    assert!(payload(3, "").is_encrypted());
    assert!(!payload(2, "").is_encrypted());
}

#[test]
fn fcm_provider_describes_its_key() {
    let a = FcmProvider::new("key1".to_string());
    assert_eq!(a.describe(), "[FcmProvider] api_key = key1");
}

#[test]
fn noop_clone_and_default() {
    let mut n = NoopProvider::default();
    assert!(n.notifications_for(&"a".to_string()).is_none());
    n.send_notification("a".to_string(), payload(0, "x"));
    n.send_notification("b".to_string(), payload(1, "y"));
    let c = n.clone();
    n.send_notification("a".to_string(), payload(0, "z"));
    assert_eq!(c.notifications_for(&"a".to_string()).unwrap().len(), 1);
    assert_eq!(n.notifications_for(&"a".to_string()).unwrap().len(), 2);
    let got = c.notifications_for(&"b".to_string()).unwrap();
    assert!(same_payload(&got[0], &payload(1, "y")));
}

#[test]
fn noop_equality_is_over_recorded_state() {
    let x = payload(0, "x");
    let y = payload(ENCRYPTED_FLAG, "y");
    let mut a = NoopProvider::new();
    let mut b = NoopProvider::new();
    assert!(a == b);
    a.send_notification("a".to_string(), x.clone());
    assert!(a != b);
    a.send_notification("b".to_string(), y.clone());
    b.send_notification("b".to_string(), y.clone());
    b.send_notification("a".to_string(), x.clone());
    assert!(a == b);
    a.send_notification("a".to_string(), y.clone());
    b.send_notification("a".to_string(), x.clone());
    assert!(a != b);
    assert!(a.clone() == a);
}

#[test]
fn payload_equality_compares_every_field() {
    let p = payload(1, "blob");
    assert_eq!(p, p.clone());
    assert_ne!(p, payload(0, "blob"));
    assert_ne!(p, payload(1, "other"));
    let mut q = p.clone();
    q.topic = None;
    assert_ne!(p, q);
}

fn decoded(b64: &str) -> Result<DecryptedPayloadBlob, Error> {
    DecryptedPayloadBlob::from_base64_encoded(b64.to_string())
}

#[test]
fn blob_with_unicode_escapes() {
    let b = decoded("eyJ0aXRsZSI6ImFcdTAwMDFiIiwiYm9keSI6ImNhZlx1MDBlOSBcdTIwQUMifQ==").unwrap();
    assert_eq!(b.title, "a\u{1}b");
    assert_eq!(b.body, "caf\u{e9} \u{20ac}");
}

#[test]
fn blob_with_surrogate_pair_escape() {
    let b = decoded("eyJ0aXRsZSI6Ilx1ZDgzZFx1ZGUwMCIsImJvZHkiOiJ4In0=").unwrap();
    assert_eq!(b.title, "\u{1f600}");
    assert_eq!(b.body, "x");
}

#[test]
fn blob_with_lone_surrogate_or_bad_hex_fails_to_decode() {
    assert!(matches!(decoded("eyJ0aXRsZSI6Ilx1ZDgzZCIsImJvZHkiOiJ4In0="), Err(Error::PayloadDecode)));
    assert!(matches!(decoded("eyJ0aXRsZSI6Ilx1ZGUwMCIsImJvZHkiOiJ4In0="), Err(Error::PayloadDecode)));
    assert!(matches!(decoded("eyJ0aXRsZSI6Ilx1MDBnMSIsImJvZHkiOiJ4In0="), Err(Error::PayloadDecode)));
}

#[test]
fn blob_with_raw_control_character_fails_to_decode() {
    assert!(matches!(decoded("eyJ0aXRsZSI6ImEBYiIsImJvZHkiOiJCIn0="), Err(Error::PayloadDecode)));
}

#[test]
fn blob_skips_numbers_arrays_and_objects() {
    let b = decoded(
        "eyJiYWRnZSI6MSwidGl0bGUiOiJUIiwiZXh0cmEiOnsiYSI6WzEsLTIuNWUrMyx7ImIiOm51bGx9XSwiYyI6W119LCJuIjotMC4yNUUyLCJib2R5IjoiQiIsImUiOnt9fQ==",
    )
    .unwrap();
    assert_eq!(b.title, "T");
    assert_eq!(b.body, "B");
}

#[test]
fn blob_with_malformed_skipped_value_fails_to_decode() {
    assert!(matches!(decoded("eyJ0aXRsZSI6IlQiLCJib2R5IjoiQiIsIm4iOjAxfQ=="), Err(Error::PayloadDecode)));
    assert!(matches!(decoded("eyJ0aXRsZSI6IlQiLCJib2R5IjoiQiIsIm4iOjEufQ=="), Err(Error::PayloadDecode)));
    assert!(matches!(decoded("eyJ0aXRsZSI6IlQiLCJib2R5IjoiQiIsImEiOlsxLDJ9"), Err(Error::PayloadDecode)));
}

#[test]
fn blob_with_invalid_utf8_anywhere_fails_to_decode() {
    assert!(matches!(decoded("eyL/IjoxLCJ0aXRsZSI6IlQiLCJib2R5IjoiQiJ9"), Err(Error::PayloadDecode)));
}
