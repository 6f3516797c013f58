use transporter::error::{ScottyError, TransporterError};
use transporter::scotty::{
    BeamUpdateRequest, LedgerRequest, Retry, RetryDecision, Scotty, MAX_ATTEMPTS, TIME_TO_SLEEP,
};
use transporter::text::decimal_text;

#[test]
fn ledger_addresses_and_bodies() {
    let scotty = Scotty::new("http://ledger".to_string());
    match scotty.file_beam_start(12, "./a.log".to_string()) {
        LedgerRequest::BeginFile { url, body } => {
            assert_eq!(url, "http://ledger/files");
            assert_eq!(body.file_name, "./a.log");
            assert_eq!(body.beam_id, 12);
        }
        _ => panic!("wrong request"),
    }
    match scotty.file_beam_end("f1", None, Some(3), Some("abc".to_string()), Some(9)) {
        LedgerRequest::EndFile { url, body } => {
            assert_eq!(url, "http://ledger/files/f1");
            assert!(body.success);
            assert_eq!(body.error, "");
            assert_eq!(body.size, Some(3));
            assert_eq!(body.checksum.as_deref(), Some("abc"));
            assert_eq!(body.mtime, Some(9));
        }
        _ => panic!("wrong request"),
    }
    match scotty.file_beam_end("f2", Some("broken".to_string()), None, None, None) {
        LedgerRequest::EndFile { body, .. } => {
            assert!(!body.success);
            assert_eq!(body.error, "broken");
        }
        _ => panic!("wrong request"),
    }
    let request = scotty.complete_beam(4711, None);
    assert!(!request.is_post());
    match request {
        LedgerRequest::EndBeam { url, body } => {
            assert_eq!(url, "http://ledger/beams/4711");
            assert!(body.beam.completed);
            assert!(body.beam.error.is_none());
        }
        _ => panic!("wrong request"),
    }
    assert!(scotty.file_beam_start(1, String::new()).is_post());
}

#[test]
fn beam_update_request() {
    let r = BeamUpdateRequest::new(true, Some("e".to_string()));
    assert!(r.beam.completed);
    assert_eq!(r.beam.error.as_deref(), Some("e"));
}

#[test]
fn retry_budget() {
    assert_eq!(TIME_TO_SLEEP, 5);
    assert_eq!(MAX_ATTEMPTS, 2400);
}

#[test]
fn unavailable_then_success() {
    for n in [0u64, 1, 3, 10] {
        let mut retry = Retry::new();
        let mut waits = 0;
        let mut outcome = None;
        let responses: Vec<u16> = (0..n).map(|i| if i % 2 == 0 { 502 } else { 504 }).chain([200]).collect();
        for status in responses {
            assert!(retry.may_attempt());
            match retry.on_status(status) {
                RetryDecision::Wait(s) => {
                    assert_eq!(s, 5);
                    waits += 1;
                }
                d => {
                    outcome = Some(d);
                    break;
                }
            }
        }
        assert_eq!(outcome, Some(RetryDecision::Success));
        assert_eq!(waits, n);
    }
}

#[test]
fn unavailable_until_the_budget_is_spent() {
    let mut retry = Retry::new();
    let mut attempts = 0;
    let mut waits = 0;
    let outcome = loop {
        assert!(retry.may_attempt());
        attempts += 1;
        match retry.on_status(502) {
            RetryDecision::Wait(_) => waits += 1,
            d => break d,
        }
    };
    assert_eq!(outcome, RetryDecision::GiveUp);
    assert_eq!(attempts, MAX_ATTEMPTS);
    assert_eq!(waits, MAX_ATTEMPTS - 1);
    assert!(!retry.may_attempt());
}

#[test]
fn other_status_is_not_retried() {
    let mut retry = Retry::new();
    assert_eq!(retry.on_status(404), RetryDecision::Fail(404));
    let mut retry = Retry::new();
    assert_eq!(retry.on_status(503), RetryDecision::Fail(503));
}

#[test]
fn error_descriptions() {
    assert_eq!(decimal_text(0), "0");
    assert_eq!(decimal_text(18446744073709551615), "18446744073709551615");
    assert_eq!(
        TransporterError::InvalidClientMessageCode(9).to_string(),
        "Invalid message code: 9"
    );
    assert_eq!(
        TransporterError::InvalidProtocolVersion(300).to_string(),
        "Invalid protocol version: 300"
    );
    assert_eq!(
        TransporterError::ScottyError(ScottyError::ScottyError(500, "u".to_string())).to_string(),
        "Scotty error: Scotty returned 500 for u"
    );
    assert!(TransporterError::ClientEOF.is_disconnection());
    assert!(TransporterError::ClientIoError("x".to_string()).is_disconnection());
    assert!(!TransporterError::InvalidClientMessageCode(9).is_disconnection());
    assert!(!TransporterError::StorageIoError("x".to_string()).is_disconnection());
    assert!(!TransporterError::ScottyError(ScottyError::ScottyIsDown).is_disconnection());
}
