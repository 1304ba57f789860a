use segfetch::fetch::{classify_response, FatalReason, FetchOutcome};

#[test]
fn classify_forbidden_is_fatal() {
    assert_eq!(
        classify_response(403, 100),
        FetchOutcome::Fatal(FatalReason::AccessDenied)
    );
    assert_eq!(
        classify_response(403, 0),
        FetchOutcome::Fatal(FatalReason::AccessDenied)
    );
}

#[test]
fn classify_not_found_ends_sequence() {
    assert_eq!(classify_response(404, 0), FetchOutcome::EndOfSequence);
    assert_eq!(classify_response(404, 100), FetchOutcome::EndOfSequence);
}

#[test]
fn classify_empty_body_ends_sequence() {
    assert_eq!(classify_response(200, 0), FetchOutcome::EndOfSequence);
}

#[test]
fn classify_success_reports_byte_count() {
    assert_eq!(classify_response(200, 7), FetchOutcome::Saved(7));
    assert_eq!(classify_response(206, 1), FetchOutcome::Saved(1));
}

#[test]
fn fatal_messages_are_distinct() {
    let denied = FatalReason::AccessDenied.message();
    let transport = FatalReason::TransportFailure.message();
    assert_ne!(denied, transport);
    assert_eq!(denied, "access denied: refresh the credentials or the link");
    assert_eq!(transport, "transport failure while fetching a segment");
}
