use segfetch::acquire::{acquire_script, AcquireResult, Acquisition, Decision};
use segfetch::fetch::{FatalReason, FetchOutcome};

#[test]
fn acquire_saves_until_end_of_sequence() {
    let outcomes = vec![
        FetchOutcome::Saved(10),
        FetchOutcome::Saved(11),
        FetchOutcome::Saved(12),
        FetchOutcome::Saved(13),
        FetchOutcome::Saved(14),
        FetchOutcome::EndOfSequence,
    ];
    let report = acquire_script(0, &outcomes);
    assert_eq!(report.result, AcquireResult::Complete { count: 5 });
    assert_eq!(report.saved, vec![0, 1, 2, 3, 4]);
}

#[test]
fn acquire_stops_on_forbidden_mid_sequence() {
    let outcomes = vec![
        FetchOutcome::Saved(10),
        FetchOutcome::Saved(11),
        FetchOutcome::Saved(12),
        FetchOutcome::Fatal(FatalReason::AccessDenied),
        FetchOutcome::Saved(13),
    ];
    let report = acquire_script(0, &outcomes);
    assert_eq!(
        report.result,
        AcquireResult::Failed {
            count: 3,
            reason: FatalReason::AccessDenied,
        }
    );
    assert_eq!(report.saved, vec![0, 1, 2]);
    assert!(report.saved.iter().all(|&i| i < 3));
}

#[test]
fn acquire_stops_on_transport_failure_at_once() {
    let outcomes = vec![FetchOutcome::Fatal(FatalReason::TransportFailure)];
    let report = acquire_script(0, &outcomes);
    assert_eq!(
        report.result,
        AcquireResult::Failed {
            count: 0,
            reason: FatalReason::TransportFailure,
        }
    );
    assert!(report.saved.is_empty());
}

#[test]
fn acquire_respects_start_offset() {
    let outcomes = vec![
        FetchOutcome::Saved(1),
        FetchOutcome::Saved(2),
        FetchOutcome::EndOfSequence,
    ];
    let report = acquire_script(7, &outcomes);
    assert_eq!(report.result, AcquireResult::Complete { count: 2 });
    assert_eq!(report.saved, vec![7, 8]);
}

#[test]
fn acquire_empty_body_ends_like_not_found() {
    // An empty body classifies to EndOfSequence; the loop treats it as
    // a normal stop.
    let outcomes = vec![
        FetchOutcome::Saved(1),
        segfetch::fetch::classify_response(200, 0),
    ];
    let report = acquire_script(0, &outcomes);
    assert_eq!(report.result, AcquireResult::Complete { count: 1 });
}

#[test]
fn acquire_repeat_is_deterministic() {
    let outcomes = vec![
        FetchOutcome::Saved(10),
        FetchOutcome::Saved(11),
        FetchOutcome::EndOfSequence,
    ];
    let first = acquire_script(0, &outcomes);
    let second = acquire_script(0, &outcomes);
    assert_eq!(first.saved, second.saved);
    assert_eq!(first.result, second.result);
}

#[test]
fn state_machine_single_steps() {
    let mut st = Acquisition::new(4);
    assert_eq!(st.next_index, 4);
    assert_eq!(st.saved_count, 0);

    let d = st.on_outcome(&FetchOutcome::Saved(100));
    assert_eq!(d, Decision::Continue);
    assert_eq!(st.next_index, 5);
    assert_eq!(st.saved_count, 1);

    let d = st.on_outcome(&FetchOutcome::EndOfSequence);
    assert_eq!(d, Decision::Stop);
    assert_eq!(st.next_index, 5);
    assert_eq!(st.saved_count, 1);

    let d = st.on_outcome(&FetchOutcome::Fatal(FatalReason::AccessDenied));
    assert_eq!(d, Decision::Abort(FatalReason::AccessDenied));
    assert_eq!(st.next_index, 5);
    assert_eq!(st.saved_count, 1);
}
