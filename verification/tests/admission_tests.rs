use port_registry::admission::deadline_exceeded;
use port_registry::admission::handle_error;
use port_registry::admission::middleware_chain;
use port_registry::admission::AdmissionError;
use port_registry::admission::AdmissionGate;
use port_registry::admission::RequestPhase;
use port_registry::admission::Stage;
use port_registry::admission::CONCURRENCY_LIMIT;
use port_registry::admission::TIMEOUT_MILLIS;

#[test]
fn requests_beyond_the_cap_are_rejected_not_queued() {
    let mut gate = AdmissionGate::new(2);
    assert_eq!(gate.admit_or_shed(), RequestPhase::Admitted);
    assert_eq!(gate.admit_or_shed(), RequestPhase::Admitted);
    let overflow = gate.admit_or_shed();
    assert_eq!(overflow, RequestPhase::Rejected);
    let (status, body) = handle_error(&AdmissionError::Overloaded);
    assert_eq!(status, 503);
    assert_eq!(body, "service is overloaded, try again later");
}

#[test]
fn settling_frees_a_slot_for_the_next_request() {
    let mut gate = AdmissionGate::new(1);
    assert_eq!(gate.admit_or_shed(), RequestPhase::Admitted);
    assert_eq!(gate.admit_or_shed(), RequestPhase::Rejected);
    assert_eq!(gate.settle(false), RequestPhase::Completed);
    assert_eq!(gate.admit_or_shed(), RequestPhase::Admitted);
}

#[test]
fn a_request_past_the_deadline_times_out_with_408() {
    let mut gate = AdmissionGate::new(CONCURRENCY_LIMIT);
    assert_eq!(gate.admit_or_shed(), RequestPhase::Admitted);
    assert!(!deadline_exceeded(TIMEOUT_MILLIS - 1, TIMEOUT_MILLIS));
    assert!(deadline_exceeded(TIMEOUT_MILLIS, TIMEOUT_MILLIS));
    assert!(deadline_exceeded(TIMEOUT_MILLIS + 1, TIMEOUT_MILLIS));
    let phase = gate.settle(true);
    assert_eq!(phase, RequestPhase::TimedOut);
    let (status, body) = handle_error(&AdmissionError::TimedOut);
    assert_eq!(status, 408);
    assert_eq!(body, "request timed out");
}

#[test]
fn unhandled_failures_map_to_500_with_a_diagnostic() {
    let err = AdmissionError::Unhandled("boom".to_string());
    let (status, body) = handle_error(&err);
    assert_eq!(status, 500);
    assert_eq!(body, "Unhandled internal error: boom");
}

#[test]
fn middleware_chain_order_is_fixed() {
    let chain = middleware_chain();
    assert_eq!(
        chain,
        vec![
            Stage::ErrorTranslation,
            Stage::LoadShed,
            Stage::ConcurrencyLimit,
            Stage::Timeout,
        ]
    );
}
