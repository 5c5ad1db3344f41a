use relay_core::proxy::circuit_breaker::CircuitBreaker;

const MS: u128 = 1_000_000;

#[test]
fn test_circuit_breaker_opens_after_failures() {
    let mut cb = CircuitBreaker::new(2, 100 * MS);
    let host = "api.example.com:443";

    assert!(cb.allow_request(host, 0));

    cb.record_failure(host, 0);
    assert!(cb.allow_request(host, 0));

    cb.record_failure(host, 0);
    assert!(!cb.allow_request(host, 0));

    assert!(cb.allow_request(host, 150 * MS));
}

#[test]
fn test_circuit_breaker_resets_on_success() {
    let mut cb = CircuitBreaker::new(3, 30_000 * MS);
    let host = "healthy.example.com:443";

    cb.record_failure(host, 0);
    cb.record_failure(host, 0);
    cb.record_success(host);

    assert!(cb.allow_request(host, 0));
    assert!(!cb.is_open(host, 0));
}

#[test]
fn one_trial_request_is_let_through() {
    let mut cb = CircuitBreaker::new(1, 100);
    cb.record_failure("h", 0);
    assert!(cb.is_open("h", 50));
    assert!(cb.allow_request("h", 100));
    assert!(!cb.allow_request("h", 101), "the trial is under way");
    assert!(!cb.allow_request("h", 1_000_000), "however long it takes");
    assert!(cb.is_open("h", 1_000_000));
    cb.record_success("h");
    assert!(cb.allow_request("h", 102));
}

#[test]
fn hosts_do_not_share_their_failures() {
    let mut cb = CircuitBreaker::default();
    for _ in 0..3 {
        cb.record_failure("bad:80", 0);
    }
    assert!(!cb.allow_request("bad:80", 0));
    assert!(cb.allow_request("good:80", 0));
    assert!(!cb.allow_request("bad:80", 30_000 * MS - 1), "to the nanosecond");
    assert!(cb.allow_request("bad:80", 30_000 * MS));
}

#[test]
fn a_failed_trial_opens_the_circuit_again() {
    let mut cb = CircuitBreaker::new(1, 100);
    cb.record_failure("h", 0);
    assert!(cb.allow_request("h", 100));
    cb.record_failure("h", 110);
    assert!(!cb.allow_request("h", 150));
    assert!(cb.allow_request("h", 210));
}

#[test]
fn an_abandoned_trial_makes_room_for_another() {
    let mut cb = CircuitBreaker::new(1, 100);
    cb.record_failure("h", 0);
    assert!(cb.allow_request("h", 100));
    cb.abandon_trial("h");
    assert!(cb.allow_request("h", 101));
    cb.abandon_trial("unknown");
    assert!(cb.allow_request("unknown", 101));
}
