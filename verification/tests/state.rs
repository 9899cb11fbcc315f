use authzen_pdp::state::Readiness;

#[test]
fn readiness_round_trips() {
    let readiness = Readiness::new(true);
    assert!(readiness.is_ready());

    readiness.set_ready(false);
    assert!(!readiness.is_ready());
}

#[test]
fn readiness_clones_share_state() {
    let readiness = Readiness::new(true);
    let clone = readiness.clone();

    clone.set_ready(false);
    assert!(!readiness.is_ready());
}

#[test]
fn readiness_starts_as_told() {
    assert!(!Readiness::new(false).is_ready());
}
