use shortlink::errors::LinkError;
use shortlink::keygen::{
    AlwaysInUseProbe, CollideThenFreeProbe, FailingProbe, generate_key, rand_string,
};

fn is_alphanumeric(s: &str) -> bool {
    s.chars().all(|c| c.is_ascii_alphanumeric())
}

#[test]
fn exhausted_after_every_attempt_collides() {
    let mut probe = AlwaysInUseProbe::new();
    let r = generate_key(&mut probe, 3);
    assert_eq!(r, Err(LinkError::GenerationExhausted));
    assert_eq!(probe.calls, 3);
}

#[test]
fn exhausted_with_one_attempt() {
    let mut probe = AlwaysInUseProbe::new();
    let r = generate_key(&mut probe, 1);
    assert_eq!(r, Err(LinkError::GenerationExhausted));
    assert_eq!(probe.calls, 1);
}

#[test]
fn succeeds_after_two_collisions_with_three_probes() {
    let mut probe = CollideThenFreeProbe::new(2);
    let r = generate_key(&mut probe, 5);
    let key = r.expect("two collisions leave attempts to spare");
    assert_eq!(probe.calls, 3);
    assert_eq!(key.len(), 6);
    assert!(is_alphanumeric(&key));
}

#[test]
fn collisions_matching_the_bound_exhaust_generation() {
    let mut probe = CollideThenFreeProbe::new(3);
    let r = generate_key(&mut probe, 3);
    assert_eq!(r, Err(LinkError::GenerationExhausted));
    assert_eq!(probe.calls, 3);
}

#[test]
fn succeeds_first_try_without_collisions() {
    let mut probe = CollideThenFreeProbe::new(0);
    let r = generate_key(&mut probe, 3);
    assert!(r.is_ok());
    assert_eq!(probe.calls, 1);
}

#[test]
fn failing_probe_surfaces_store_error() {
    let mut probe = FailingProbe::new();
    let r = generate_key(&mut probe, 3);
    assert_eq!(r, Err(LinkError::StoreError));
}

#[test]
fn rand_string_has_requested_length_and_alphabet() {
    let short = rand_string(6);
    assert_eq!(short.len(), 6);
    assert!(is_alphanumeric(&short));

    let token = rand_string(24);
    assert_eq!(token.len(), 24);
    assert!(is_alphanumeric(&token));

    let empty = rand_string(0);
    assert_eq!(empty, "");
}
