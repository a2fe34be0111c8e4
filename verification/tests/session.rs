//! Session tokens: shape, freshness, the uniqueness-retry decision,
//! and expiry.

use euclidon::model::session::{new_token_candidate, select_fresh_token, Session};

#[test]
fn token_is_22_chars_of_base64url() {
    let t = new_token_candidate();
    assert_eq!(t.len(), 22);
    assert!(t
        .chars()
        .all(|c| c.is_ascii_alphanumeric() || c == '-' || c == '_'));
}

#[test]
fn tokens_are_fresh() {
    let a = new_token_candidate();
    let b = new_token_candidate();
    assert_ne!(a, b);
}

#[test]
fn token_uniqueness_retry() {
    // A store that reports every candidate but one as colliding must
    // yield the one non-colliding candidate, without error, and without
    // looping past the finite collision set.
    let candidates: Vec<String> = (0..5).map(|_| new_token_candidate()).collect();
    let taken = vec![true, true, true, false, true];
    let chosen = select_fresh_token(&candidates, &taken);
    assert_eq!(chosen, Some(candidates[3].clone()));

    // The first free candidate wins.
    let taken = vec![true, false, false, false, true];
    assert_eq!(select_fresh_token(&candidates, &taken), Some(candidates[1].clone()));

    // A store holding every candidate exhausts the round.
    let taken = vec![true; 5];
    assert_eq!(select_fresh_token(&candidates, &taken), None);

    // An empty round is exhausted too.
    assert_eq!(select_fresh_token(&Vec::new(), &Vec::new()), None);
}

#[test]
fn expiry_boundaries() {
    let eternal = Session::new(new_token_candidate(), 7, None);
    assert!(!eternal.is_expired(i64::MAX));
    assert!(!eternal.is_expired(i64::MIN));

    let mortal = Session::new(new_token_candidate(), 7, Some(100));
    assert!(!mortal.is_expired(99));
    // The boundary instant itself is not expired.
    assert!(!mortal.is_expired(100));
    assert!(mortal.is_expired(101));
}

#[test]
fn session_carries_its_fields() {
    let t = new_token_candidate();
    let s = Session::new(t.clone(), 42, Some(5));
    assert_eq!(s.token, t);
    assert_eq!(s.user_id, 42);
    assert_eq!(s.expire_on, Some(5));
}
