use lrcget::challenge_solver::{check_nonce, solve_challenge};

const TARGET_19: &str = "1392ef83ff04f6e7d066c22f3799942d26dfd5ddfbe7b8319d28e1dce017a967";

#[test]
fn known_digest_of_single_zero() {
    // SHA-256("0") in lowercase hex; a target equal to the digest is met
    let prefix: Vec<u8> = Vec::new();
    let target = b"5feceb66ffc86f38d952786c6d696c79c2dbc239dd4e91b46729d73a27fb57e9".to_vec();
    assert!(check_nonce(&prefix, &target, 0));
    // one below the digest is missed
    let lower = b"5feceb66ffc86f38d952786c6d696c79c2dbc239dd4e91b46729d73a27fb57e8".to_vec();
    assert!(!check_nonce(&prefix, &lower, 0));
}

#[test]
fn solve_finds_the_minimal_nonce() {
    // for this prefix and target the least answering nonce is 19
    let prefix = b"abc".to_vec();
    let target = TARGET_19.as_bytes().to_vec();
    let nonce = solve_challenge(&prefix, &target).expect("the nonce space is not exhausted");
    assert_eq!(nonce, 19);
    assert!(check_nonce(&prefix, &target, 19));
    for earlier in 0..19 {
        assert!(!check_nonce(&prefix, &target, earlier));
    }
}

#[test]
fn mismatched_target_length_never_matches() {
    let prefix = b"abc".to_vec();
    let target = b"ffff".to_vec();
    assert!(!check_nonce(&prefix, &target, 0));
}

#[test]
fn permissive_target_is_met_at_zero() {
    let prefix = b"abc".to_vec();
    let target = b"ffffffffffffffffffffffffffffffffffffffffffffffffffffffffffffffff".to_vec();
    assert_eq!(solve_challenge(&prefix, &target), Some(0));
}
