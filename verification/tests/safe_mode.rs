use gobcam::safe_mode::{denied_ids, is_denied, is_denied_in};

#[test]
fn bundled_denylist_parses() {
    let set = denied_ids().expect("bundled denylist must parse");
    assert!(!set.is_empty(), "denylist suspiciously empty");
    assert!(
        set.iter().any(|s| s == "middle_finger"),
        "middle_finger expected in denylist"
    );
}

#[test]
fn is_denied_matches_set() {
    assert!(is_denied("middle_finger"));
    assert!(!is_denied("fire"));
}

#[test]
fn membership_in_a_given_list() {
    let ids = vec!["a".to_string(), "bb".to_string()];
    assert!(is_denied_in(&ids, "bb"));
    assert!(!is_denied_in(&ids, "b"));
    assert!(!is_denied_in(&Vec::new(), "a"));
}
