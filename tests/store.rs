use webauthn_ephemeral::{Challenge, Credential, WebauthnConfig, WebauthnEphemeralConfig};

fn demo() -> WebauthnEphemeralConfig {
    WebauthnEphemeralConfig::new("Demo RP", "example.org", "https://example.org")
}

fn cred(id: u8, counter: u32) -> Credential {
    Credential { cred_id: vec![id, id], public_key: vec![0xa5, id], counter, verified: false }
}

#[test]
fn relying_party_values_come_back() {
    let s = demo();
    assert_eq!(s.get_relying_party_name(), "Demo RP");
    assert_eq!(s.get_relying_party_id(), "example.org");
    assert_eq!(s.get_origin(), "https://example.org");
}

#[test]
fn challenge_is_handed_out_once() {
    let mut s = demo();
    let u = "alice".to_string();
    assert_eq!(s.persist_challenge(u.clone(), Challenge(vec![1, 2, 3])), Ok(()));
    let got = s.retrieve_challenge(&u).expect("a pending challenge");
    assert_eq!(got.0, vec![1, 2, 3]);
    assert!(s.retrieve_challenge(&u).is_none());
}

#[test]
fn no_challenge_for_a_new_user() {
    let mut s = demo();
    assert!(s.retrieve_challenge(&"bob".to_string()).is_none());
}

#[test]
fn second_challenge_replaces_first() {
    let mut s = demo();
    let u = "alice".to_string();
    s.persist_challenge(u.clone(), Challenge(vec![1])).unwrap();
    s.persist_challenge(u.clone(), Challenge(vec![2])).unwrap();
    assert_eq!(s.retrieve_challenge(&u).map(|c| c.0), Some(vec![2]));
    assert!(s.retrieve_challenge(&u).is_none());
}

#[test]
fn challenges_are_kept_per_user() {
    let mut s = demo();
    s.persist_challenge("a".to_string(), Challenge(vec![1])).unwrap();
    s.persist_challenge("b".to_string(), Challenge(vec![2])).unwrap();
    assert_eq!(s.retrieve_challenge(&"a".to_string()).map(|c| c.0), Some(vec![1]));
    assert_eq!(s.retrieve_challenge(&"b".to_string()).map(|c| c.0), Some(vec![2]));
}

#[test]
fn empty_challenge_round_trips() {
    let mut s = demo();
    let u = String::new();
    s.persist_challenge(u.clone(), Challenge(vec![])).unwrap();
    assert_eq!(s.retrieve_challenge(&u).map(|c| c.0), Some(vec![]));
}

#[test]
fn persisted_credential_exists() {
    let mut s = demo();
    let u = "alice".to_string();
    assert_eq!(s.persist_credential(u.clone(), cred(1, 0)), Ok(()));
    assert_eq!(s.does_exist_credential(&u, &cred(1, 0)), Ok(true));
    assert_eq!(s.does_exist_credential(&u, &cred(2, 0)), Ok(false));
}

#[test]
fn credential_compared_by_every_field() {
    let mut s = demo();
    let u = "alice".to_string();
    s.persist_credential(u.clone(), cred(1, 4)).unwrap();
    assert_eq!(s.does_exist_credential(&u, &cred(1, 5)), Ok(false));
    let mut other_key = cred(1, 4);
    other_key.public_key = vec![0xa5];
    assert_eq!(s.does_exist_credential(&u, &other_key), Ok(false));
    let mut verified = cred(1, 4);
    verified.verified = true;
    assert_eq!(s.does_exist_credential(&u, &verified), Ok(false));
}

#[test]
fn unknown_user_has_no_credential() {
    let s = demo();
    assert_eq!(s.does_exist_credential(&"nobody".to_string(), &cred(1, 0)), Ok(false));
    assert!(s.retrieve_credentials(&"nobody".to_string()).is_none());
}

#[test]
fn equal_credentials_are_both_kept() {
    let mut s = demo();
    let u = "alice".to_string();
    s.persist_credential(u.clone(), cred(1, 0)).unwrap();
    s.persist_credential(u.clone(), cred(1, 0)).unwrap();
    assert_eq!(s.retrieve_credentials(&u).unwrap().len(), 2);
    s.credential_report_invalid_counter(&u, &cred(1, 0), 0).unwrap();
    assert_eq!(s.retrieve_credentials(&u).unwrap().len(), 1);
    assert_eq!(s.does_exist_credential(&u, &cred(1, 0)), Ok(true));
}

#[test]
fn update_counter_replaces_credential() {
    let mut s = demo();
    let u = "alice".to_string();
    s.persist_credential(u.clone(), cred(1, 3)).unwrap();
    s.persist_credential(u.clone(), cred(2, 8)).unwrap();
    assert_eq!(s.credential_update_counter(&u, &cred(1, 3), 9), Ok(()));
    let v = s.retrieve_credentials(&u).unwrap();
    assert_eq!(v.len(), 2);
    assert!(v.contains(&cred(1, 9)));
    assert!(!v.contains(&cred(1, 3)));
    assert!(v.contains(&cred(2, 8)));
    assert_eq!(v[1].counter, 9);
    assert_eq!(v[1].cred_id, vec![1, 1]);
}

#[test]
fn update_counter_of_absent_credential_adds_it() {
    let mut s = demo();
    let u = "alice".to_string();
    s.persist_credential(u.clone(), cred(1, 3)).unwrap();
    assert_eq!(s.credential_update_counter(&u, &cred(2, 3), 4), Ok(()));
    let v = s.retrieve_credentials(&u).unwrap();
    assert_eq!(v.len(), 2);
    assert!(v.contains(&cred(1, 3)));
    assert!(v.contains(&cred(2, 4)));
}

#[test]
fn reported_credential_is_gone() {
    let mut s = demo();
    let u = "alice".to_string();
    s.persist_credential(u.clone(), cred(1, 3)).unwrap();
    assert_eq!(s.credential_report_invalid_counter(&u, &cred(1, 3), 1), Ok(()));
    assert_eq!(s.does_exist_credential(&u, &cred(1, 3)), Ok(false));
    assert_eq!(s.retrieve_credentials(&u).map(|v| v.len()), Some(0));
}

#[test]
fn unknown_user_update_and_report_fail() {
    let mut s = demo();
    let u = "ghost".to_string();
    assert_eq!(s.credential_update_counter(&u, &cred(1, 0), 1), Err(()));
    assert_eq!(s.credential_report_invalid_counter(&u, &cred(1, 0), 1), Err(()));
    assert!(s.retrieve_credentials(&u).is_none());
}

#[test]
fn users_do_not_share_credentials() {
    let mut s = demo();
    let a = "alice".to_string();
    let b = "bob".to_string();
    s.persist_credential(a.clone(), cred(1, 0)).unwrap();
    s.persist_credential(b.clone(), cred(2, 0)).unwrap();
    let va = s.retrieve_credentials(&a).unwrap();
    assert_eq!(va.len(), 1);
    assert_eq!(va[0], cred(1, 0));
    let vb = s.retrieve_credentials(&b).unwrap();
    assert_eq!(vb.len(), 1);
    assert_eq!(vb[0], cred(2, 0));
    assert_eq!(s.does_exist_credential(&a, &cred(2, 0)), Ok(false));
}

#[test]
fn credential_copy_with_counter() {
    let c = cred(3, 1).with_counter(u32::MAX);
    assert_eq!(c.counter, u32::MAX);
    assert_eq!(c.cred_id, vec![3, 3]);
    assert_eq!(c.public_key, vec![0xa5, 3]);
}

#[test]
fn no_challenge_after_other_operations() {
    let mut s = demo();
    let u = "carol".to_string();
    s.persist_challenge("dave".to_string(), Challenge(vec![4])).unwrap();
    s.persist_credential(u.clone(), cred(1, 0)).unwrap();
    s.credential_update_counter(&u, &cred(1, 0), 2).unwrap();
    s.credential_report_invalid_counter(&u, &cred(1, 2), 2).unwrap();
    assert!(s.retrieve_challenge(&u).is_none());
    assert_eq!(s.retrieve_challenge(&"dave".to_string()).map(|c| c.0), Some(vec![4]));
}
