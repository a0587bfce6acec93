use zkp_auth::{Challenge, Natural, PedersenChaumAuthServerState, Session, User};

fn big(value: u64) -> Natural {
    Natural::from_u64(value)
}

#[test]
fn state_test_register_user() {
    let user_name = "user_name".to_string();
    let y1 = big(1_000_000_000);
    let y2 = big(2_000_000_000);

    let mut state = PedersenChaumAuthServerState::new();
    state.register_user(user_name.clone(), y1.clone(), y2.clone());

    assert_eq!(state.user_count(), 1);
    assert_eq!(
        state.user(&user_name),
        Some(&User { id: user_name.clone(), y1, y2, auth_id: None, session_id: None })
    );

    assert_eq!(state.challenge_count(), 0);
    assert_eq!(state.session_count(), 0);
}

#[test]
fn state_test_create_authentication_challenge() {
    let user_name = "user_name".to_string();
    let y1 = big(1_000_000_000);
    let y2 = big(2_000_000_000);

    let auth_id = "f2m38m2kcj9d-s823".to_string();
    let r1 = big(1_000);
    let r2 = big(2_000);
    let c = big(10_000);

    let mut state = PedersenChaumAuthServerState::new();
    state.register_user(user_name.clone(), y1.clone(), y2.clone());

    state
        .create_authentication_challenge(
            user_name.clone(),
            auth_id.clone(),
            r1.clone(),
            r2.clone(),
            c.clone(),
        )
        .expect("Failed to create authentication");

    assert_eq!(state.challenge_count(), 1);
    assert_eq!(
        state.challenge(&auth_id),
        Some(&Challenge { id: auth_id.clone(), c, r1, r2, user_id: user_name.clone() })
    );

    assert_eq!(state.user(&user_name).unwrap().auth_id, Some(auth_id));
    assert_eq!(state.session_count(), 0);
}

#[test]
fn test_create_authentication_challenge_when_auth_id_exists() {
    let user_name = "user_name".to_string();
    let y1 = big(1_000_000_000);
    let y2 = big(2_000_000_000);

    let auth_id = "f2m38m2kcj9d-s823".to_string();
    let r1 = big(1_000);
    let r2 = big(2_000);
    let c = big(10_000);

    let mut state = PedersenChaumAuthServerState::new();
    state.register_user(user_name.clone(), y1.clone(), y2.clone());

    state
        .create_authentication_challenge(
            user_name.clone(),
            auth_id.clone(),
            r1.clone(),
            r2.clone(),
            c.clone(),
        )
        .expect("Failed to create authentication");

    // re-authenticate to test if the the new authentication token is updated
    let new_auth_id = "2sdiofa9013".to_string();
    state
        .create_authentication_challenge(
            user_name.clone(),
            new_auth_id.clone(),
            r1.clone(),
            r2.clone(),
            c.clone(),
        )
        .expect("Failed to create authentication");

    assert_eq!(state.challenge_count(), 1);
    assert_eq!(
        state.challenge(&new_auth_id),
        Some(&Challenge { id: new_auth_id.clone(), c, r1, r2, user_id: user_name.clone() })
    );
    assert_eq!(state.challenge(&auth_id), None);

    assert_eq!(state.user(&user_name).unwrap().auth_id, Some(new_auth_id));
    assert_eq!(state.session_count(), 0);
}

#[test]
fn state_test_create_authentication_challenge_fails_if_user_unregistered() {
    let user_name = "user_name".to_string();

    let auth_id = "f2m38m2kcj9d-s823".to_string();
    let r1 = big(1_000);
    let r2 = big(2_000);
    let c = big(10_000);

    let mut state = PedersenChaumAuthServerState::new();

    // user hasn't registered yet
    assert!(state
        .create_authentication_challenge(user_name.clone(), auth_id, r1.clone(), r2.clone(), c.clone())
        .unwrap_err()
        .message()
        .contains("Failed to retrieve user data, user must register first"));
    assert_eq!(state.user_count(), 0);
    assert_eq!(state.challenge_count(), 0);
    assert_eq!(state.session_count(), 0);
}

#[test]
fn test_create_session() {
    let user_name = "user_name".to_string();
    let y1 = big(1_000_000_000);
    let y2 = big(2_000_000_000);

    let session_id = "sdfa837djf".to_string();

    let mut state = PedersenChaumAuthServerState::new();
    state.register_user(user_name.clone(), y1.clone(), y2.clone());

    state
        .create_session(user_name.clone(), session_id.clone())
        .expect("Failed to create sesssion");

    assert_eq!(state.user(&user_name).unwrap().session_id, Some(session_id.clone()));
    assert_eq!(state.challenge_count(), 0);

    assert_eq!(state.session_count(), 1);
    assert_eq!(
        state.session(&session_id),
        Some(&Session { id: session_id.clone(), user_id: user_name })
    );
}

#[test]
fn test_create_session_fails_if_user_unregistered() {
    let user_name = "user_name".to_string();
    let session_id = "sdfa837djf".to_string();

    let mut state = PedersenChaumAuthServerState::new();

    assert!(state
        .create_session(user_name.clone(), session_id.clone())
        .unwrap_err()
        .message()
        .contains("Failed to retrieve user data, user must register first"));
    assert_eq!(state.session_count(), 0);
}

#[test]
fn reused_challenge_id_replaces_other_users_challenge() {
    let mut state = PedersenChaumAuthServerState::new();
    state.register_user("alice".to_string(), big(1), big(2));
    state.register_user("bob".to_string(), big(3), big(4));
    state
        .create_authentication_challenge("alice".to_string(), "shared".to_string(), big(5), big(6), big(7))
        .unwrap();
    let issued = state.create_authentication_challenge(
        "bob".to_string(),
        "shared".to_string(),
        big(8),
        big(9),
        big(10),
    );
    assert_eq!(issued, Ok(()));
    assert_eq!(state.challenge_count(), 1);
    assert_eq!(
        state.challenge("shared"),
        Some(&Challenge {
            id: "shared".to_string(),
            c: big(10),
            r1: big(8),
            r2: big(9),
            user_id: "bob".to_string(),
        })
    );
    assert_eq!(state.user("alice").unwrap().auth_id, None);
    assert_eq!(state.user("bob").unwrap().auth_id, Some("shared".to_string()));
}

#[test]
fn reissuing_own_challenge_id_succeeds() {
    let mut state = PedersenChaumAuthServerState::new();
    state.register_user("alice".to_string(), big(1), big(2));
    state
        .create_authentication_challenge("alice".to_string(), "same".to_string(), big(5), big(6), big(7))
        .unwrap();
    state
        .create_authentication_challenge("alice".to_string(), "same".to_string(), big(8), big(9), big(10))
        .unwrap();
    assert_eq!(state.challenge_count(), 1);
    assert_eq!(state.challenge("same").unwrap().c, big(10));
    assert_eq!(state.user("alice").unwrap().auth_id, Some("same".to_string()));
}

#[test]
fn re_registration_drops_outstanding_challenge() {
    let mut state = PedersenChaumAuthServerState::new();
    state.register_user("alice".to_string(), big(1), big(2));
    state
        .create_authentication_challenge("alice".to_string(), "first".to_string(), big(5), big(6), big(7))
        .unwrap();
    state.create_session("alice".to_string(), "s1".to_string()).unwrap();
    state.register_user("alice".to_string(), big(11), big(12));
    assert_eq!(state.challenge_count(), 0);
    assert_eq!(
        state.user("alice"),
        Some(&User { id: "alice".to_string(), y1: big(11), y2: big(12), auth_id: None, session_id: None })
    );
    assert_eq!(state.session_count(), 1);
}

#[test]
fn challenges_of_different_users_coexist() {
    let mut state = PedersenChaumAuthServerState::new();
    state.register_user("alice".to_string(), big(1), big(2));
    state.register_user("bob".to_string(), big(3), big(4));
    state
        .create_authentication_challenge("alice".to_string(), "a1".to_string(), big(5), big(6), big(7))
        .unwrap();
    state
        .create_authentication_challenge("bob".to_string(), "b1".to_string(), big(5), big(6), big(7))
        .unwrap();
    state
        .create_authentication_challenge("alice".to_string(), "a2".to_string(), big(5), big(6), big(7))
        .unwrap();
    assert_eq!(state.challenge_count(), 2);
    assert!(state.challenge("a1").is_none());
    assert!(state.challenge("a2").is_some());
    assert!(state.challenge("b1").is_some());
}
