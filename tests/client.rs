use zkp_auth::{calculate_password_hash, ChaumPedersenAuthClient, Natural, PedersenChaumAuthServer};

#[test]
fn password_hash_is_blake3_digest() {
    let secret = calculate_password_hash("correct horse battery staple".to_string());
    let digest = blake3::hash(b"correct horse battery staple");
    assert_eq!(secret, Natural::from_bytes_be(digest.as_bytes()));
    assert_ne!(secret, Natural::from_bytes_be(b"correct horse battery staple"));
}

#[test]
fn password_hash_depends_on_password() {
    let first = calculate_password_hash("hunter2".to_string());
    let again = calculate_password_hash("hunter2".to_string());
    let other = calculate_password_hash("hunter3".to_string());
    assert_eq!(first, again);
    assert_ne!(first, other);
}

#[test]
fn login_with_password_derived_secret() {
    let client = ChaumPedersenAuthClient::new();
    let mut server = PedersenChaumAuthServer::new();
    let x = calculate_password_hash("open sesame".to_string());

    let (y1, y2) = client.register_user(&x);
    server.register("frank".to_string(), &y1, &y2);

    let round = client.start_authentication();
    let (r1, r2) = round.challenge_request();
    let (auth_id, c) = server.create_authentication_challenge("frank".to_string(), &r1, &r2).unwrap();
    let s = client.answer_challenge(&round, &x, &c);
    let session_id = server.verify_authentication(auth_id, &s).unwrap();
    assert!(!session_id.is_empty());
}

#[test]
fn login_with_wrong_password_fails() {
    let client = ChaumPedersenAuthClient::new();
    let mut server = PedersenChaumAuthServer::new();
    let x = calculate_password_hash("open sesame".to_string());
    let (y1, y2) = client.register_user(&x);
    server.register("grace".to_string(), &y1, &y2);

    let guess = calculate_password_hash("open barley".to_string());
    let round = client.start_authentication();
    let (r1, r2) = round.challenge_request();
    let (auth_id, c) = server.create_authentication_challenge("grace".to_string(), &r1, &r2).unwrap();
    let s = client.answer_challenge(&round, &guess, &c);
    assert_eq!(server.verify_authentication(auth_id, &s), Err(zkp_auth::AuthError::VerificationFailed));
    assert_eq!(server.state().session_count(), 0);
}

#[test]
fn password_hash_fits_in_256_bits() {
    let secret = calculate_password_hash("a longer passphrase for the bound".to_string());
    assert!(secret.to_bytes_be().len() <= 32);
}
