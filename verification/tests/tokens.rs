use auction_house::token_engine::TokenBroker;

#[test]
fn test_create_new_token() {
    let engine = TokenBroker::new();
    let token_str = engine.create_new_token("user").unwrap();
    assert!(!token_str.is_empty());
    assert_eq!(engine.verify_token(&token_str).unwrap(), "user");
}

#[test]
fn token_engine_test_verify_token() {
    let engine = TokenBroker::new();
    let token_str = engine.create_new_token("user").unwrap();
    assert_eq!(engine.verify_token(&token_str).unwrap(), "user");
}

#[test]
fn token_engine_test_verify_invalid_token() {
    let engine = TokenBroker::new();
    let token = "invalid token".to_owned();
    assert!(engine.verify_token(&token).is_err());
}

#[test]
fn tokens_of_different_users_differ() {
    let engine = TokenBroker::new();
    let token_a = engine.create_new_token("alice").unwrap();
    let token_b = engine.create_new_token("bob").unwrap();
    assert_ne!(token_a, token_b);
    assert_eq!(engine.verify_token(&token_a).unwrap(), "alice");
    assert_eq!(engine.verify_token(&token_b).unwrap(), "bob");
}

#[test]
fn tampered_token_is_rejected() {
    let engine = TokenBroker::new();
    let token = engine.create_new_token("user").unwrap();
    let mut tampered = token.clone();
    tampered.push('x');
    assert!(engine.verify_token(&tampered).is_err());
}

#[test]
fn bearer_header_resolves_to_its_user() {
    let engine = TokenBroker::new();
    let token = engine.create_new_token("user").unwrap();
    let header = format!("Bearer {token}");
    assert_eq!(engine.verify_bearer(&header).unwrap(), "user");
}

#[test]
fn header_without_bearer_prefix_is_rejected() {
    let engine = TokenBroker::new();
    let token = engine.create_new_token("user").unwrap();
    assert!(engine.verify_bearer(&token).is_err());
    assert!(engine.verify_bearer("Bearer invalid token").is_err());
    assert!(engine.verify_bearer("Basic abc").is_err());
    assert!(engine.verify_bearer("").is_err());
}
