use puid::{IdType, Puid};

fn test_type() -> IdType {
    IdType::new("TestId", "test").unwrap()
}

#[test]
fn test_new() {
    let ty = test_type();
    let user_id = Puid::new(&ty);
    assert!(user_id.as_str().starts_with("test_"));
    for c in user_id.as_str().chars().skip(5) {
        assert!(c.is_ascii_alphanumeric());
    }
}

#[test]
fn test_from_str() {
    let ty = test_type();
    let user_id = Puid::from_str(&ty, "test_45A0IQarTgXyiRM6VQ9YbX").unwrap();
    assert_eq!(user_id.as_str(), "test_45A0IQarTgXyiRM6VQ9YbX");

    // Test invalid prefix
    assert!(Puid::from_str(&ty, "invalid_45A0IQarTgXyiRM6VQ9YbX").is_err());

    // Test invalid length
    assert!(Puid::from_str(&ty, "test_123").is_err());

    // Test invalid suffix character
    assert!(Puid::from_str(&ty, "test_12@34").is_err());
}

#[test]
fn test_create_domain() {
    let ty = test_type();
    let domain_sql = Puid::create_domain(&ty);
    assert_eq!(
        domain_sql,
        "CREATE DOMAIN test_id AS CHAR(27) CHECK (VALUE ~ '^test_[0-9A-Za-z]{22}$');"
    );
}
