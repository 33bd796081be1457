use workbench::trading::{
    account_from, authenticated_id, create_user, parse_role, role_from_lowercase, role_permits,
    role_text, CreateUserError, Role,
};

#[test]
fn roles_in_any_case() {
    assert_eq!(parse_role("admin"), Some(Role::Admin));
    assert_eq!(parse_role("ADMIN"), Some(Role::Admin));
    assert_eq!(parse_role("Customer"), Some(Role::Customer));
    assert_eq!(parse_role("reGulator"), Some(Role::Regulator));
    assert_eq!(parse_role("root"), None);
    assert_eq!(parse_role(" admin"), None);
    assert_eq!(role_from_lowercase("Admin"), None);
}

#[test]
fn role_names_as_stored() {
    assert_eq!(role_text(Role::Admin), "Admin");
    assert_eq!(role_text(Role::Customer), "Customer");
    assert_eq!(role_text(Role::Regulator), "Regulator");
    assert!(role_permits("Admin", Role::Admin));
    assert!(!role_permits("Customer", Role::Admin));
    assert!(!role_permits("$2b$12$abc", Role::Admin));
}

#[test]
fn created_user_authenticates_with_its_password() {
    let acc = create_user("bob", "s3cret", "Regulator").ok().expect("created");
    assert_eq!(acc.username, "bob");
    assert_eq!(acc.role, Role::Regulator);
    assert_eq!(authenticated_id(Some((7, acc.password_hash.clone())), "s3cret"), Some(7));
    assert_eq!(authenticated_id(Some((7, acc.password_hash)), "wrong"), None);
}

#[test]
fn unknown_role_is_refused() {
    assert_eq!(create_user("eve", "pw", "boss").err(), Some(CreateUserError::InvalidRole));
}

#[test]
fn account_from_hash_outcome() {
    assert_eq!(account_from("a", None, "admin").err(), Some(CreateUserError::HashFailed));
    let acc = account_from("a", Some("h".to_string()), "CUSTOMER").ok().expect("account");
    assert_eq!(acc.password_hash, "h");
    assert_eq!(acc.role, Role::Customer);
}

#[test]
fn no_account_or_bad_hash_does_not_authenticate() {
    assert_eq!(authenticated_id(None, "pw"), None);
    assert_eq!(authenticated_id(Some((1, "Admin".to_string())), "pw"), None);
}
