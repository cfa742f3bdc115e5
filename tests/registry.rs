use mock_me::test_context::{get_test_context, RegistryError};

#[test]
fn set_then_get_returns_the_handle() {
    let mut ctx = get_test_context();
    assert_eq!(ctx.set("k".to_string(), 7), Ok(()));
    assert_eq!(ctx.get("k"), Ok(7));
}

#[test]
fn keys_are_independent() {
    let mut ctx = get_test_context();
    assert_eq!(ctx.set("a".to_string(), 1), Ok(()));
    assert_eq!(ctx.set("b".to_string(), 2), Ok(()));
    assert_eq!(ctx.set("ab".to_string(), 3), Ok(()));
    assert_eq!(ctx.get("a"), Ok(1));
    assert_eq!(ctx.get("b"), Ok(2));
    assert_eq!(ctx.get("ab"), Ok(3));
}

#[test]
fn second_set_of_a_key_fails_and_keeps_the_first() {
    let mut ctx = get_test_context();
    assert_eq!(ctx.set("k".to_string(), 1), Ok(()));
    assert_eq!(
        ctx.set("k".to_string(), 2),
        Err(RegistryError::DuplicateKey("k".to_string()))
    );
    assert_eq!(ctx.get("k"), Ok(1));
}

#[test]
fn get_of_an_unset_key_fails() {
    let mut ctx = get_test_context();
    assert_eq!(
        ctx.get("unset_key"),
        Err(RegistryError::MissingKey("unset_key".to_string()))
    );
    assert_eq!(ctx.set("other".to_string(), 4), Ok(()));
    assert_eq!(
        ctx.get("unset_key"),
        Err(RegistryError::MissingKey("unset_key".to_string()))
    );
}

#[test]
fn clear_unsets_every_key() {
    let mut ctx = get_test_context();
    assert_eq!(ctx.set("k".to_string(), 5), Ok(()));
    assert_eq!(ctx.set("j".to_string(), 6), Ok(()));
    ctx.clear();
    assert_eq!(ctx.get("k"), Err(RegistryError::MissingKey("k".to_string())));
    assert_eq!(ctx.get("j"), Err(RegistryError::MissingKey("j".to_string())));
    assert_eq!(ctx.set("k".to_string(), 8), Ok(()));
    assert_eq!(ctx.get("k"), Ok(8));
}

#[test]
fn clear_of_an_empty_registry_is_harmless() {
    let mut ctx = get_test_context();
    ctx.clear();
    ctx.clear();
    assert_eq!(ctx.get("k"), Err(RegistryError::MissingKey("k".to_string())));
}

#[test]
fn handles_keep_their_full_width() {
    let mut ctx = get_test_context();
    assert_eq!(ctx.set("max".to_string(), usize::MAX), Ok(()));
    assert_eq!(ctx.set("zero".to_string(), 0), Ok(()));
    assert_eq!(ctx.get("max"), Ok(usize::MAX));
    assert_eq!(ctx.get("zero"), Ok(0));
}
