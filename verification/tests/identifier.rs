use snarkvm_lite::identifier::{Identifier, IdentifierError};

#[test]
fn identifier_accepts_letters_digits_underscores() {
    for name in ["transfer_public", "a", "Z9", "x_1_y", "abcdefghijklmnopqrstuvwxyz01234"] {
        let id = Identifier::from_str(name).unwrap();
        assert_eq!(id.as_string(), name);
    }
}

#[test]
fn identifier_errors_in_rule_order() {
    assert_eq!(Identifier::from_str("").err(), Some(IdentifierError::Empty));
    assert_eq!(Identifier::from_str("1transfer").err(), Some(IdentifierError::MustStartWithLetter));
    assert_eq!(Identifier::from_str("_x").err(), Some(IdentifierError::MustStartWithLetter));
    assert_eq!(Identifier::from_str("bond.public").err(), Some(IdentifierError::InvalidCharacter));
    assert_eq!(Identifier::from_str("caf\u{e9}").err(), Some(IdentifierError::InvalidCharacter));
    assert_eq!(Identifier::from_str("abcdefghijklmnopqrstuvwxyz012345").err(), Some(IdentifierError::TooLong));
    assert_eq!(Identifier::from_str("field").err(), Some(IdentifierError::ReservedLiteralType));
    assert_eq!(Identifier::from_str("u128").err(), Some(IdentifierError::ReservedLiteralType));
    assert!(Identifier::from_str("fields").is_ok());
}
