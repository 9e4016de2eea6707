use brazilian_validators::pix::{detect_type, mask, normalize, validate, validate_with_type, PixKeyType};

#[test]
fn test_validate_cpf_key() {
    assert!(validate("123.456.789-09").is_ok());
    assert!(validate("12345678909").is_ok());
    assert!(validate("111.111.111-11").is_err()); // Invalid CPF
}

#[test]
fn test_validate_cnpj_key() {
    assert!(validate("11.222.333/0001-81").is_ok());
    assert!(validate("11222333000181").is_ok());
}

#[test]
fn test_validate_email_key() {
    assert!(validate("user@example.com").is_ok());
    assert!(validate("test.user+tag@domain.co.uk").is_ok());
    assert!(validate("invalid@").is_err());
}

#[test]
fn test_validate_phone_key() {
    assert!(validate("+5511987654321").is_ok());
    assert!(validate("+5521912345678").is_ok());
    assert!(validate("11987654321").is_err()); // Missing +55
}

#[test]
fn test_validate_random_key() {
    assert!(validate("123e4567-e89b-12d3-a456-426614174000").is_ok());
    assert!(validate("123E4567-E89B-12D3-A456-426614174000").is_ok()); // Uppercase OK
    assert!(validate("not-a-uuid").is_err());
}

#[test]
fn test_detect_type() {
    assert_eq!(detect_type("12345678909"), Some(PixKeyType::Cpf));
    assert_eq!(detect_type("11222333000181"), Some(PixKeyType::Cnpj));
    assert_eq!(detect_type("user@example.com"), Some(PixKeyType::Email));
    assert_eq!(detect_type("+5511987654321"), Some(PixKeyType::Phone));
    assert_eq!(
        detect_type("123e4567-e89b-12d3-a456-426614174000"),
        Some(PixKeyType::Random)
    );
    assert_eq!(detect_type("invalid"), None);
}

#[test]
fn test_validate_with_type() {
    let (key_type, normalized) = validate_with_type("123.456.789-09").unwrap();
    assert_eq!(key_type, PixKeyType::Cpf);
    assert_eq!(normalized, "12345678909");

    let (key_type, normalized) = validate_with_type("User@Example.COM").unwrap();
    assert_eq!(key_type, PixKeyType::Email);
    assert_eq!(normalized, "user@example.com");
}

#[test]
fn pix_test_normalize() {
    assert_eq!(normalize("123.456.789-09"), "12345678909");
    assert_eq!(normalize("11.222.333/0001-81"), "11222333000181");
    assert_eq!(normalize("User@Example.COM"), "user@example.com");
}

#[test]
fn pix_test_mask() {
    assert_eq!(mask("12345678909"), "123.***.***-09");
    assert_eq!(mask("user@example.com"), "u***@example.com");
    assert_eq!(mask("+5511987654321"), "+55 (11) *****-4321");
    assert_eq!(
        mask("123e4567-e89b-12d3-a456-426614174000"),
        "123e****-****-****-****-****"
    );
}
