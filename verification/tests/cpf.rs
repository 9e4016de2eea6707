use brazilian_validators::cpf;
use brazilian_validators::cpf::{is_cpf_format, mask, normalize, validate};

#[test]
fn test_validate_valid_cpf() {
    // Valid CPF with formatting
    assert!(validate("123.456.789-09").is_ok());
    // Valid CPF without formatting
    assert!(validate("12345678909").is_ok());
}

#[test]
fn test_validate_invalid_cpf() {
    // All same digits
    assert!(validate("111.111.111-11").is_err());
    assert!(validate("00000000000").is_err());

    // Invalid check digits
    assert!(validate("123.456.789-00").is_err());

    // Wrong length
    assert!(validate("1234567890").is_err());
    assert!(validate("123456789012").is_err());
}

#[test]
fn cpf_test_normalize() {
    assert_eq!(normalize("123.456.789-09"), "12345678909");
    assert_eq!(normalize("12345678909"), "12345678909");
    assert_eq!(normalize("  123.456.789-09  "), "12345678909");
}

#[test]
fn cpf_test_format() {
    assert_eq!(cpf::format("12345678909"), "123.456.789-09");
    assert_eq!(cpf::format("123.456.789-09"), "123.456.789-09");
    // Invalid length returns input
    assert_eq!(cpf::format("123"), "123");
}

#[test]
fn test_is_cpf_format() {
    assert!(is_cpf_format("123.456.789-09"));
    assert!(is_cpf_format("12345678909"));
    assert!(!is_cpf_format("1234567890"));
    assert!(!is_cpf_format("abc.def.ghi-jk"));
}

#[test]
fn cpf_test_mask() {
    assert_eq!(mask("12345678909"), "123.***.***-09");
    assert_eq!(mask("123.456.789-09"), "123.***.***-09");
}
