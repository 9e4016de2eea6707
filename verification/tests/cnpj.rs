use brazilian_validators::cnpj;
use brazilian_validators::cnpj::{
    extract_base, extract_branch, is_cnpj_format, is_main_branch, mask, normalize, validate,
};

#[test]
fn test_validate_valid_cnpj() {
    // Valid CNPJ with formatting
    assert!(validate("11.222.333/0001-81").is_ok());
    // Valid CNPJ without formatting
    assert!(validate("11222333000181").is_ok());
}

#[test]
fn test_validate_invalid_cnpj() {
    // All same digits
    assert!(validate("11.111.111/1111-11").is_err());
    assert!(validate("00000000000000").is_err());

    // Invalid check digits
    assert!(validate("11.222.333/0001-00").is_err());

    // Wrong length
    assert!(validate("1122233300018").is_err());
    assert!(validate("112223330001812").is_err());
}

#[test]
fn cnpj_test_normalize() {
    assert_eq!(normalize("11.222.333/0001-81"), "11222333000181");
    assert_eq!(normalize("11222333000181"), "11222333000181");
}

#[test]
fn cnpj_test_format() {
    assert_eq!(cnpj::format("11222333000181"), "11.222.333/0001-81");
    assert_eq!(cnpj::format("11.222.333/0001-81"), "11.222.333/0001-81");
    // Invalid length returns input
    assert_eq!(cnpj::format("123"), "123");
}

#[test]
fn test_is_cnpj_format() {
    assert!(is_cnpj_format("11.222.333/0001-81"));
    assert!(is_cnpj_format("11222333000181"));
    assert!(!is_cnpj_format("1122233300018"));
}

#[test]
fn cnpj_test_mask() {
    assert_eq!(mask("11222333000181"), "11.***.***/**01-81");
}

#[test]
fn test_extract_base() {
    assert_eq!(extract_base("11222333000181"), Some("11222333".to_string()));
    assert_eq!(extract_base("invalid"), None);
}

#[test]
fn test_extract_branch() {
    assert_eq!(extract_branch("11222333000181"), Some("0001".to_string()));
    assert_eq!(extract_branch("11222333000281"), Some("0002".to_string()));
}

#[test]
fn test_is_main_branch() {
    assert!(is_main_branch("11222333000181"));
    assert!(!is_main_branch("11222333000281"));
}
