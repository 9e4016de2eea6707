use brazilian_validators::cep;
use brazilian_validators::cep::{
    extract_region, extract_sector, get_region_name, is_cep_format, normalize, validate,
};

#[test]
fn test_validate_valid_cep() {
    assert!(validate("12345-678").is_ok());
    assert!(validate("12345678").is_ok());
    assert!(validate("01310-100").is_ok());
}

#[test]
fn test_validate_invalid_cep() {
    // Wrong length
    assert!(validate("12345").is_err());
    assert!(validate("123456789").is_err());

    // All zeros
    assert!(validate("00000000").is_err());
}

#[test]
fn cep_test_normalize() {
    assert_eq!(normalize("12345-678"), "12345678");
    assert_eq!(normalize("12345678"), "12345678");
    assert_eq!(normalize("  12345-678  "), "12345678");
}

#[test]
fn cep_test_format() {
    assert_eq!(cep::format("12345678"), "12345-678");
    assert_eq!(cep::format("12345-678"), "12345-678");
    // Invalid length returns input
    assert_eq!(cep::format("12345"), "12345");
}

#[test]
fn test_is_cep_format() {
    assert!(is_cep_format("12345-678"));
    assert!(is_cep_format("12345678"));
    assert!(!is_cep_format("12345"));
    assert!(!is_cep_format("123456789"));
}

#[test]
fn test_extract_region() {
    assert_eq!(extract_region("01310-100"), Some(0));
    assert_eq!(extract_region("20040-020"), Some(2));
    assert_eq!(extract_region("90000-000"), Some(9));
}

#[test]
fn test_get_region_name() {
    assert_eq!(get_region_name("01310-100"), Some("Grande São Paulo"));
    assert_eq!(
        get_region_name("20040-020"),
        Some("Rio de Janeiro e Espírito Santo")
    );
}

#[test]
fn test_extract_sector() {
    assert_eq!(extract_sector("01310-100"), Some("01310".to_string()));
}
