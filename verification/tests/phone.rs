use brazilian_validators::phone;
use brazilian_validators::phone::{
    extract_ddd, get_state_for_ddd, is_landline, is_mobile, mask, normalize, validate,
};

#[test]
fn test_validate_valid_phone() {
    // Mobile with various formats
    assert!(validate("+55 11 98765-4321").is_ok());
    assert!(validate("(11) 98765-4321").is_ok());
    assert!(validate("11987654321").is_ok());

    // Landline
    assert!(validate("1134567890").is_ok());
    assert!(validate("(11) 3456-7890").is_ok());
}

#[test]
fn test_validate_invalid_phone() {
    // Too short
    assert!(validate("12345").is_err());

    // Invalid DDD
    assert!(validate("00987654321").is_err());

    // Mobile without 9
    assert!(validate("11887654321").is_err());
}

#[test]
fn phone_test_normalize() {
    assert_eq!(normalize("+55 11 98765-4321"), "+5511987654321");
    assert_eq!(normalize("(11) 98765-4321"), "11987654321");
}

#[test]
fn phone_test_format() {
    assert_eq!(phone::format("11987654321"), "(11) 98765-4321");
    assert_eq!(phone::format("+5511987654321"), "+55 (11) 98765-4321");
    assert_eq!(phone::format("1134567890"), "(11) 3456-7890");
}

#[test]
fn test_is_mobile() {
    assert!(is_mobile("11987654321"));
    assert!(!is_mobile("1134567890"));
}

#[test]
fn test_is_landline() {
    assert!(!is_landline("11987654321"));
    assert!(is_landline("1134567890"));
}

#[test]
fn test_extract_ddd() {
    assert_eq!(extract_ddd("11987654321"), Some("11".to_string()));
    assert_eq!(extract_ddd("+55 21 98765-4321"), Some("21".to_string()));
}

#[test]
fn test_get_state_for_ddd() {
    assert_eq!(
        get_state_for_ddd("11"),
        Some("São Paulo (Capital e Grande SP)")
    );
    assert_eq!(
        get_state_for_ddd("21"),
        Some("Rio de Janeiro (Capital e Região)")
    );
    assert_eq!(get_state_for_ddd("00"), None);
}

#[test]
fn phone_test_mask() {
    assert_eq!(mask("11987654321"), "(11) *****-4321");
    assert_eq!(mask("1134567890"), "(11) ****-7890");
}
