use brazilian_validators::BrazilianValidationError;
use brazilian_validators::{cep, cnpj, cpf, phone, pix};
use brazilian_validators::pix::PixKeyType;

#[test]
fn normalize_is_idempotent() {
    let samples = ["123.456.789-09", "  12 3a4!5-678  ", "", "+55 (11) 98765-4321", "abc"];
    for s in samples {
        assert_eq!(cpf::normalize(&cpf::normalize(s)), cpf::normalize(s));
        assert_eq!(cnpj::normalize(&cnpj::normalize(s)), cnpj::normalize(s));
        assert_eq!(cep::normalize(&cep::normalize(s)), cep::normalize(s));
        assert_eq!(phone::normalize(&phone::normalize(s)), phone::normalize(s));
    }
}

#[test]
fn cpf_check_digits_from_base() {
    // base 123456789: first sum 210 gives check digit 0, second sum 255 gives 9
    assert_eq!(cpf::validate("12345678909").unwrap(), "12345678909");

    // flipping either check digit is rejected with the check-digit error
    assert!(matches!(
        cpf::validate("12345678919"),
        Err(BrazilianValidationError::InvalidCheckDigits { .. })
    ));
    assert!(matches!(
        cpf::validate("12345678908"),
        Err(BrazilianValidationError::InvalidCheckDigits { .. })
    ));
}

#[test]
fn repeated_digit_sequences_rejected() {
    for d in 0..10u32 {
        let c = char::from_digit(d, 10).unwrap();
        let cpf_seq: String = std::iter::repeat(c).take(11).collect();
        let cnpj_seq: String = std::iter::repeat(c).take(14).collect();
        assert!(matches!(
            cpf::validate(&cpf_seq),
            Err(BrazilianValidationError::InvalidCpf(_))
        ));
        assert!(matches!(
            cnpj::validate(&cnpj_seq),
            Err(BrazilianValidationError::InvalidCnpj(_))
        ));
    }
}

#[test]
fn format_is_identity_on_wrong_length() {
    for s in ["", "123", "123456789012", "12.34", "abc"] {
        assert_eq!(cpf::format(s), s);
        assert_eq!(cnpj::format(s), s);
        assert_eq!(cep::format(s), s);
    }
    // phone format: unrecognized national-number lengths come back unchanged
    for s in ["", "123", "123456789012345"] {
        assert_eq!(phone::format(s), s);
    }
}

#[test]
fn dispatcher_is_deterministic() {
    let keys = [
        "12345678909",
        "11222333000181",
        "user@example.com",
        "+5511987654321",
        "123e4567-e89b-12d3-a456-426614174000",
        "invalid",
        "",
    ];
    for k in keys {
        assert_eq!(pix::detect_type(k), pix::detect_type(k));
        assert_eq!(pix::normalize(k), pix::normalize(k));
    }
    // precedence: an 11-digit string is always the individual tax ID
    assert_eq!(pix::detect_type("12345678909"), Some(PixKeyType::Cpf));
}

#[test]
fn literal_scenarios() {
    assert_eq!(cpf::validate("123.456.789-09").unwrap(), "12345678909");

    assert_eq!(cnpj::validate("11.222.333/0001-81").unwrap(), "11222333000181");
    assert!(matches!(
        cnpj::validate("11.111.111/1111-11"),
        Err(BrazilianValidationError::InvalidCnpj(_))
    ));

    assert_eq!(cep::format("12345678"), "12345-678");
    assert_eq!(cep::format("1234"), "1234");

    assert!(matches!(
        phone::validate("11887654321"),
        Err(BrazilianValidationError::InvalidPhone(_))
    ));

    assert_eq!(pix::detect_type("user@example.com"), Some(PixKeyType::Email));
    assert_eq!(
        pix::detect_type("123e4567-e89b-12d3-a456-426614174000"),
        Some(PixKeyType::Random)
    );

    assert_eq!(cnpj::mask("11222333000181"), "11.***.***/**01-81");
}

#[test]
fn error_variants_and_codes() {
    let e = cpf::validate("123").unwrap_err();
    assert!(matches!(
        e,
        BrazilianValidationError::InvalidLength { expected: 11, actual: 3 }
    ));
    assert_eq!(e.error_code(), "INVALID_LENGTH");
    assert_eq!(e.document_type(), "document");

    let e = cpf::validate("11111111111").unwrap_err();
    assert!(matches!(e, BrazilianValidationError::InvalidCpf(_)));
    assert_eq!(e.error_code(), "INVALID_CPF");
    assert_eq!(e.document_type(), "CPF");

    let e = cpf::validate("123.456.789-00").unwrap_err();
    assert!(matches!(e, BrazilianValidationError::InvalidCheckDigits { .. }));
    assert_eq!(e.error_code(), "INVALID_CHECK_DIGITS");
    assert_eq!(e.document_type(), "CPF");

    let e = cnpj::validate("11.222.333/0001-00").unwrap_err();
    assert!(matches!(e, BrazilianValidationError::InvalidCheckDigits { .. }));
    assert_eq!(e.document_type(), "CNPJ");

    let e = cep::validate("00000000").unwrap_err();
    assert!(matches!(e, BrazilianValidationError::InvalidCep(_)));
    assert_eq!(e.error_code(), "INVALID_CEP");

    let e = phone::validate("00987654321").unwrap_err();
    match &e {
        BrazilianValidationError::InvalidPhone(m) => assert_eq!(m, "DDD 00 inválido"),
        other => panic!("unexpected error {:?}", other),
    }
    assert_eq!(e.error_code(), "INVALID_PHONE");

    let e = pix::validate("invalid").unwrap_err();
    assert!(matches!(e, BrazilianValidationError::InvalidPixKey(_)));
    assert_eq!(e.error_code(), "INVALID_PIX_KEY");
    assert_eq!(e.document_type(), "PIX key");
}

#[test]
fn pix_keys_are_trimmed() {
    assert_eq!(pix::detect_type("  12345678909  "), Some(PixKeyType::Cpf));
    assert_eq!(pix::normalize("  User@Example.COM  "), "user@example.com");
    assert!(pix::validate("  +5511987654321  ").is_ok());
}

#[test]
fn email_shape_edges() {
    assert!(pix::validate("a@b.co").is_ok());
    assert!(pix::validate("ab@cd").is_err()); // no dot in the domain
    assert!(pix::validate("a@b.c").is_err()); // top-level domain too short
    assert!(pix::validate("@x.com").is_err()); // empty local part
    assert!(pix::validate("a@.co").is_err()); // empty domain before the dot
}

#[test]
fn random_key_edges() {
    // wrong group lengths are rejected
    assert!(pix::validate("123e4567-e89b-12d3-a456-42661417400").is_err());
    // non-hex characters are rejected
    assert!(pix::validate("123g4567-e89b-12d3-a456-426614174000").is_err());
    // uppercase input is normalized to lowercase
    assert_eq!(
        pix::normalize("123E4567-E89B-12D3-A456-426614174000"),
        "123e4567-e89b-12d3-a456-426614174000"
    );
}

#[test]
fn phone_normalize_keeps_only_leading_plus() {
    assert_eq!(phone::normalize("+55 11 98765-4321"), "+5511987654321");
    // a plus that is not the leading character is dropped
    assert_eq!(phone::normalize("119876+54321"), "11987654321");
    assert_eq!(phone::normalize("1+134567890"), "1134567890");
    assert!(phone::validate("1+134567890").is_ok());
}

#[test]
fn pix_mask_is_identity_on_unrecognized_input() {
    assert_eq!(pix::mask("not recognized"), "not recognized");
    // the original string comes back, surrounding whitespace included
    assert_eq!(pix::mask("  not recognized  "), "  not recognized  ");
}

#[test]
fn phone_engine_edges() {
    // bare 55 prefix is stripped only when the rest would be too long
    assert_eq!(phone::validate("5511987654321").unwrap(), "+5511987654321");
    // a 10-digit number starting with 55 is a landline in area code 55
    assert_eq!(phone::validate("5534567890").unwrap(), "+555534567890");
    assert_eq!(phone::extract_ddd("+5511987654321"), Some("11".to_string()));
    assert_eq!(phone::mask("+5511987654321"), "(11) *****-4321");
    assert_eq!(phone::get_state_for_ddd("85"), Some("Ceará"));
    assert_eq!(phone::get_state_for_ddd("7"), None);
    assert_eq!(phone::get_state_for_ddd("850"), None);
}

#[test]
fn pix_key_type_labels() {
    assert_eq!(PixKeyType::Cpf.label(), "CPF");
    assert_eq!(PixKeyType::Email.label(), "E-mail");
    assert_eq!(PixKeyType::Random.label(), "Chave aleatória");
}
