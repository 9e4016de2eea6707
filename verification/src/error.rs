//! The shared error taxonomy: every validation failure is returned as a
//! value of `BrazilianValidationError`, carrying enough context (expected
//! and actual length, offending document type) to build a user-facing
//! message.

use vstd::prelude::*;
use vstd::string::StringExecFns;

verus! {

/// Result alias used by every validation entry point.
pub type ValidationResult<T> = Result<T, BrazilianValidationError>;

/// Why a document was rejected.
#[derive(Debug, Clone, PartialEq, Eq)]
pub enum BrazilianValidationError {
    /// Semantic rejection of an individual tax ID, with a detail message.
    InvalidCpf(String),
    /// Semantic rejection of a business tax ID, with a detail message.
    InvalidCnpj(String),
    /// Semantic rejection of a postal code, with a detail message.
    InvalidCep(String),
    /// Semantic rejection of a phone number, with a detail message.
    InvalidPhone(String),
    /// Semantic rejection of an instant-payment key, with a detail message.
    InvalidPixKey(String),
    /// Generic structural rejection.
    InvalidDocumentFormat { document_type: String },
    /// Checksum mismatch.
    InvalidCheckDigits { document_type: String },
    /// Non-digit residue where only digits are expected.
    InvalidCharacters,
    /// Normalized length mismatch.
    InvalidLength { expected: usize, actual: usize },
}

/// The stable machine-readable code of each error kind.
pub open spec fn code_of(e: BrazilianValidationError) -> Seq<char> {
    match e {
        BrazilianValidationError::InvalidCpf(_) => "INVALID_CPF"@,
        BrazilianValidationError::InvalidCnpj(_) => "INVALID_CNPJ"@,
        BrazilianValidationError::InvalidCep(_) => "INVALID_CEP"@,
        BrazilianValidationError::InvalidPhone(_) => "INVALID_PHONE"@,
        BrazilianValidationError::InvalidPixKey(_) => "INVALID_PIX_KEY"@,
        BrazilianValidationError::InvalidDocumentFormat { .. } => "INVALID_DOCUMENT_FORMAT"@,
        BrazilianValidationError::InvalidCheckDigits { .. } => "INVALID_CHECK_DIGITS"@,
        BrazilianValidationError::InvalidCharacters => "INVALID_CHARACTERS"@,
        BrazilianValidationError::InvalidLength { .. } => "INVALID_LENGTH"@,
    }
}

/// The document-type label of each error kind.
pub open spec fn doc_type_of(e: BrazilianValidationError) -> Seq<char> {
    match e {
        BrazilianValidationError::InvalidCpf(_) => "CPF"@,
        BrazilianValidationError::InvalidCnpj(_) => "CNPJ"@,
        BrazilianValidationError::InvalidCep(_) => "CEP"@,
        BrazilianValidationError::InvalidPhone(_) => "phone"@,
        BrazilianValidationError::InvalidPixKey(_) => "PIX key"@,
        BrazilianValidationError::InvalidDocumentFormat { document_type } => document_type@,
        BrazilianValidationError::InvalidCheckDigits { document_type } => document_type@,
        BrazilianValidationError::InvalidCharacters => "document"@,
        BrazilianValidationError::InvalidLength { .. } => "document"@,
    }
}

impl BrazilianValidationError {
    /// An invalid-CPF error with the given detail message.
    pub fn invalid_cpf(msg: &str) -> (r: Self)
        ensures
            r matches Self::InvalidCpf(m) && m@ == msg@,
    {
        Self::InvalidCpf(String::from_str(msg))
    }

    /// An invalid-CNPJ error with the given detail message.
    pub fn invalid_cnpj(msg: &str) -> (r: Self)
        ensures
            r matches Self::InvalidCnpj(m) && m@ == msg@,
    {
        Self::InvalidCnpj(String::from_str(msg))
    }

    /// An invalid-CEP error with the given detail message.
    pub fn invalid_cep(msg: &str) -> (r: Self)
        ensures
            r matches Self::InvalidCep(m) && m@ == msg@,
    {
        Self::InvalidCep(String::from_str(msg))
    }

    /// An invalid-phone error with the given detail message.
    pub fn invalid_phone(msg: &str) -> (r: Self)
        ensures
            r matches Self::InvalidPhone(m) && m@ == msg@,
    {
        Self::InvalidPhone(String::from_str(msg))
    }

    /// An invalid-PIX-key error with the given detail message.
    pub fn invalid_pix_key(msg: &str) -> (r: Self)
        ensures
            r matches Self::InvalidPixKey(m) && m@ == msg@,
    {
        Self::InvalidPixKey(String::from_str(msg))
    }

    /// The stable machine-readable error code, for API responses.
    pub fn error_code(&self) -> (r: &'static str)
        ensures
            r@ == code_of(*self),
    {
        match self {
            Self::InvalidCpf(_) => "INVALID_CPF",
            Self::InvalidCnpj(_) => "INVALID_CNPJ",
            Self::InvalidCep(_) => "INVALID_CEP",
            Self::InvalidPhone(_) => "INVALID_PHONE",
            Self::InvalidPixKey(_) => "INVALID_PIX_KEY",
            Self::InvalidDocumentFormat { .. } => "INVALID_DOCUMENT_FORMAT",
            Self::InvalidCheckDigits { .. } => "INVALID_CHECK_DIGITS",
            Self::InvalidCharacters => "INVALID_CHARACTERS",
            Self::InvalidLength { .. } => "INVALID_LENGTH",
        }
    }

    /// The label of the document type that failed validation.
    pub fn document_type<'a>(&'a self) -> (r: &'a str)
        ensures
            r@ == doc_type_of(*self),
    {
        match self {
            Self::InvalidCpf(_) => "CPF",
            Self::InvalidCnpj(_) => "CNPJ",
            Self::InvalidCep(_) => "CEP",
            Self::InvalidPhone(_) => "phone",
            Self::InvalidPixKey(_) => "PIX key",
            Self::InvalidDocumentFormat { document_type } => document_type.as_str(),
            Self::InvalidCheckDigits { document_type } => document_type.as_str(),
            Self::InvalidCharacters => "document",
            Self::InvalidLength { .. } => "document",
        }
    }
}

} // verus!
