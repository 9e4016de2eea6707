//! Validation, normalization, formatting and partial redaction of Brazilian
//! identifiers: CPF (individual tax ID), CNPJ (business tax ID), CEP (postal
//! code), phone numbers, and PIX instant-payment keys.
#![verifier::loop_isolation(false)]

pub mod cep;
pub mod checksum;
pub mod cnpj;
pub mod cpf;
pub mod error;
pub mod phone;
pub mod pix;
pub mod text;

pub use error::{BrazilianValidationError, ValidationResult};

pub use cpf::{validate_cpf, format_cpf, normalize_cpf};
pub use cnpj::{validate_cnpj, format_cnpj, normalize_cnpj};
pub use cep::{validate_cep, format_cep, normalize_cep};
pub use phone::{validate_phone, format_phone, normalize_phone};
pub use pix::validate_pix_key;
