//! CEP (postal code) validation and formatting: an 8-digit value with no
//! checksum; the first digit names a macro-region.

use vstd::prelude::*;
use vstd::string::StringExecFns;
use crate::error::{BrazilianValidationError, ValidationResult};
use crate::text::{
    chars_of, digit_val, digits_in, digits_of, digits_range, filter_digits,
    lemma_digits_of_idempotent, push_range, string_of,
};

verus! {

/// Every character of `s` is the zero digit.
pub open spec fn all_zeros(s: Seq<char>) -> bool {
    forall|i: int| 0 <= i < s.len() ==> s[i] == '0'
}

/// A normalized value that validation accepts: exactly 8 digits and not
/// the all-zeros value.
pub open spec fn cep_valid(d: Seq<char>) -> bool {
    d.len() == 8 && !all_zeros(d)
}

/// The error that validation reports for a normalized value it rejects.
pub open spec fn cep_error(d: Seq<char>, e: BrazilianValidationError) -> bool {
    if d.len() != 8 {
        e matches BrazilianValidationError::InvalidLength { expected, actual } && expected == 8
            && actual == d.len()
    } else {
        e matches BrazilianValidationError::InvalidCep(m) && m@ == "CEP inválido"@
    }
}

/// Validate a CEP: normalize to digits, then check the length and reject
/// the all-zeros value.
pub fn validate(cep: &str) -> (r: ValidationResult<String>)
    ensures
        r is Ok <==> cep_valid(digits_of(cep@)),
        r matches Ok(s) ==> s@ == digits_of(cep@),
        r matches Err(e) ==> cep_error(digits_of(cep@), e),
{
    let v = chars_of(cep);
    let cleaned = filter_digits(&v);
    proof {
        crate::text::lemma_digits_of_all_digits(cep@);
    }

    if cleaned.len() != 8 {
        return Err(BrazilianValidationError::InvalidLength { expected: 8, actual: cleaned.len() });
    }

    // Structurally impossible after digit-only normalization; kept as a
    // defensive check on pre-normalized assumptions.
    if !crate::text::all_digits_check(&cleaned) {
        return Err(BrazilianValidationError::InvalidCharacters);
    }

    if all_zeros_check(&cleaned) {
        return Err(BrazilianValidationError::invalid_cep("CEP inválido"));
    }

    Ok(string_of(&cleaned))
}

/// Alias for `validate`, for a consistent API.
pub fn validate_cep(cep: &str) -> (r: ValidationResult<String>)
    ensures
        r is Ok <==> cep_valid(digits_of(cep@)),
        r matches Ok(s) ==> s@ == digits_of(cep@),
        r matches Err(e) ==> cep_error(digits_of(cep@), e),
{
    validate(cep)
}

/// Whether every character of `v` is the zero digit.
fn all_zeros_check(v: &Vec<char>) -> (r: bool)
    ensures
        r == all_zeros(v@),
{
    let mut i: usize = 0;
    while i < v.len()
        invariant
            i <= v@.len(),
            forall|j: int| 0 <= j < i ==> v@[j] == '0',
        decreases v@.len() - i,
    {
        if v[i] != '0' {
            return false;
        }
        i = i + 1;
    }
    true
}

/// Normalize a CEP by removing every non-digit character.
pub fn normalize(cep: &str) -> (r: String)
    ensures
        r@ == digits_of(cep@),
{
    crate::text::normalize_digits(cep)
}

/// Alias for `normalize`, for a consistent API.
pub fn normalize_cep(cep: &str) -> (r: String)
    ensures
        r@ == digits_of(cep@),
{
    normalize(cep)
}

/// Normalizing is idempotent: a second normalization changes nothing.
pub proof fn lemma_normalize_idempotent(s: Seq<char>)
    ensures
        digits_of(digits_of(s)) == digits_of(s),
{
    lemma_digits_of_idempotent(s);
}

/// An 8-digit value with the standard hyphen re-inserted.
pub open spec fn cep_formatted(d: Seq<char>) -> Seq<char> {
    d.subrange(0, 5) + seq!['-'] + d.subrange(5, 8)
}

/// Format a CEP with the standard hyphen; the identity on input whose
/// normalized length is not 8.
pub fn format(cep: &str) -> (r: String)
    ensures
        digits_of(cep@).len() == 8 ==> r@ == cep_formatted(digits_of(cep@)),
        digits_of(cep@).len() != 8 ==> r@ == cep@,
{
    let v = chars_of(cep);
    let d = filter_digits(&v);

    if d.len() == 8 {
        let mut out: Vec<char> = Vec::new();
        push_range(&mut out, &d, 0, 5);
        out.push('-');
        push_range(&mut out, &d, 5, 8);
        assert(out@ =~= cep_formatted(d@));
        string_of(&out)
    } else {
        String::from_str(cep)
    }
}

/// Alias for `format`, for a consistent API.
pub fn format_cep(cep: &str) -> (r: String)
    ensures
        digits_of(cep@).len() == 8 ==> r@ == cep_formatted(digits_of(cep@)),
        digits_of(cep@).len() != 8 ==> r@ == cep@,
{
    format(cep)
}

/// The structural CEP pattern with or without its hyphen: five digits,
/// the hyphen when the flag is set, three digits.
pub open spec fn cep_shape_opt(s: Seq<char>, h: bool) -> bool {
    let i1 = 5 + if h {
        1int
    } else {
        0int
    };
    &&& s.len() == i1 + 3
    &&& digits_in(s, 0, 5)
    &&& (h ==> s[5] == '-')
    &&& digits_in(s, i1, i1 + 3)
}

/// The structural CEP pattern `DDDDD-DDD`, the hyphen optional.
pub open spec fn cep_shape(s: Seq<char>) -> bool {
    cep_shape_opt(s, false) || cep_shape_opt(s, true)
}

/// Whether a string has the structural shape of a CEP.
pub fn is_cep_format(cep: &str) -> (r: bool)
    ensures
        r == cep_shape(cep@),
{
    let v = chars_of(cep);
    let n = v.len();
    if n < 8 {
        return false;
    }
    if !digits_range(&v, 0, 5) {
        return false;
    }
    let h = v[5] == '-';
    let i1: usize = if h {
        6
    } else {
        5
    };
    if i1 + 3 != n {
        return false;
    }
    if !digits_range(&v, i1, i1 + 3) {
        return false;
    }
    proof {
        assert(cep_shape_opt(cep@, h));
    }
    true
}

/// The macro-region code: the first digit of the normalized value, when
/// there is one.
pub fn extract_region(cep: &str) -> (r: Option<u8>)
    ensures
        match r {
            Some(x) => digits_of(cep@).len() >= 1 && x == digit_val(digits_of(cep@)[0]),
            None => digits_of(cep@).len() == 0,
        },
{
    let v = chars_of(cep);
    let d = filter_digits(&v);
    proof {
        crate::text::lemma_digits_of_all_digits(cep@);
    }

    if d.len() >= 1 {
        Some(crate::text::digit_value(d[0]) as u8)
    } else {
        None
    }
}

/// The name of the macro-region with the given code.
pub open spec fn region_name(x: int) -> Seq<char> {
    if x == 0 {
        "Grande São Paulo"@
    } else if x == 1 {
        "Interior de São Paulo"@
    } else if x == 2 {
        "Rio de Janeiro e Espírito Santo"@
    } else if x == 3 {
        "Minas Gerais"@
    } else if x == 4 {
        "Bahia e Sergipe"@
    } else if x == 5 {
        "Pernambuco, Alagoas, Paraíba e Rio Grande do Norte"@
    } else if x == 6 {
        "Ceará, Piauí, Maranhão, Pará, Amazonas, Acre, Amapá e Roraima"@
    } else if x == 7 {
        "Distrito Federal, Goiás, Tocantins, Mato Grosso, Mato Grosso do Sul e Rondônia"@
    } else if x == 8 {
        "Paraná e Santa Catarina"@
    } else if x == 9 {
        "Rio Grande do Sul"@
    } else {
        "Região desconhecida"@
    }
}

/// The macro-region name for a CEP, from its first normalized digit.
pub fn get_region_name(cep: &str) -> (r: Option<&'static str>)
    ensures
        match r {
            Some(t) => digits_of(cep@).len() >= 1 && t@ == region_name(
                digit_val(digits_of(cep@)[0]),
            ),
            None => digits_of(cep@).len() == 0,
        },
{
    let region = extract_region(cep);
    match region {
        Some(x) => Some(
            match x {
                0 => "Grande São Paulo",
                1 => "Interior de São Paulo",
                2 => "Rio de Janeiro e Espírito Santo",
                3 => "Minas Gerais",
                4 => "Bahia e Sergipe",
                5 => "Pernambuco, Alagoas, Paraíba e Rio Grande do Norte",
                6 => "Ceará, Piauí, Maranhão, Pará, Amazonas, Acre, Amapá e Roraima",
                7 => "Distrito Federal, Goiás, Tocantins, Mato Grosso, Mato Grosso do Sul e Rondônia",
                8 => "Paraná e Santa Catarina",
                9 => "Rio Grande do Sul",
                _ => "Região desconhecida",
            },
        ),
        None => None,
    }
}

/// The sub-region code: the first two normalized digits, when present.
pub fn extract_subregion(cep: &str) -> (r: Option<String>)
    ensures
        match r {
            Some(s) => digits_of(cep@).len() >= 2 && s@ == digits_of(cep@).subrange(0, 2),
            None => digits_of(cep@).len() < 2,
        },
{
    let v = chars_of(cep);
    let d = filter_digits(&v);

    if d.len() >= 2 {
        let mut out: Vec<char> = Vec::new();
        push_range(&mut out, &d, 0, 2);
        Some(string_of(&out))
    } else {
        None
    }
}

/// The sector code: the first five normalized digits, when present.
pub fn extract_sector(cep: &str) -> (r: Option<String>)
    ensures
        match r {
            Some(s) => digits_of(cep@).len() >= 5 && s@ == digits_of(cep@).subrange(0, 5),
            None => digits_of(cep@).len() < 5,
        },
{
    let v = chars_of(cep);
    let d = filter_digits(&v);

    if d.len() >= 5 {
        let mut out: Vec<char> = Vec::new();
        push_range(&mut out, &d, 0, 5);
        Some(string_of(&out))
    } else {
        None
    }
}

} // verus!
