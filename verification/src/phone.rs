//! Brazilian phone number validation and formatting: landline and mobile
//! numbers with area codes (DDD), with an optional +55 country prefix.

use vstd::prelude::*;
use vstd::string::StringExecFns;
use crate::error::{BrazilianValidationError, ValidationResult};
use crate::text::{
    chars_of, digit_val, digits_of, filter_digits, is_digit, is_digit_char, digit_value,
    push_range, string_of,
};

verus! {

/// Phone normalization: keep the decimal digits, and the leading `+`
/// marker when the input has one; drop everything else.
pub open spec fn phone_normal(s: Seq<char>) -> Seq<char> {
    if s.len() > 0 && s[0] == '+' {
        seq!['+'] + digits_of(s)
    } else {
        digits_of(s)
    }
}

/// A normalized value that carries the +55 country prefix.
pub open spec fn has_plus_cc(c: Seq<char>) -> bool {
    c.len() >= 3 && c[0] == '+' && c[1] == '5' && c[2] == '5'
}

/// A normalized value that starts with a bare 55 country code and would
/// otherwise be too long for a national number.
pub open spec fn has_bare_cc(c: Seq<char>) -> bool {
    c.len() > 11 && c[0] == '5' && c[1] == '5'
}

/// A normalized value that carries a country code either way.
pub open spec fn has_cc(c: Seq<char>) -> bool {
    has_plus_cc(c) || has_bare_cc(c)
}

/// The national-significant number: the normalized value with its
/// country-code prefix stripped.
pub open spec fn strip_cc(c: Seq<char>) -> Seq<char> {
    if has_plus_cc(c) {
        c.skip(3)
    } else if has_bare_cc(c) {
        c.skip(2)
    } else {
        c
    }
}

/// The fixed set of valid area codes, as two-digit numbers.
pub open spec fn ddd_ok(n: int) -> bool {
    ||| 11 <= n <= 19
    ||| n == 21 || n == 22 || n == 24 || n == 27 || n == 28
    ||| 31 <= n <= 35 || n == 37 || n == 38
    ||| 41 <= n <= 49
    ||| n == 51 || 53 <= n <= 55
    ||| 61 <= n <= 69
    ||| n == 71 || n == 73 || n == 74 || n == 75 || n == 77 || n == 79
    ||| 81 <= n <= 89
    ||| 91 <= n <= 99
}

/// The first two characters of the national number form a valid area code.
pub open spec fn valid_ddd(w: Seq<char>) -> bool
    recommends
        w.len() >= 2,
{
    is_digit(w[0]) && is_digit(w[1]) && ddd_ok(digit_val(w[0]) * 10 + digit_val(w[1]))
}

/// A national number that validation accepts: 10 or 11 characters, a
/// valid area code, and — for the 11-character mobile length — a leading 9.
pub open spec fn phone_valid(w: Seq<char>) -> bool {
    &&& 10 <= w.len() <= 11
    &&& valid_ddd(w)
    &&& (w.len() == 11 ==> w[2] == '9')
}

/// The error that validation reports for a national number it rejects.
pub open spec fn phone_error(w: Seq<char>, e: BrazilianValidationError) -> bool {
    if !(10 <= w.len() <= 11) {
        e matches BrazilianValidationError::InvalidLength { expected, actual } && expected == 10
            && actual == w.len()
    } else if !valid_ddd(w) {
        e matches BrazilianValidationError::InvalidPhone(m) && m@ == "DDD "@ + w.subrange(0, 2)
            + " inválido"@
    } else {
        e matches BrazilianValidationError::InvalidPhone(m) && m@ == "celular deve começar com 9"@
    }
}

/// Keep the digits of `v`, and its leading `+` when it has one.
fn filter_phone(v: &Vec<char>) -> (r: Vec<char>)
    ensures
        r@ == phone_normal(v@),
{
    let mut r: Vec<char> = Vec::new();
    if v.len() > 0 && v[0] == '+' {
        r.push('+');
    }
    let d = filter_digits(v);
    push_range(&mut r, &d, 0, d.len());
    proof {
        assert(d@.subrange(0, d@.len() as int) =~= d@);
        assert(r@ =~= phone_normal(v@));
    }
    r
}

/// The national-significant number of `v`: the value with its
/// country-code prefix stripped.
fn strip_country(v: &Vec<char>) -> (r: Vec<char>)
    ensures
        r@ == strip_cc(v@),
{
    let mut out: Vec<char> = Vec::new();
    if v.len() >= 3 && v[0] == '+' && v[1] == '5' && v[2] == '5' {
        push_range(&mut out, v, 3, v.len());
        assert(out@ =~= v@.skip(3));
    } else if v.len() > 11 && v[0] == '5' && v[1] == '5' {
        push_range(&mut out, v, 2, v.len());
        assert(out@ =~= v@.skip(2));
    } else {
        push_range(&mut out, v, 0, v.len());
        assert(out@ =~= v@);
    }
    out
}

/// Whether `n` is a valid area code.
fn ddd_ok_check(n: u32) -> (r: bool)
    ensures
        r == ddd_ok(n as int),
{
    (11 <= n && n <= 19) || n == 21 || n == 22 || n == 24 || n == 27 || n == 28 || (31 <= n && n
        <= 35) || n == 37 || n == 38 || (41 <= n && n <= 49) || n == 51 || (53 <= n && n <= 55) || (
    61 <= n && n <= 69) || n == 71 || n == 73 || n == 74 || n == 75 || n == 77 || n == 79 || (81
        <= n && n <= 89) || (91 <= n && n <= 99)
}

/// Validate a phone number: normalize, strip the country code, then
/// check length, area code, and the mobile leading 9; on success return
/// the number with a +55 prefix.
pub fn validate(phone: &str) -> (r: ValidationResult<String>)
    ensures
        r is Ok <==> phone_valid(strip_cc(phone_normal(phone@))),
        r matches Ok(s) ==> s@ == "+55"@ + strip_cc(phone_normal(phone@)),
        r matches Err(e) ==> phone_error(strip_cc(phone_normal(phone@)), e),
{
    let v = chars_of(phone);
    let cleaned = filter_phone(&v);
    let w = strip_country(&cleaned);

    if w.len() < 10 || w.len() > 11 {
        return Err(BrazilianValidationError::InvalidLength { expected: 10, actual: w.len() });
    }

    let d0 = w[0];
    let d1 = w[1];
    let ddd_is_valid = if is_digit_char(d0) && is_digit_char(d1) {
        ddd_ok_check(digit_value(d0) * 10 + digit_value(d1))
    } else {
        false
    };
    if !ddd_is_valid {
        let mut m: Vec<char> = Vec::new();
        m.push('D');
        m.push('D');
        m.push('D');
        m.push(' ');
        m.push(d0);
        m.push(d1);
        m.push(' ');
        m.push('i');
        m.push('n');
        m.push('v');
        m.push('á');
        m.push('l');
        m.push('i');
        m.push('d');
        m.push('o');
        proof {
            reveal_strlit("DDD ");
            reveal_strlit(" inválido");
            assert(m@ =~= "DDD "@ + w@.subrange(0, 2) + " inválido"@);
        }
        return Err(BrazilianValidationError::InvalidPhone(string_of(&m)));
    }

    if w.len() == 11 && w[2] != '9' {
        return Err(BrazilianValidationError::invalid_phone("celular deve começar com 9"));
    }

    let mut out: Vec<char> = Vec::new();
    out.push('+');
    out.push('5');
    out.push('5');
    push_range(&mut out, &w, 0, w.len());
    proof {
        reveal_strlit("+55");
        assert(out@ =~= "+55"@ + w@);
    }
    Ok(string_of(&out))
}

/// Alias for `validate`, for a consistent API.
pub fn validate_phone(phone: &str) -> (r: ValidationResult<String>)
    ensures
        r is Ok <==> phone_valid(strip_cc(phone_normal(phone@))),
        r matches Ok(s) ==> s@ == "+55"@ + strip_cc(phone_normal(phone@)),
        r matches Err(e) ==> phone_error(strip_cc(phone_normal(phone@)), e),
{
    validate(phone)
}

/// Normalize a phone number: keep its digits and its leading `+`.
pub fn normalize(phone: &str) -> (r: String)
    ensures
        r@ == phone_normal(phone@),
{
    let v = chars_of(phone);
    let cleaned = filter_phone(&v);
    string_of(&cleaned)
}

/// Alias for `normalize`, for a consistent API.
pub fn normalize_phone(phone: &str) -> (r: String)
    ensures
        r@ == phone_normal(phone@),
{
    normalize(phone)
}

/// Normalizing is idempotent: a second normalization changes nothing.
pub proof fn lemma_normalize_idempotent(s: Seq<char>)
    ensures
        phone_normal(phone_normal(s)) == phone_normal(s),
{
    let p = |c: char| is_digit(c);
    crate::text::lemma_digits_of_idempotent(s);
    crate::text::lemma_digits_of_all_digits(s);
    if s.len() > 0 && s[0] == '+' {
        let t = seq!['+'] + digits_of(s);
        assert(t[0] == '+');
        Seq::filter_distributes_over_add(seq!['+'], digits_of(s), p);
        crate::text::lemma_filter_none_match(seq!['+'], p);
        assert(digits_of(t) =~= digits_of(s));
        assert(phone_normal(t) == t);
    } else {
        let t = digits_of(s);
        if t.len() > 0 {
            assert(is_digit(t[0]));
        }
        assert(phone_normal(t) == digits_of(t));
    }
}

/// A phone number re-punctuated for display: an optional `+55 ` prefix,
/// the area code in parentheses, and a hyphen before the last four
/// digits; the identity on national numbers of unrecognized length.
pub open spec fn phone_formatted(raw: Seq<char>) -> Seq<char> {
    let c = phone_normal(raw);
    let num = strip_cc(c);
    let pre: Seq<char> = if has_cc(c) {
        "+55 "@
    } else {
        Seq::<char>::empty()
    };
    if num.len() == 11 {
        pre + seq!['('] + num.subrange(0, 2) + seq![')', ' '] + num.subrange(2, 7) + seq!['-']
            + num.subrange(7, 11)
    } else if num.len() == 10 {
        pre + seq!['('] + num.subrange(0, 2) + seq![')', ' '] + num.subrange(2, 6) + seq!['-']
            + num.subrange(6, 10)
    } else {
        raw
    }
}

/// Format a phone number with standard punctuation.
pub fn format(phone: &str) -> (r: String)
    ensures
        r@ == phone_formatted(phone@),
{
    let v = chars_of(phone);
    let cleaned = filter_phone(&v);
    let has_prefix = (cleaned.len() >= 3 && cleaned[0] == '+' && cleaned[1] == '5' && cleaned[2]
        == '5') || (cleaned.len() > 11 && cleaned[0] == '5' && cleaned[1] == '5');
    let num = strip_country(&cleaned);

    if num.len() == 11 {
        let mut out: Vec<char> = Vec::new();
        if has_prefix {
            out.push('+');
            out.push('5');
            out.push('5');
            out.push(' ');
            proof {
                reveal_strlit("+55 ");
                assert(out@ =~= "+55 "@);
            }
        }
        out.push('(');
        push_range(&mut out, &num, 0, 2);
        out.push(')');
        out.push(' ');
        push_range(&mut out, &num, 2, 7);
        out.push('-');
        push_range(&mut out, &num, 7, 11);
        assert(out@ =~= phone_formatted(phone@));
        string_of(&out)
    } else if num.len() == 10 {
        let mut out: Vec<char> = Vec::new();
        if has_prefix {
            out.push('+');
            out.push('5');
            out.push('5');
            out.push(' ');
            proof {
                reveal_strlit("+55 ");
                assert(out@ =~= "+55 "@);
            }
        }
        out.push('(');
        push_range(&mut out, &num, 0, 2);
        out.push(')');
        out.push(' ');
        push_range(&mut out, &num, 2, 6);
        out.push('-');
        push_range(&mut out, &num, 6, 10);
        assert(out@ =~= phone_formatted(phone@));
        string_of(&out)
    } else {
        String::from_str(phone)
    }
}

/// Alias for `format`, for a consistent API.
pub fn format_phone(phone: &str) -> (r: String)
    ensures
        r@ == phone_formatted(phone@),
{
    format(phone)
}

/// Whether a number is mobile: an 11-character national number whose
/// third character is 9.
pub fn is_mobile(phone: &str) -> (r: bool)
    ensures
        r == ({
            let w = strip_cc(phone_normal(phone@));
            w.len() == 11 && w[2] == '9'
        }),
{
    let v = chars_of(phone);
    let cleaned = filter_phone(&v);
    let w = strip_country(&cleaned);
    w.len() == 11 && w[2] == '9'
}

/// Whether a number is a landline: a 10-character national number.
pub fn is_landline(phone: &str) -> (r: bool)
    ensures
        r == (strip_cc(phone_normal(phone@)).len() == 10),
{
    let v = chars_of(phone);
    let cleaned = filter_phone(&v);
    let w = strip_country(&cleaned);
    w.len() == 10
}

/// The area code: the first two characters of the national number, when
/// present.
pub fn extract_ddd(phone: &str) -> (r: Option<String>)
    ensures
        match r {
            Some(s) => strip_cc(phone_normal(phone@)).len() >= 2 && s@ == strip_cc(
                phone_normal(phone@),
            ).subrange(0, 2),
            None => strip_cc(phone_normal(phone@)).len() < 2,
        },
{
    let v = chars_of(phone);
    let cleaned = filter_phone(&v);
    let w = strip_country(&cleaned);

    if w.len() >= 2 {
        let mut out: Vec<char> = Vec::new();
        push_range(&mut out, &w, 0, 2);
        Some(string_of(&out))
    } else {
        None
    }
}

/// A phone number redacted for display: area code and last four digits
/// revealed; the identity on national numbers of unrecognized length.
pub open spec fn phone_masked(raw: Seq<char>) -> Seq<char> {
    let w = strip_cc(phone_normal(raw));
    if w.len() == 11 {
        seq!['('] + w.subrange(0, 2) + seq![')', ' ', '*', '*', '*', '*', '*', '-'] + w.subrange(
            7,
            11,
        )
    } else if w.len() == 10 {
        seq!['('] + w.subrange(0, 2) + seq![')', ' ', '*', '*', '*', '*', '-'] + w.subrange(6, 10)
    } else {
        raw
    }
}

/// Mask a phone number for display.
pub fn mask(phone: &str) -> (r: String)
    ensures
        r@ == phone_masked(phone@),
{
    let v = chars_of(phone);
    let cleaned = filter_phone(&v);
    let w = strip_country(&cleaned);

    if w.len() == 11 {
        let mut out: Vec<char> = Vec::new();
        out.push('(');
        push_range(&mut out, &w, 0, 2);
        out.push(')');
        out.push(' ');
        out.push('*');
        out.push('*');
        out.push('*');
        out.push('*');
        out.push('*');
        out.push('-');
        push_range(&mut out, &w, 7, 11);
        assert(out@ =~= phone_masked(phone@));
        string_of(&out)
    } else if w.len() == 10 {
        let mut out: Vec<char> = Vec::new();
        out.push('(');
        push_range(&mut out, &w, 0, 2);
        out.push(')');
        out.push(' ');
        out.push('*');
        out.push('*');
        out.push('*');
        out.push('*');
        out.push('-');
        push_range(&mut out, &w, 6, 10);
        assert(out@ =~= phone_masked(phone@));
        string_of(&out)
    } else {
        String::from_str(phone)
    }
}

/// The state or region served by an area code given as a number.
pub open spec fn ddd_state_num(n: int) -> Option<Seq<char>> {
    if n == 11 {
        Some("São Paulo (Capital e Grande SP)"@)
    } else if n == 12 {
        Some("São Paulo (Vale do Paraíba)"@)
    } else if n == 13 {
        Some("São Paulo (Baixada Santista)"@)
    } else if n == 14 {
        Some("São Paulo (Bauru)"@)
    } else if n == 15 {
        Some("São Paulo (Sorocaba)"@)
    } else if n == 16 {
        Some("São Paulo (Ribeirão Preto)"@)
    } else if n == 17 {
        Some("São Paulo (São José do Rio Preto)"@)
    } else if n == 18 {
        Some("São Paulo (Presidente Prudente)"@)
    } else if n == 19 {
        Some("São Paulo (Campinas)"@)
    } else if n == 21 {
        Some("Rio de Janeiro (Capital e Região)"@)
    } else if n == 22 {
        Some("Rio de Janeiro (Interior)"@)
    } else if n == 24 {
        Some("Rio de Janeiro (Petrópolis)"@)
    } else if n == 27 || n == 28 {
        Some("Espírito Santo"@)
    } else if n == 31 {
        Some("Minas Gerais (BH e Região)"@)
    } else if n == 32 || n == 33 || n == 34 || n == 35 || n == 37 || n == 38 {
        Some("Minas Gerais"@)
    } else if n == 41 {
        Some("Paraná (Curitiba e Região)"@)
    } else if n == 42 || n == 43 || n == 44 || n == 45 || n == 46 {
        Some("Paraná"@)
    } else if n == 47 || n == 48 || n == 49 {
        Some("Santa Catarina"@)
    } else if n == 51 {
        Some("Rio Grande do Sul (Porto Alegre)"@)
    } else if n == 53 || n == 54 || n == 55 {
        Some("Rio Grande do Sul"@)
    } else if n == 61 {
        Some("Distrito Federal"@)
    } else if n == 62 {
        Some("Goiás (Goiânia)"@)
    } else if n == 63 {
        Some("Tocantins"@)
    } else if n == 64 {
        Some("Goiás"@)
    } else if n == 65 || n == 66 {
        Some("Mato Grosso"@)
    } else if n == 67 {
        Some("Mato Grosso do Sul"@)
    } else if n == 68 {
        Some("Acre"@)
    } else if n == 69 {
        Some("Rondônia"@)
    } else if n == 91 || n == 93 || n == 94 {
        Some("Pará"@)
    } else if n == 92 || n == 97 {
        Some("Amazonas"@)
    } else if n == 95 {
        Some("Roraima"@)
    } else if n == 96 {
        Some("Amapá"@)
    } else if n == 71 {
        Some("Bahia (Salvador)"@)
    } else if n == 73 || n == 74 || n == 75 || n == 77 {
        Some("Bahia"@)
    } else if n == 79 {
        Some("Sergipe"@)
    } else if n == 81 {
        Some("Pernambuco (Recife)"@)
    } else if n == 82 {
        Some("Alagoas"@)
    } else if n == 83 {
        Some("Paraíba"@)
    } else if n == 84 {
        Some("Rio Grande do Norte"@)
    } else if n == 85 || n == 88 {
        Some("Ceará"@)
    } else if n == 86 || n == 89 {
        Some("Piauí"@)
    } else if n == 87 {
        Some("Pernambuco"@)
    } else if n == 98 || n == 99 {
        Some("Maranhão"@)
    } else {
        None
    }
}

/// The state or region served by an area code given as a string: the
/// lookup applies only to exactly two digits.
pub open spec fn ddd_state(s: Seq<char>) -> Option<Seq<char>> {
    if s.len() == 2 && is_digit(s[0]) && is_digit(s[1]) {
        ddd_state_num(digit_val(s[0]) * 10 + digit_val(s[1]))
    } else {
        None
    }
}

/// The state(s) served by a given area code.
pub fn get_state_for_ddd(ddd: &str) -> (r: Option<&'static str>)
    ensures
        match r {
            Some(t) => ddd_state(ddd@) == Some(t@),
            None => ddd_state(ddd@) is None,
        },
{
    let v = chars_of(ddd);
    if v.len() != 2 {
        return None;
    }
    if !is_digit_char(v[0]) || !is_digit_char(v[1]) {
        return None;
    }
    let n: u32 = digit_value(v[0]) * 10 + digit_value(v[1]);
    if n == 11 {
        Some("São Paulo (Capital e Grande SP)")
    } else if n == 12 {
        Some("São Paulo (Vale do Paraíba)")
    } else if n == 13 {
        Some("São Paulo (Baixada Santista)")
    } else if n == 14 {
        Some("São Paulo (Bauru)")
    } else if n == 15 {
        Some("São Paulo (Sorocaba)")
    } else if n == 16 {
        Some("São Paulo (Ribeirão Preto)")
    } else if n == 17 {
        Some("São Paulo (São José do Rio Preto)")
    } else if n == 18 {
        Some("São Paulo (Presidente Prudente)")
    } else if n == 19 {
        Some("São Paulo (Campinas)")
    } else if n == 21 {
        Some("Rio de Janeiro (Capital e Região)")
    } else if n == 22 {
        Some("Rio de Janeiro (Interior)")
    } else if n == 24 {
        Some("Rio de Janeiro (Petrópolis)")
    } else if n == 27 || n == 28 {
        Some("Espírito Santo")
    } else if n == 31 {
        Some("Minas Gerais (BH e Região)")
    } else if n == 32 || n == 33 || n == 34 || n == 35 || n == 37 || n == 38 {
        Some("Minas Gerais")
    } else if n == 41 {
        Some("Paraná (Curitiba e Região)")
    } else if n == 42 || n == 43 || n == 44 || n == 45 || n == 46 {
        Some("Paraná")
    } else if n == 47 || n == 48 || n == 49 {
        Some("Santa Catarina")
    } else if n == 51 {
        Some("Rio Grande do Sul (Porto Alegre)")
    } else if n == 53 || n == 54 || n == 55 {
        Some("Rio Grande do Sul")
    } else if n == 61 {
        Some("Distrito Federal")
    } else if n == 62 {
        Some("Goiás (Goiânia)")
    } else if n == 63 {
        Some("Tocantins")
    } else if n == 64 {
        Some("Goiás")
    } else if n == 65 || n == 66 {
        Some("Mato Grosso")
    } else if n == 67 {
        Some("Mato Grosso do Sul")
    } else if n == 68 {
        Some("Acre")
    } else if n == 69 {
        Some("Rondônia")
    } else if n == 91 || n == 93 || n == 94 {
        Some("Pará")
    } else if n == 92 || n == 97 {
        Some("Amazonas")
    } else if n == 95 {
        Some("Roraima")
    } else if n == 96 {
        Some("Amapá")
    } else if n == 71 {
        Some("Bahia (Salvador)")
    } else if n == 73 || n == 74 || n == 75 || n == 77 {
        Some("Bahia")
    } else if n == 79 {
        Some("Sergipe")
    } else if n == 81 {
        Some("Pernambuco (Recife)")
    } else if n == 82 {
        Some("Alagoas")
    } else if n == 83 {
        Some("Paraíba")
    } else if n == 84 {
        Some("Rio Grande do Norte")
    } else if n == 85 || n == 88 {
        Some("Ceará")
    } else if n == 86 || n == 89 {
        Some("Piauí")
    } else if n == 87 {
        Some("Pernambuco")
    } else if n == 98 || n == 99 {
        Some("Maranhão")
    } else {
        None
    }
}

} // verus!
