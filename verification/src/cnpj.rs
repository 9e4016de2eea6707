//! CNPJ (business taxpayer ID) validation and formatting: a 14-digit
//! value whose last two digits are weighted modulo-11 check digits.

use vstd::prelude::*;
use vstd::string::StringExecFns;
use crate::checksum::{mod11_check_digit, mod11_of, two_ramp_sum, weighted_sum};
use crate::error::{BrazilianValidationError, ValidationResult};
use crate::text::{
    all_digits, all_digits_check, all_same, all_same_chars, chars_of, digit_val, digits_in,
    digits_of, digits_range, filter_digits, is_digit, lemma_digits_of_all_digits,
    lemma_digits_of_idempotent, push_range, repeated, string_of,
};

verus! {

/// Weights of the first check digit over digits 0 through 11:
/// 5, 4, 3, 2, 9, 8, 7, 6, 5, 4, 3, 2.
pub open spec fn cnpj_weights1() -> Seq<int> {
    Seq::new(12, |i: int| if i < 4 { 5 - i } else { 13 - i })
}

/// Weights of the second check digit over digits 0 through 12:
/// 6, 5, 4, 3, 2, 9, 8, 7, 6, 5, 4, 3, 2.
pub open spec fn cnpj_weights2() -> Seq<int> {
    Seq::new(13, |i: int| if i < 5 { 6 - i } else { 14 - i })
}

/// Both check digits of a 14-digit value agree with the weighted
/// modulo-11 rule.
pub open spec fn cnpj_checksum_ok(d: Seq<char>) -> bool
    recommends
        d.len() == 14,
{
    &&& digit_val(d[12]) == mod11_check_digit(weighted_sum(d, cnpj_weights1(), 12))
    &&& digit_val(d[13]) == mod11_check_digit(weighted_sum(d, cnpj_weights2(), 13))
}

/// A normalized value that validation accepts: exactly 14 digits, not an
/// all-repeated-digit sequence, and check digits in order.
pub open spec fn cnpj_valid(d: Seq<char>) -> bool {
    d.len() == 14 && !all_same(d) && cnpj_checksum_ok(d)
}

/// The error that validation reports for a normalized value it rejects.
pub open spec fn cnpj_error(d: Seq<char>, e: BrazilianValidationError) -> bool {
    if d.len() != 14 {
        e matches BrazilianValidationError::InvalidLength { expected, actual } && expected == 14
            && actual == d.len()
    } else if all_same(d) {
        e matches BrazilianValidationError::InvalidCnpj(m) && m@ == "sequência de dígitos repetidos"@
    } else {
        e matches BrazilianValidationError::InvalidCheckDigits { document_type }
            && document_type@ == "CNPJ"@
    }
}

/// Validate a CNPJ: normalize to digits, then check length, the
/// repeated-digit blacklist, and both check digits.
pub fn validate(cnpj: &str) -> (r: ValidationResult<String>)
    ensures
        r is Ok <==> cnpj_valid(digits_of(cnpj@)),
        r matches Ok(s) ==> s@ == digits_of(cnpj@),
        r matches Err(e) ==> cnpj_error(digits_of(cnpj@), e),
{
    let v = chars_of(cnpj);
    let cleaned = filter_digits(&v);
    proof {
        lemma_digits_of_all_digits(cnpj@);
    }

    if cleaned.len() != 14 {
        return Err(BrazilianValidationError::InvalidLength { expected: 14, actual: cleaned.len() });
    }

    // Structurally impossible after digit-only normalization; kept as a
    // defensive check on pre-normalized assumptions.
    if !all_digits_check(&cleaned) {
        return Err(BrazilianValidationError::InvalidCharacters);
    }

    if all_same_chars(&cleaned) {
        return Err(BrazilianValidationError::invalid_cnpj("sequência de dígitos repetidos"));
    }

    if !validate_check_digits(&cleaned) {
        return Err(BrazilianValidationError::InvalidCheckDigits {
            document_type: String::from_str("CNPJ"),
        });
    }

    Ok(string_of(&cleaned))
}

/// Alias for `validate`, for a consistent API.
pub fn validate_cnpj(cnpj: &str) -> (r: ValidationResult<String>)
    ensures
        r is Ok <==> cnpj_valid(digits_of(cnpj@)),
        r matches Ok(s) ==> s@ == digits_of(cnpj@),
        r matches Err(e) ==> cnpj_error(digits_of(cnpj@), e),
{
    validate(cnpj)
}

/// Normalize a CNPJ by removing every non-digit character.
pub fn normalize(cnpj: &str) -> (r: String)
    ensures
        r@ == digits_of(cnpj@),
{
    crate::text::normalize_digits(cnpj)
}

/// Alias for `normalize`, for a consistent API.
pub fn normalize_cnpj(cnpj: &str) -> (r: String)
    ensures
        r@ == digits_of(cnpj@),
{
    normalize(cnpj)
}

/// Normalizing is idempotent: a second normalization changes nothing.
pub proof fn lemma_normalize_idempotent(s: Seq<char>)
    ensures
        digits_of(digits_of(s)) == digits_of(s),
{
    lemma_digits_of_idempotent(s);
}

/// Every all-repeated-digit sequence of the correct length is rejected,
/// with the repeated-digit error, whatever its checksum outcome.
pub proof fn lemma_repeated_digits_rejected(c: char)
    requires
        crate::text::is_digit(c),
    ensures
        !cnpj_valid(repeated(c, 14)),
        forall|e: BrazilianValidationError|
            #[trigger] cnpj_error(repeated(c, 14), e) ==> (e
                matches BrazilianValidationError::InvalidCnpj(m)
                && m@ == "sequência de dígitos repetidos"@),
{
    let d = repeated(c, 14);
    assert(all_same(d));
}

/// A 14-digit value with the standard punctuation re-inserted.
pub open spec fn cnpj_formatted(d: Seq<char>) -> Seq<char> {
    d.subrange(0, 2) + seq!['.'] + d.subrange(2, 5) + seq!['.'] + d.subrange(5, 8) + seq!['/']
        + d.subrange(8, 12) + seq!['-'] + d.subrange(12, 14)
}

/// Format a CNPJ with standard punctuation; the identity on input whose
/// normalized length is not 14.
pub fn format(cnpj: &str) -> (r: String)
    ensures
        digits_of(cnpj@).len() == 14 ==> r@ == cnpj_formatted(digits_of(cnpj@)),
        digits_of(cnpj@).len() != 14 ==> r@ == cnpj@,
{
    let v = chars_of(cnpj);
    let d = filter_digits(&v);

    if d.len() == 14 {
        let mut out: Vec<char> = Vec::new();
        push_range(&mut out, &d, 0, 2);
        out.push('.');
        push_range(&mut out, &d, 2, 5);
        out.push('.');
        push_range(&mut out, &d, 5, 8);
        out.push('/');
        push_range(&mut out, &d, 8, 12);
        out.push('-');
        push_range(&mut out, &d, 12, 14);
        assert(out@ =~= cnpj_formatted(d@));
        string_of(&out)
    } else {
        String::from_str(cnpj)
    }
}

/// Alias for `format`, for a consistent API.
pub fn format_cnpj(cnpj: &str) -> (r: String)
    ensures
        digits_of(cnpj@).len() == 14 ==> r@ == cnpj_formatted(digits_of(cnpj@)),
        digits_of(cnpj@).len() != 14 ==> r@ == cnpj@,
{
    format(cnpj)
}

/// A 14-digit value redacted for display: first two digits, the branch
/// tail, and both check digits revealed.
pub open spec fn cnpj_masked(d: Seq<char>) -> Seq<char> {
    d.subrange(0, 2) + seq!['.', '*', '*', '*', '.', '*', '*', '*', '/', '*', '*']
        + d.subrange(10, 12) + seq!['-'] + d.subrange(12, 14)
}

/// Mask a CNPJ for display; the identity on input whose normalized
/// length is not 14.
pub fn mask(cnpj: &str) -> (r: String)
    ensures
        digits_of(cnpj@).len() == 14 ==> r@ == cnpj_masked(digits_of(cnpj@)),
        digits_of(cnpj@).len() != 14 ==> r@ == cnpj@,
{
    let v = chars_of(cnpj);
    let d = filter_digits(&v);

    if d.len() == 14 {
        let mut out: Vec<char> = Vec::new();
        push_range(&mut out, &d, 0, 2);
        out.push('.');
        out.push('*');
        out.push('*');
        out.push('*');
        out.push('.');
        out.push('*');
        out.push('*');
        out.push('*');
        out.push('/');
        out.push('*');
        out.push('*');
        push_range(&mut out, &d, 10, 12);
        out.push('-');
        push_range(&mut out, &d, 12, 14);
        assert(out@ =~= cnpj_masked(d@));
        string_of(&out)
    } else {
        String::from_str(cnpj)
    }
}

/// The base identifier: the first eight digits of a 14-digit value.
pub fn extract_base(cnpj: &str) -> (r: Option<String>)
    ensures
        match r {
            Some(s) => digits_of(cnpj@).len() == 14 && s@ == digits_of(cnpj@).subrange(0, 8),
            None => digits_of(cnpj@).len() != 14,
        },
{
    let v = chars_of(cnpj);
    let d = filter_digits(&v);

    if d.len() == 14 {
        let mut out: Vec<char> = Vec::new();
        push_range(&mut out, &d, 0, 8);
        Some(string_of(&out))
    } else {
        None
    }
}

/// The branch code: digits 8 through 11 of a 14-digit value.
pub fn extract_branch(cnpj: &str) -> (r: Option<String>)
    ensures
        match r {
            Some(s) => digits_of(cnpj@).len() == 14 && s@ == digits_of(cnpj@).subrange(8, 12),
            None => digits_of(cnpj@).len() != 14,
        },
{
    let v = chars_of(cnpj);
    let d = filter_digits(&v);

    if d.len() == 14 {
        let mut out: Vec<char> = Vec::new();
        push_range(&mut out, &d, 8, 12);
        Some(string_of(&out))
    } else {
        None
    }
}

/// Whether a 14-digit value names the main branch (branch code 0001).
pub fn is_main_branch(cnpj: &str) -> (r: bool)
    ensures
        r == (digits_of(cnpj@).len() == 14 && digits_of(cnpj@).subrange(8, 12) == seq![
            '0',
            '0',
            '0',
            '1',
        ]),
{
    let v = chars_of(cnpj);
    let d = filter_digits(&v);

    if d.len() == 14 {
        let r = d[8] == '0' && d[9] == '0' && d[10] == '0' && d[11] == '1';
        proof {
            if r {
                assert(d@.subrange(8, 12) =~= seq!['0', '0', '0', '1']);
            } else {
                assert(d@.subrange(8, 12) != seq!['0', '0', '0', '1']) by {
                    if d@.subrange(8, 12) == seq!['0', '0', '0', '1'] {
                        assert(d@[8] == d@.subrange(8, 12)[0]);
                        assert(d@[9] == d@.subrange(8, 12)[1]);
                        assert(d@[10] == d@.subrange(8, 12)[2]);
                        assert(d@[11] == d@.subrange(8, 12)[3]);
                    }
                }
            }
        }
        r
    } else {
        false
    }
}

/// The structural CNPJ pattern with a given choice of optional
/// separators: digit groups of 2, 3, 3, 4 and 2, with dots, a slash and
/// a hyphen each present when the matching flag is.
pub open spec fn cnpj_shape_opts(s: Seq<char>, a: bool, b: bool, c: bool, h: bool) -> bool {
    let i1 = 2 + if a {
        1int
    } else {
        0int
    };
    let i2 = i1 + 3 + if b {
        1int
    } else {
        0int
    };
    let i3 = i2 + 3 + if c {
        1int
    } else {
        0int
    };
    let i4 = i3 + 4 + if h {
        1int
    } else {
        0int
    };
    &&& s.len() == i4 + 2
    &&& digits_in(s, 0, 2)
    &&& (a ==> s[2] == '.')
    &&& digits_in(s, i1, i1 + 3)
    &&& (b ==> s[i1 + 3] == '.')
    &&& digits_in(s, i2, i2 + 3)
    &&& (c ==> s[i2 + 3] == '/')
    &&& digits_in(s, i3, i3 + 4)
    &&& (h ==> s[i3 + 4] == '-')
    &&& digits_in(s, i4, i4 + 2)
}

/// The structural CNPJ pattern `DD.DDD.DDD/DDDD-DD`, each punctuation
/// mark independently optional.
pub open spec fn cnpj_shape(s: Seq<char>) -> bool {
    ||| cnpj_shape_opts(s, false, false, false, false)
    ||| cnpj_shape_opts(s, false, false, false, true)
    ||| cnpj_shape_opts(s, false, false, true, false)
    ||| cnpj_shape_opts(s, false, false, true, true)
    ||| cnpj_shape_opts(s, false, true, false, false)
    ||| cnpj_shape_opts(s, false, true, false, true)
    ||| cnpj_shape_opts(s, false, true, true, false)
    ||| cnpj_shape_opts(s, false, true, true, true)
    ||| cnpj_shape_opts(s, true, false, false, false)
    ||| cnpj_shape_opts(s, true, false, false, true)
    ||| cnpj_shape_opts(s, true, false, true, false)
    ||| cnpj_shape_opts(s, true, false, true, true)
    ||| cnpj_shape_opts(s, true, true, false, false)
    ||| cnpj_shape_opts(s, true, true, false, true)
    ||| cnpj_shape_opts(s, true, true, true, false)
    ||| cnpj_shape_opts(s, true, true, true, true)
}

/// A value with a given separator layout normalizes to its fourteen digits.
#[verifier::rlimit(60)]
proof fn lemma_cnpj_shape_digit_count_opts(s: Seq<char>, a: bool, b: bool, c: bool, h: bool)
    requires
        cnpj_shape_opts(s, a, b, c, h),
    ensures
        digits_of(s).len() == 14,
{
    let p = |c: char| is_digit(c);
    let i1 = 2 + if a {
        1int
    } else {
        0int
    };
    let i2 = i1 + 3 + if b {
        1int
    } else {
        0int
    };
    let i3 = i2 + 3 + if c {
        1int
    } else {
        0int
    };
    let i4 = i3 + 4 + if h {
        1int
    } else {
        0int
    };
    let a1 = s.subrange(0, 2);
    let s1 = s.subrange(2, i1);
    let a2 = s.subrange(i1, i1 + 3);
    let s2 = s.subrange(i1 + 3, i2);
    let a3 = s.subrange(i2, i2 + 3);
    let s3 = s.subrange(i2 + 3, i3);
    let a4 = s.subrange(i3, i3 + 4);
    let s4 = s.subrange(i3 + 4, i4);
    let a5 = s.subrange(i4, i4 + 2);
    assert(s =~= a1 + s1 + a2 + s2 + a3 + s3 + a4 + s4 + a5);
    Seq::filter_distributes_over_add(a1 + s1 + a2 + s2 + a3 + s3 + a4 + s4, a5, p);
    Seq::filter_distributes_over_add(a1 + s1 + a2 + s2 + a3 + s3 + a4, s4, p);
    Seq::filter_distributes_over_add(a1 + s1 + a2 + s2 + a3 + s3, a4, p);
    Seq::filter_distributes_over_add(a1 + s1 + a2 + s2 + a3, s3, p);
    Seq::filter_distributes_over_add(a1 + s1 + a2 + s2, a3, p);
    Seq::filter_distributes_over_add(a1 + s1 + a2, s2, p);
    Seq::filter_distributes_over_add(a1 + s1, a2, p);
    Seq::filter_distributes_over_add(a1, s1, p);
    crate::text::lemma_filter_of_matching(a1, p);
    crate::text::lemma_filter_of_matching(a2, p);
    crate::text::lemma_filter_of_matching(a3, p);
    crate::text::lemma_filter_of_matching(a4, p);
    crate::text::lemma_filter_of_matching(a5, p);
    crate::text::lemma_filter_none_match(s1, p);
    crate::text::lemma_filter_none_match(s2, p);
    crate::text::lemma_filter_none_match(s3, p);
    crate::text::lemma_filter_none_match(s4, p);
}

/// A structurally shaped value normalizes to exactly fourteen digits.
pub proof fn lemma_cnpj_shape_digit_count(s: Seq<char>)
    requires
        cnpj_shape(s),
    ensures
        digits_of(s).len() == 14,
{
    if cnpj_shape_opts(s, false, false, false, false) {
        lemma_cnpj_shape_digit_count_opts(s, false, false, false, false);
    } else if cnpj_shape_opts(s, false, false, false, true) {
        lemma_cnpj_shape_digit_count_opts(s, false, false, false, true);
    } else if cnpj_shape_opts(s, false, false, true, false) {
        lemma_cnpj_shape_digit_count_opts(s, false, false, true, false);
    } else if cnpj_shape_opts(s, false, false, true, true) {
        lemma_cnpj_shape_digit_count_opts(s, false, false, true, true);
    } else if cnpj_shape_opts(s, false, true, false, false) {
        lemma_cnpj_shape_digit_count_opts(s, false, true, false, false);
    } else if cnpj_shape_opts(s, false, true, false, true) {
        lemma_cnpj_shape_digit_count_opts(s, false, true, false, true);
    } else if cnpj_shape_opts(s, false, true, true, false) {
        lemma_cnpj_shape_digit_count_opts(s, false, true, true, false);
    } else if cnpj_shape_opts(s, false, true, true, true) {
        lemma_cnpj_shape_digit_count_opts(s, false, true, true, true);
    } else if cnpj_shape_opts(s, true, false, false, false) {
        lemma_cnpj_shape_digit_count_opts(s, true, false, false, false);
    } else if cnpj_shape_opts(s, true, false, false, true) {
        lemma_cnpj_shape_digit_count_opts(s, true, false, false, true);
    } else if cnpj_shape_opts(s, true, false, true, false) {
        lemma_cnpj_shape_digit_count_opts(s, true, false, true, false);
    } else if cnpj_shape_opts(s, true, false, true, true) {
        lemma_cnpj_shape_digit_count_opts(s, true, false, true, true);
    } else if cnpj_shape_opts(s, true, true, false, false) {
        lemma_cnpj_shape_digit_count_opts(s, true, true, false, false);
    } else if cnpj_shape_opts(s, true, true, false, true) {
        lemma_cnpj_shape_digit_count_opts(s, true, true, false, true);
    } else if cnpj_shape_opts(s, true, true, true, false) {
        lemma_cnpj_shape_digit_count_opts(s, true, true, true, false);
    } else {
        lemma_cnpj_shape_digit_count_opts(s, true, true, true, true);
    }
}

/// Match the structural CNPJ pattern by scanning once; each separator is
/// taken as present exactly when the character at its position is one.
pub(crate) fn cnpj_shape_match(v: &Vec<char>) -> (r: bool)
    ensures
        r == cnpj_shape(v@),
{
    let n = v.len();
    if n < 14 {
        return false;
    }
    if !digits_range(v, 0, 2) {
        return false;
    }
    let a = v[2] == '.';
    let i1: usize = if a {
        3
    } else {
        2
    };
    if !digits_range(v, i1, i1 + 3) {
        return false;
    }
    let b = v[i1 + 3] == '.';
    let i2: usize = i1 + 3 + if b {
        1
    } else {
        0
    };
    if !digits_range(v, i2, i2 + 3) {
        return false;
    }
    let c = v[i2 + 3] == '/';
    let i3: usize = i2 + 3 + if c {
        1
    } else {
        0
    };
    if i3 + 4 > n {
        return false;
    }
    if !digits_range(v, i3, i3 + 4) {
        return false;
    }
    let h = i3 + 4 < n && v[i3 + 4] == '-';
    let i4: usize = i3 + 4 + if h {
        1
    } else {
        0
    };
    if i4 + 2 != n {
        return false;
    }
    if !digits_range(v, i4, i4 + 2) {
        return false;
    }
    proof {
        assert(cnpj_shape_opts(v@, a, b, c, h));
    }
    true
}

/// Whether a string has the structural shape of a CNPJ (no check-digit
/// validation).
pub fn is_cnpj_format(cnpj: &str) -> (r: bool)
    ensures
        r == cnpj_shape(cnpj@),
{
    let v = chars_of(cnpj);
    cnpj_shape_match(&v)
}

/// Check both CNPJ check digits with the shared weighted modulo-11 rule.
fn validate_check_digits(d: &Vec<char>) -> (r: bool)
    requires
        d@.len() == 14,
        all_digits(d@),
    ensures
        r == cnpj_checksum_ok(d@),
{
    let sum1 = two_ramp_sum(d, Ghost(cnpj_weights1()), 12, 4, 5, 13);
    let check1 = mod11_of(sum1);
    if check1 != crate::text::digit_value(d[12]) {
        return false;
    }

    let sum2 = two_ramp_sum(d, Ghost(cnpj_weights2()), 13, 5, 6, 14);
    let check2 = mod11_of(sum2);
    check2 == crate::text::digit_value(d[13])
}

} // verus!
