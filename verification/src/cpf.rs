//! CPF (individual taxpayer ID) validation and formatting: an 11-digit
//! value whose last two digits are weighted modulo-11 check digits.

use vstd::prelude::*;
use vstd::string::StringExecFns;
use crate::checksum::{mod11_check_digit, mod11_of, two_ramp_sum, weighted_sum};
use crate::error::{BrazilianValidationError, ValidationResult};
use crate::text::{
    all_digits, all_digits_check, all_same, all_same_chars, chars_of, digit_val, digits_in,
    digits_of, digits_range, filter_digits, is_digit, lemma_digits_of_all_digits,
    lemma_digits_of_idempotent, push_range, repeated, string_of,
};

verus! {

/// Weights of the first check digit: digit `i` of the first nine weighs `10 - i`.
pub open spec fn cpf_weights1() -> Seq<int> {
    Seq::new(9, |i: int| 10 - i)
}

/// Weights of the second check digit: digit `i` of the first ten weighs `11 - i`.
pub open spec fn cpf_weights2() -> Seq<int> {
    Seq::new(10, |i: int| 11 - i)
}

/// Both check digits of an 11-digit value agree with the weighted
/// modulo-11 rule.
pub open spec fn cpf_checksum_ok(d: Seq<char>) -> bool
    recommends
        d.len() == 11,
{
    &&& digit_val(d[9]) == mod11_check_digit(weighted_sum(d, cpf_weights1(), 9))
    &&& digit_val(d[10]) == mod11_check_digit(weighted_sum(d, cpf_weights2(), 10))
}

/// A normalized value that validation accepts: exactly 11 digits, not an
/// all-repeated-digit sequence, and check digits in order.
pub open spec fn cpf_valid(d: Seq<char>) -> bool {
    d.len() == 11 && !all_same(d) && cpf_checksum_ok(d)
}

/// The error that validation reports for a normalized value it rejects.
pub open spec fn cpf_error(d: Seq<char>, e: BrazilianValidationError) -> bool {
    if d.len() != 11 {
        e matches BrazilianValidationError::InvalidLength { expected, actual } && expected == 11
            && actual == d.len()
    } else if all_same(d) {
        e matches BrazilianValidationError::InvalidCpf(m) && m@ == "sequência de dígitos repetidos"@
    } else {
        e matches BrazilianValidationError::InvalidCheckDigits { document_type }
            && document_type@ == "CPF"@
    }
}

/// Validate a CPF: normalize to digits, then check length, the
/// repeated-digit blacklist, and both check digits.
pub fn validate(cpf: &str) -> (r: ValidationResult<String>)
    ensures
        r is Ok <==> cpf_valid(digits_of(cpf@)),
        r matches Ok(s) ==> s@ == digits_of(cpf@),
        r matches Err(e) ==> cpf_error(digits_of(cpf@), e),
{
    let v = chars_of(cpf);
    let cleaned = filter_digits(&v);
    proof {
        lemma_digits_of_all_digits(cpf@);
    }

    if cleaned.len() != 11 {
        return Err(BrazilianValidationError::InvalidLength { expected: 11, actual: cleaned.len() });
    }

    // Structurally impossible after digit-only normalization; kept as a
    // defensive check on pre-normalized assumptions.
    if !all_digits_check(&cleaned) {
        return Err(BrazilianValidationError::InvalidCharacters);
    }

    if all_same_chars(&cleaned) {
        return Err(BrazilianValidationError::invalid_cpf("sequência de dígitos repetidos"));
    }

    if !validate_check_digits(&cleaned) {
        return Err(BrazilianValidationError::InvalidCheckDigits {
            document_type: String::from_str("CPF"),
        });
    }

    Ok(string_of(&cleaned))
}

/// Alias for `validate`, for a consistent API.
pub fn validate_cpf(cpf: &str) -> (r: ValidationResult<String>)
    ensures
        r is Ok <==> cpf_valid(digits_of(cpf@)),
        r matches Ok(s) ==> s@ == digits_of(cpf@),
        r matches Err(e) ==> cpf_error(digits_of(cpf@), e),
{
    validate(cpf)
}

/// Normalize a CPF by removing every non-digit character.
pub fn normalize(cpf: &str) -> (r: String)
    ensures
        r@ == digits_of(cpf@),
{
    crate::text::normalize_digits(cpf)
}

/// Alias for `normalize`, for a consistent API.
pub fn normalize_cpf(cpf: &str) -> (r: String)
    ensures
        r@ == digits_of(cpf@),
{
    normalize(cpf)
}

/// Normalizing is idempotent: a second normalization changes nothing.
pub proof fn lemma_normalize_idempotent(s: Seq<char>)
    ensures
        digits_of(digits_of(s)) == digits_of(s),
{
    lemma_digits_of_idempotent(s);
}

/// An 11-digit value with the standard punctuation re-inserted.
pub open spec fn cpf_formatted(d: Seq<char>) -> Seq<char> {
    d.subrange(0, 3) + seq!['.'] + d.subrange(3, 6) + seq!['.'] + d.subrange(6, 9) + seq!['-']
        + d.subrange(9, 11)
}

/// Format a CPF with standard punctuation; the identity on input whose
/// normalized length is not 11.
pub fn format(cpf: &str) -> (r: String)
    ensures
        digits_of(cpf@).len() == 11 ==> r@ == cpf_formatted(digits_of(cpf@)),
        digits_of(cpf@).len() != 11 ==> r@ == cpf@,
{
    let v = chars_of(cpf);
    let d = filter_digits(&v);

    if d.len() == 11 {
        let mut out: Vec<char> = Vec::new();
        push_range(&mut out, &d, 0, 3);
        out.push('.');
        push_range(&mut out, &d, 3, 6);
        out.push('.');
        push_range(&mut out, &d, 6, 9);
        out.push('-');
        push_range(&mut out, &d, 9, 11);
        assert(out@ =~= cpf_formatted(d@));
        string_of(&out)
    } else {
        String::from_str(cpf)
    }
}

/// Alias for `format`, for a consistent API.
pub fn format_cpf(cpf: &str) -> (r: String)
    ensures
        digits_of(cpf@).len() == 11 ==> r@ == cpf_formatted(digits_of(cpf@)),
        digits_of(cpf@).len() != 11 ==> r@ == cpf@,
{
    format(cpf)
}

/// An 11-digit value redacted for display: first three and last two
/// digits revealed, the middle replaced by asterisks.
pub open spec fn cpf_masked(d: Seq<char>) -> Seq<char> {
    d.subrange(0, 3) + seq!['.', '*', '*', '*', '.', '*', '*', '*', '-'] + d.subrange(9, 11)
}

/// Mask a CPF for display; the identity on input whose normalized length
/// is not 11.
pub fn mask(cpf: &str) -> (r: String)
    ensures
        digits_of(cpf@).len() == 11 ==> r@ == cpf_masked(digits_of(cpf@)),
        digits_of(cpf@).len() != 11 ==> r@ == cpf@,
{
    let v = chars_of(cpf);
    let d = filter_digits(&v);

    if d.len() == 11 {
        let mut out: Vec<char> = Vec::new();
        push_range(&mut out, &d, 0, 3);
        out.push('.');
        out.push('*');
        out.push('*');
        out.push('*');
        out.push('.');
        out.push('*');
        out.push('*');
        out.push('*');
        out.push('-');
        push_range(&mut out, &d, 9, 11);
        assert(out@ =~= cpf_masked(d@));
        string_of(&out)
    } else {
        String::from_str(cpf)
    }
}

/// A sequence that extends another beyond index 0 and differs from it
/// nowhere below the shorter length stays non-repeating.
proof fn lemma_extension_not_all_same(base: Seq<char>, full: Seq<char>)
    requires
        !all_same(base),
        0 < base.len() <= full.len(),
        forall|i: int| 0 <= i < base.len() ==> full[i] == base[i],
    ensures
        !all_same(full),
{
    let j = choose|j: int| 0 <= j < base.len() && #[trigger] base[j] != base[0];
    assert(full[j] != full[0]);
}

/// Every all-repeated-digit sequence of the correct length is rejected,
/// with the repeated-digit error, whatever its checksum outcome.
pub proof fn lemma_repeated_digits_rejected(c: char)
    requires
        crate::text::is_digit(c),
    ensures
        !cpf_valid(repeated(c, 11)),
        forall|e: BrazilianValidationError|
            #[trigger] cpf_error(repeated(c, 11), e) ==> (e
                matches BrazilianValidationError::InvalidCpf(m)
                && m@ == "sequência de dígitos repetidos"@),
{
    let d = repeated(c, 11);
    assert(all_same(d));
}

/// Appending to a 9-digit base the two check digits computed by the
/// weighted modulo-11 rule yields a value that validation accepts, as
/// long as the base is not one repeated digit.
pub proof fn lemma_check_digits_complete(base: Seq<char>, c1: char, c2: char)
    requires
        base.len() == 9,
        all_digits(base),
        !all_same(base),
        crate::text::is_digit(c1),
        digit_val(c1) == mod11_check_digit(weighted_sum(base, cpf_weights1(), 9)),
        crate::text::is_digit(c2),
        digit_val(c2) == mod11_check_digit(weighted_sum(base.push(c1), cpf_weights2(), 10)),
    ensures
        cpf_valid(base.push(c1).push(c2)),
{
    let full = base.push(c1).push(c2);
    crate::checksum::lemma_weighted_sum_prefix(full, base, cpf_weights1(), 9);
    crate::checksum::lemma_weighted_sum_prefix(full, base.push(c1), cpf_weights2(), 10);
    lemma_extension_not_all_same(base, full);
}

/// Replacing either computed check digit with any other digit yields a
/// value that validation rejects, with the check-digit error.
pub proof fn lemma_flipped_check_digit_rejected(base: Seq<char>, c1: char, c2: char, x1: char, x2: char)
    requires
        base.len() == 9,
        all_digits(base),
        !all_same(base),
        crate::text::is_digit(c1),
        digit_val(c1) == mod11_check_digit(weighted_sum(base, cpf_weights1(), 9)),
        crate::text::is_digit(c2),
        digit_val(c2) == mod11_check_digit(weighted_sum(base.push(c1), cpf_weights2(), 10)),
        crate::text::is_digit(x1),
        x1 != c1,
        crate::text::is_digit(x2),
        x2 != c2,
    ensures
        !cpf_valid(base.push(x1).push(c2)),
        !cpf_valid(base.push(c1).push(x2)),
        forall|e: BrazilianValidationError|
            #[trigger] cpf_error(base.push(x1).push(c2), e) ==> (e
                matches BrazilianValidationError::InvalidCheckDigits { document_type }
                && document_type@ == "CPF"@),
        forall|e: BrazilianValidationError|
            #[trigger] cpf_error(base.push(c1).push(x2), e) ==> (e
                matches BrazilianValidationError::InvalidCheckDigits { document_type }
                && document_type@ == "CPF"@),
{
    broadcast use vstd::utf8::char_u32_cast;

    let full1 = base.push(x1).push(c2);
    let full2 = base.push(c1).push(x2);
    assert(x1 as u32 != c1 as u32);
    assert(x2 as u32 != c2 as u32);
    crate::checksum::lemma_weighted_sum_prefix(full1, base, cpf_weights1(), 9);
    assert(!cpf_checksum_ok(full1));
    crate::checksum::lemma_weighted_sum_prefix(full2, base, cpf_weights1(), 9);
    crate::checksum::lemma_weighted_sum_prefix(full2, base.push(c1), cpf_weights2(), 10);
    assert(!cpf_checksum_ok(full2));
    lemma_extension_not_all_same(base, full1);
    lemma_extension_not_all_same(base, full2);
}

/// The structural CPF pattern with a given choice of optional separators:
/// three digit triples, each dot present when the matching flag is, then a
/// digit pair with an optional hyphen.
pub open spec fn cpf_shape_opts(s: Seq<char>, a: bool, b: bool, c: bool) -> bool {
    let i1 = 3 + if a {
        1int
    } else {
        0int
    };
    let i2 = i1 + 3 + if b {
        1int
    } else {
        0int
    };
    let i3 = i2 + 3 + if c {
        1int
    } else {
        0int
    };
    &&& s.len() == i3 + 2
    &&& digits_in(s, 0, 3)
    &&& (a ==> s[3] == '.')
    &&& digits_in(s, i1, i1 + 3)
    &&& (b ==> s[i1 + 3] == '.')
    &&& digits_in(s, i2, i2 + 3)
    &&& (c ==> s[i2 + 3] == '-')
    &&& digits_in(s, i3, i3 + 2)
}

/// The structural CPF pattern `DDD.DDD.DDD-DD`, each punctuation mark
/// independently optional.
pub open spec fn cpf_shape(s: Seq<char>) -> bool {
    ||| cpf_shape_opts(s, false, false, false)
    ||| cpf_shape_opts(s, false, false, true)
    ||| cpf_shape_opts(s, false, true, false)
    ||| cpf_shape_opts(s, false, true, true)
    ||| cpf_shape_opts(s, true, false, false)
    ||| cpf_shape_opts(s, true, false, true)
    ||| cpf_shape_opts(s, true, true, false)
    ||| cpf_shape_opts(s, true, true, true)
}

/// A value with a given separator layout normalizes to its eleven digits.
proof fn lemma_cpf_shape_digit_count_opts(s: Seq<char>, a: bool, b: bool, c: bool)
    requires
        cpf_shape_opts(s, a, b, c),
    ensures
        digits_of(s).len() == 11,
{
    let p = |c: char| is_digit(c);
    let i1 = 3 + if a {
        1int
    } else {
        0int
    };
    let i2 = i1 + 3 + if b {
        1int
    } else {
        0int
    };
    let i3 = i2 + 3 + if c {
        1int
    } else {
        0int
    };
    let a1 = s.subrange(0, 3);
    let s1 = s.subrange(3, i1);
    let a2 = s.subrange(i1, i1 + 3);
    let s2 = s.subrange(i1 + 3, i2);
    let a3 = s.subrange(i2, i2 + 3);
    let s3 = s.subrange(i2 + 3, i3);
    let a4 = s.subrange(i3, i3 + 2);
    assert(s =~= a1 + s1 + a2 + s2 + a3 + s3 + a4);
    Seq::filter_distributes_over_add(a1 + s1 + a2 + s2 + a3 + s3, a4, p);
    Seq::filter_distributes_over_add(a1 + s1 + a2 + s2 + a3, s3, p);
    Seq::filter_distributes_over_add(a1 + s1 + a2 + s2, a3, p);
    Seq::filter_distributes_over_add(a1 + s1 + a2, s2, p);
    Seq::filter_distributes_over_add(a1 + s1, a2, p);
    Seq::filter_distributes_over_add(a1, s1, p);
    crate::text::lemma_filter_of_matching(a1, p);
    crate::text::lemma_filter_of_matching(a2, p);
    crate::text::lemma_filter_of_matching(a3, p);
    crate::text::lemma_filter_of_matching(a4, p);
    crate::text::lemma_filter_none_match(s1, p);
    crate::text::lemma_filter_none_match(s2, p);
    crate::text::lemma_filter_none_match(s3, p);
}

/// A structurally shaped value normalizes to exactly eleven digits.
pub proof fn lemma_cpf_shape_digit_count(s: Seq<char>)
    requires
        cpf_shape(s),
    ensures
        digits_of(s).len() == 11,
{
    if cpf_shape_opts(s, false, false, false) {
        lemma_cpf_shape_digit_count_opts(s, false, false, false);
    } else if cpf_shape_opts(s, false, false, true) {
        lemma_cpf_shape_digit_count_opts(s, false, false, true);
    } else if cpf_shape_opts(s, false, true, false) {
        lemma_cpf_shape_digit_count_opts(s, false, true, false);
    } else if cpf_shape_opts(s, false, true, true) {
        lemma_cpf_shape_digit_count_opts(s, false, true, true);
    } else if cpf_shape_opts(s, true, false, false) {
        lemma_cpf_shape_digit_count_opts(s, true, false, false);
    } else if cpf_shape_opts(s, true, false, true) {
        lemma_cpf_shape_digit_count_opts(s, true, false, true);
    } else if cpf_shape_opts(s, true, true, false) {
        lemma_cpf_shape_digit_count_opts(s, true, true, false);
    } else {
        lemma_cpf_shape_digit_count_opts(s, true, true, true);
    }
}

/// Match the structural CPF pattern by scanning once; each separator is
/// taken as present exactly when the character at its position is one.
pub(crate) fn cpf_shape_match(v: &Vec<char>) -> (r: bool)
    ensures
        r == cpf_shape(v@),
{
    let n = v.len();
    if n < 11 {
        return false;
    }
    if !digits_range(v, 0, 3) {
        return false;
    }
    let a = v[3] == '.';
    let i1: usize = if a {
        4
    } else {
        3
    };
    if !digits_range(v, i1, i1 + 3) {
        return false;
    }
    let b = v[i1 + 3] == '.';
    let i2: usize = i1 + 3 + if b {
        1
    } else {
        0
    };
    if !digits_range(v, i2, i2 + 3) {
        return false;
    }
    let c = i2 + 3 < n && v[i2 + 3] == '-';
    let i3: usize = i2 + 3 + if c {
        1
    } else {
        0
    };
    if i3 + 2 != n {
        return false;
    }
    if !digits_range(v, i3, i3 + 2) {
        return false;
    }
    proof {
        assert(cpf_shape_opts(v@, a, b, c));
    }
    true
}

/// Whether a string has the structural shape of a CPF (no check-digit
/// validation).
pub fn is_cpf_format(cpf: &str) -> (r: bool)
    ensures
        r == cpf_shape(cpf@),
{
    let v = chars_of(cpf);
    cpf_shape_match(&v)
}

/// Check both CPF check digits with the shared weighted modulo-11 rule.
fn validate_check_digits(d: &Vec<char>) -> (r: bool)
    requires
        d@.len() == 11,
        all_digits(d@),
    ensures
        r == cpf_checksum_ok(d@),
{
    let sum1 = two_ramp_sum(d, Ghost(cpf_weights1()), 9, 9, 10, 14);
    let check1 = mod11_of(sum1);
    if check1 != crate::text::digit_value(d[9]) {
        return false;
    }

    let sum2 = two_ramp_sum(d, Ghost(cpf_weights2()), 10, 10, 11, 14);
    let check2 = mod11_of(sum2);
    check2 == crate::text::digit_value(d[10])
}

} // verus!
