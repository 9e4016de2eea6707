//! PIX instant-payment key validation: classify a key among CPF, CNPJ,
//! email, phone and random (UUID) formats by fixed precedence, and
//! delegate semantic validation to the matched kind.

use vstd::prelude::*;
use vstd::string::StringExecFns;
use crate::cnpj::{cnpj_masked, cnpj_shape, cnpj_shape_match, cnpj_valid, cnpj_error};
use crate::cpf::{cpf_masked, cpf_shape, cpf_shape_match, cpf_valid, cpf_error};
use crate::error::{BrazilianValidationError, ValidationResult};
use crate::text::{
    chars_of, digits_in, digits_of, digits_range, filter_digits, find_first, is_digit,
    lemma_find_first_hit, lemma_find_first_miss, push_range, string_of, trim_chars,
    trimmed,
};

verus! {

/// What str::to_lowercase returns; the result depends on the characters
/// alone, by the Unicode lowercase mappings.
pub uninterp spec fn lower_of(s: Seq<char>) -> Seq<char>;

/// Relies on str::to_lowercase: the lowercase equivalent of the string,
/// a function of its characters alone.
#[verifier::external_body]
fn lowercase(s: &str) -> (r: String)
    ensures
        r@ == lower_of(s@),
{
    s.to_lowercase()
}

/// The kinds of PIX key.
#[derive(Debug, Clone, Copy, PartialEq, Eq, Structural)]
pub enum PixKeyType {
    /// CPF (individual taxpayer ID)
    Cpf,
    /// CNPJ (business taxpayer ID)
    Cnpj,
    /// Email address
    Email,
    /// Phone number (+55 format)
    Phone,
    /// Random key (UUID)
    Random,
}

impl PixKeyType {
    /// The display label of the kind.
    pub fn label(&self) -> (r: &'static str)
        ensures
            r@ == match *self {
                PixKeyType::Cpf => "CPF"@,
                PixKeyType::Cnpj => "CNPJ"@,
                PixKeyType::Email => "E-mail"@,
                PixKeyType::Phone => "Telefone"@,
                PixKeyType::Random => "Chave aleatória"@,
            },
    {
        match self {
            PixKeyType::Cpf => "CPF",
            PixKeyType::Cnpj => "CNPJ",
            PixKeyType::Email => "E-mail",
            PixKeyType::Phone => "Telefone",
            PixKeyType::Random => "Chave aleatória",
        }
    }
}

/// An ASCII letter.
pub open spec fn is_alpha(c: char) -> bool {
    (65 <= c as u32 <= 90) || (97 <= c as u32 <= 122)
}

/// A character allowed in the local part of an email address.
pub open spec fn email_local_char(c: char) -> bool {
    is_alpha(c) || is_digit(c) || c == '.' || c == '_' || c == '%' || c == '+' || c == '-'
}

/// A character allowed in the domain of an email address before its last
/// dot.
pub open spec fn email_domain_char(c: char) -> bool {
    is_alpha(c) || is_digit(c) || c == '.' || c == '-'
}

/// The email pattern split at `@` position `i` and top-level-domain dot
/// `j`: a non-empty local part, a non-empty domain, and an all-letter
/// top-level domain of at least two characters.
pub open spec fn email_split_ok(s: Seq<char>, i: int, j: int) -> bool {
    &&& 1 <= i
    &&& i + 2 <= j
    &&& j + 3 <= s.len()
    &&& s[i] == '@'
    &&& s[j] == '.'
    &&& (forall|k: int| 0 <= k < i ==> email_local_char(#[trigger] s[k]))
    &&& (forall|k: int| i < k < j ==> email_domain_char(#[trigger] s[k]))
    &&& (forall|k: int| j < k < s.len() ==> is_alpha(#[trigger] s[k]))
}

/// The structural email pattern: some split into local part, domain and
/// top-level domain works.
pub open spec fn email_shape(s: Seq<char>) -> bool {
    exists|i: int, j: int| email_split_ok(s, i, j)
}

/// The strict PIX phone pattern: `+55` followed by exactly 11 digits.
pub open spec fn pix_phone_shape(s: Seq<char>) -> bool {
    s.len() == 14 && s[0] == '+' && s[1] == '5' && s[2] == '5' && digits_in(s, 3, 14)
}

/// A lowercase hexadecimal digit.
pub open spec fn is_low_hex(c: char) -> bool {
    is_digit(c) || (97 <= c as u32 <= 102)
}

/// The canonical random-key pattern: lowercase-hex groups of 8, 4, 4, 4
/// and 12 characters separated by hyphens.
pub open spec fn uuid_shape(s: Seq<char>) -> bool {
    &&& s.len() == 36
    &&& s[8] == '-'
    &&& s[13] == '-'
    &&& s[18] == '-'
    &&& s[23] == '-'
    &&& (forall|k: int|
        0 <= k < 36 && k != 8 && k != 13 && k != 18 && k != 23 ==> is_low_hex(#[trigger] s[k]))
}

/// The dispatcher's fixed, short-circuiting precedence: the first shape
/// to match wins, and the random shape is checked on the lowercased key.
pub open spec fn pix_detect(t: Seq<char>) -> Option<PixKeyType> {
    if cpf_shape(t) {
        Some(PixKeyType::Cpf)
    } else if cnpj_shape(t) {
        Some(PixKeyType::Cnpj)
    } else if email_shape(t) {
        Some(PixKeyType::Email)
    } else if pix_phone_shape(t) {
        Some(PixKeyType::Phone)
    } else if uuid_shape(lower_of(t)) {
        Some(PixKeyType::Random)
    } else {
        None
    }
}

/// A trimmed key that validation accepts: a structurally matched kind
/// whose semantic validator (checksums, for the tax-ID kinds) passes.
pub open spec fn pix_accepts(t: Seq<char>) -> bool {
    match pix_detect(t) {
        Some(PixKeyType::Cpf) => cpf_valid(digits_of(t)),
        Some(PixKeyType::Cnpj) => cnpj_valid(digits_of(t)),
        Some(_) => true,
        None => false,
    }
}

/// The error that validation reports for a trimmed key it rejects.
pub open spec fn pix_error(t: Seq<char>, e: BrazilianValidationError) -> bool {
    match pix_detect(t) {
        Some(PixKeyType::Cpf) => cpf_error(digits_of(t), e),
        Some(PixKeyType::Cnpj) => cnpj_error(digits_of(t), e),
        None => e matches BrazilianValidationError::InvalidPixKey(m) && m@
            == "formato não reconhecido"@,
        Some(_) => false,
    }
}

/// The canonical value returned for an accepted key: tax IDs
/// digit-normalized, email and random keys lowercased, phone verbatim.
pub open spec fn pix_canonical(t: Seq<char>) -> Seq<char> {
    match pix_detect(t) {
        Some(PixKeyType::Cpf) => digits_of(t),
        Some(PixKeyType::Cnpj) => digits_of(t),
        Some(PixKeyType::Email) => lower_of(t),
        Some(PixKeyType::Phone) => t,
        Some(PixKeyType::Random) => lower_of(t),
        None => t,
    }
}

/// The dispatcher assigns at most one kind per input, by fixed
/// precedence: a kind is assigned exactly when its shape matches and no
/// earlier shape does; and the assignment is a function of the key
/// alone, so repeated calls agree.
pub proof fn lemma_detect_precedence(t: Seq<char>)
    ensures
        pix_detect(t) == Some(PixKeyType::Cpf) <==> cpf_shape(t),
        pix_detect(t) == Some(PixKeyType::Cnpj) <==> (!cpf_shape(t) && cnpj_shape(t)),
        pix_detect(t) == Some(PixKeyType::Email) <==> (!cpf_shape(t) && !cnpj_shape(t)
            && email_shape(t)),
        pix_detect(t) == Some(PixKeyType::Phone) <==> (!cpf_shape(t) && !cnpj_shape(t)
            && !email_shape(t) && pix_phone_shape(t)),
        pix_detect(t) == Some(PixKeyType::Random) <==> (!cpf_shape(t) && !cnpj_shape(t)
            && !email_shape(t) && !pix_phone_shape(t) && uuid_shape(lower_of(t))),
        pix_detect(t) is None <==> (!cpf_shape(t) && !cnpj_shape(t) && !email_shape(t)
            && !pix_phone_shape(t) && !uuid_shape(lower_of(t))),
{
}

/// Whether the trimmed key has the structural CPF shape.
fn is_cpf_format(t: &Vec<char>) -> (r: bool)
    ensures
        r == cpf_shape(t@),
{
    cpf_shape_match(t)
}

/// Whether the trimmed key has the structural CNPJ shape.
fn is_cnpj_format(t: &Vec<char>) -> (r: bool)
    ensures
        r == cnpj_shape(t@),
{
    cnpj_shape_match(t)
}

/// Whether positions `[from, to)` of `v` all hold local-part characters.
fn local_chars_range(v: &Vec<char>, from: usize, to: usize) -> (r: bool)
    requires
        from <= to,
        to <= v@.len(),
    ensures
        r == (forall|k: int| from <= k < to ==> email_local_char(#[trigger] v@[k])),
{
    let mut k: usize = from;
    while k < to
        invariant
            from <= k <= to,
            forall|m: int| from <= m < k ==> email_local_char(#[trigger] v@[m]),
        decreases to - k,
    {
        let c = v[k];
        let u = c as u32;
        let ok = (65 <= u && u <= 90) || (97 <= u && u <= 122) || (48 <= u && u <= 57) || c == '.'
            || c == '_' || c == '%' || c == '+' || c == '-';
        if !ok {
            return false;
        }
        k = k + 1;
    }
    true
}

/// Whether positions `[from, to)` of `v` all hold domain characters.
fn domain_chars_range(v: &Vec<char>, from: usize, to: usize) -> (r: bool)
    requires
        from <= to,
        to <= v@.len(),
    ensures
        r == (forall|k: int| from <= k < to ==> email_domain_char(#[trigger] v@[k])),
{
    let mut k: usize = from;
    while k < to
        invariant
            from <= k <= to,
            forall|m: int| from <= m < k ==> email_domain_char(#[trigger] v@[m]),
        decreases to - k,
    {
        let c = v[k];
        let u = c as u32;
        let ok = (65 <= u && u <= 90) || (97 <= u && u <= 122) || (48 <= u && u <= 57) || c == '.'
            || c == '-';
        if !ok {
            return false;
        }
        k = k + 1;
    }
    true
}

/// Whether positions `[from, to)` of `v` all hold ASCII letters.
fn alpha_chars_range(v: &Vec<char>, from: usize, to: usize) -> (r: bool)
    requires
        from <= to,
        to <= v@.len(),
    ensures
        r == (forall|k: int| from <= k < to ==> is_alpha(#[trigger] v@[k])),
{
    let mut k: usize = from;
    while k < to
        invariant
            from <= k <= to,
            forall|m: int| from <= m < k ==> is_alpha(#[trigger] v@[m]),
        decreases to - k,
    {
        let c = v[k];
        let u = c as u32;
        let ok = (65 <= u && u <= 90) || (97 <= u && u <= 122);
        if !ok {
            return false;
        }
        k = k + 1;
    }
    true
}

/// Whether the trimmed key has the structural email shape: the local
/// part ends at the first `@`, the top-level domain starts at the last
/// dot, and each segment holds only its character class.
fn is_email_format(v: &Vec<char>) -> (r: bool)
    ensures
        r == email_shape(v@),
{
    let n = v.len();
    let mut i: usize = 0;
    while i < n && v[i] != '@'
        invariant
            i <= n,
            forall|k: int| 0 <= k < i ==> v@[k] != '@',
        decreases n - i,
    {
        i = i + 1;
    }
    if i == n {
        proof {
            assert forall|i2: int, j2: int| !email_split_ok(v@, i2, j2) by {
                if email_split_ok(v@, i2, j2) {
                    assert(v@[i2] == '@');
                }
            }
        }
        return false;
    }
    // v[i] is the first '@'
    if i == 0 {
        proof {
            assert forall|i2: int, j2: int| !email_split_ok(v@, i2, j2) by {
                if email_split_ok(v@, i2, j2) {
                    if i2 == 0 {
                    } else {
                        assert(email_local_char(v@[0]));
                    }
                }
            }
        }
        return false;
    }
    if !local_chars_range(v, 0, i) {
        proof {
            let k0 = choose|k: int| 0 <= k < i && !email_local_char(#[trigger] v@[k]);
            assert forall|i2: int, j2: int| !email_split_ok(v@, i2, j2) by {
                if email_split_ok(v@, i2, j2) {
                    if i2 <= k0 {
                        assert(v@[i2] == '@');
                    } else {
                        assert(email_local_char(v@[k0]));
                    }
                }
            }
        }
        return false;
    }
    // find the last '.'
    let mut m: usize = n;
    while m > 0 && v[m - 1] != '.'
        invariant
            m <= n,
            forall|k: int| m <= k < n ==> v@[k] != '.',
        decreases m,
    {
        m = m - 1;
    }
    proof {
        // in any split, the '@' is at i and the dot is the last one
        assert forall|i2: int, j2: int| email_split_ok(v@, i2, j2) implies i2 == i as int by {
            if i2 < i as int {
                assert(v@[i2] == '@');
            } else if i2 > i as int {
                assert(email_local_char(v@[i as int]));
            }
        }
    }
    if m == 0 {
        proof {
            assert forall|i2: int, j2: int| !email_split_ok(v@, i2, j2) by {
                if email_split_ok(v@, i2, j2) {
                    assert(v@[j2] == '.');
                }
            }
        }
        return false;
    }
    let j = m - 1;
    // v[j] is the last '.'
    proof {
        assert forall|i2: int, j2: int| email_split_ok(v@, i2, j2) implies j2 == j as int by {
            if j2 > j as int {
                assert(v@[j2] == '.');
            } else if j2 < j as int {
                assert(is_alpha(v@[j as int]));
            }
        }
    }
    if j < 2 || j - 2 < i {
        proof {
            assert forall|i2: int, j2: int| !email_split_ok(v@, i2, j2) by {
                if email_split_ok(v@, i2, j2) {
                    assert(i2 == i as int && j2 == j as int);
                }
            }
        }
        return false;
    }
    if n < 3 || j > n - 3 {
        proof {
            assert forall|i2: int, j2: int| !email_split_ok(v@, i2, j2) by {
                if email_split_ok(v@, i2, j2) {
                    assert(i2 == i as int && j2 == j as int);
                }
            }
        }
        return false;
    }
    if !alpha_chars_range(v, j + 1, n) {
        proof {
            let k0 = choose|k: int| j + 1 <= k < n && !is_alpha(#[trigger] v@[k]);
            assert forall|i2: int, j2: int| !email_split_ok(v@, i2, j2) by {
                if email_split_ok(v@, i2, j2) {
                    assert(j2 == j as int);
                    assert(is_alpha(v@[k0]));
                }
            }
        }
        return false;
    }
    if !domain_chars_range(v, i + 1, j) {
        proof {
            let k0 = choose|k: int| i + 1 <= k < j && !email_domain_char(#[trigger] v@[k]);
            assert forall|i2: int, j2: int| !email_split_ok(v@, i2, j2) by {
                if email_split_ok(v@, i2, j2) {
                    assert(i2 == i as int && j2 == j as int);
                    assert(email_domain_char(v@[k0]));
                }
            }
        }
        return false;
    }
    proof {
        assert(email_split_ok(v@, i as int, j as int));
    }
    true
}

/// Whether the trimmed key has the strict PIX phone shape.
fn is_phone_format(v: &Vec<char>) -> (r: bool)
    ensures
        r == pix_phone_shape(v@),
{
    v.len() == 14 && v[0] == '+' && v[1] == '5' && v[2] == '5' && digits_range(v, 3, 14)
}

/// Whether the lowercased characters have the canonical random-key shape.
pub fn uuid_match(v: &Vec<char>) -> (r: bool)
    ensures
        r == uuid_shape(v@),
{
    if v.len() != 36 {
        return false;
    }
    let mut k: usize = 0;
    while k < 36
        invariant
            k <= 36,
            v@.len() == 36,
            forall|m: int|
                0 <= m < k && m != 8 && m != 13 && m != 18 && m != 23 ==> is_low_hex(
                    #[trigger] v@[m],
                ),
            forall|m: int|
                0 <= m < k && (m == 8 || m == 13 || m == 18 || m == 23) ==> v@[m] == '-',
        decreases 36 - k,
    {
        let c = v[k];
        if k == 8 || k == 13 || k == 18 || k == 23 {
            if c != '-' {
                return false;
            }
        } else {
            let u = c as u32;
            if !((48 <= u && u <= 57) || (97 <= u && u <= 102)) {
                return false;
            }
        }
        k = k + 1;
    }
    true
}

/// Whether the trimmed key, lowercased, has the random-key shape.
fn is_random_key_format(t: &Vec<char>) -> (r: bool)
    ensures
        r == uuid_shape(lower_of(t@)),
{
    let ts = string_of(t);
    let lc = lowercase(ts.as_str());
    let lv = chars_of(lc.as_str());
    uuid_match(&lv)
}

/// Validate a PIX key: trim it, classify it by precedence, and run the
/// matched kind's semantic validator.
pub fn validate(key: &str) -> (r: ValidationResult<()>)
    ensures
        r is Ok <==> pix_accepts(trimmed(key@)),
        r matches Err(e) ==> pix_error(trimmed(key@), e),
{
    let v = chars_of(key);
    let t = trim_chars(&v);

    if is_cpf_format(&t) {
        let ts = string_of(&t);
        match crate::cpf::validate(ts.as_str()) {
            Ok(_) => Ok(()),
            Err(e) => Err(e),
        }
    } else if is_cnpj_format(&t) {
        let ts = string_of(&t);
        match crate::cnpj::validate(ts.as_str()) {
            Ok(_) => Ok(()),
            Err(e) => Err(e),
        }
    } else if is_email_format(&t) {
        Ok(())
    } else if is_phone_format(&t) {
        Ok(())
    } else if is_random_key_format(&t) {
        Ok(())
    } else {
        Err(BrazilianValidationError::invalid_pix_key("formato não reconhecido"))
    }
}

/// Alias for `validate`, for a consistent API.
pub fn validate_pix_key(key: &str) -> (r: ValidationResult<()>)
    ensures
        r is Ok <==> pix_accepts(trimmed(key@)),
        r matches Err(e) ==> pix_error(trimmed(key@), e),
{
    validate(key)
}

/// Detect the kind of a PIX key without validating semantics.
pub fn detect_type(key: &str) -> (r: Option<PixKeyType>)
    ensures
        r == pix_detect(trimmed(key@)),
{
    let v = chars_of(key);
    let t = trim_chars(&v);

    if is_cpf_format(&t) {
        Some(PixKeyType::Cpf)
    } else if is_cnpj_format(&t) {
        Some(PixKeyType::Cnpj)
    } else if is_email_format(&t) {
        Some(PixKeyType::Email)
    } else if is_phone_format(&t) {
        Some(PixKeyType::Phone)
    } else if is_random_key_format(&t) {
        Some(PixKeyType::Random)
    } else {
        None
    }
}

/// Validate a PIX key and return its kind with the canonicalized value:
/// tax IDs digit-normalized, email and random keys lowercased, phone
/// verbatim.
pub fn validate_with_type(key: &str) -> (r: ValidationResult<(PixKeyType, String)>)
    ensures
        r is Ok <==> pix_accepts(trimmed(key@)),
        r matches Ok(p) ==> pix_detect(trimmed(key@)) == Some(p.0) && p.1@ == pix_canonical(
            trimmed(key@),
        ),
        r matches Err(e) ==> pix_error(trimmed(key@), e),
{
    let v = chars_of(key);
    let t = trim_chars(&v);

    if is_cpf_format(&t) {
        let ts = string_of(&t);
        match crate::cpf::validate(ts.as_str()) {
            Ok(normalized) => Ok((PixKeyType::Cpf, normalized)),
            Err(e) => Err(e),
        }
    } else if is_cnpj_format(&t) {
        let ts = string_of(&t);
        match crate::cnpj::validate(ts.as_str()) {
            Ok(normalized) => Ok((PixKeyType::Cnpj, normalized)),
            Err(e) => Err(e),
        }
    } else if is_email_format(&t) {
        let ts = string_of(&t);
        Ok((PixKeyType::Email, lowercase(ts.as_str())))
    } else if is_phone_format(&t) {
        Ok((PixKeyType::Phone, string_of(&t)))
    } else if is_random_key_format(&t) {
        let ts = string_of(&t);
        Ok((PixKeyType::Random, lowercase(ts.as_str())))
    } else {
        Err(BrazilianValidationError::invalid_pix_key("formato não reconhecido"))
    }
}

/// How a key is normalized by kind: tax IDs to digits, email and random
/// keys to lowercase, everything else left as trimmed.
pub open spec fn pix_normal(t: Seq<char>) -> Seq<char> {
    if cpf_shape(t) {
        digits_of(t)
    } else if cnpj_shape(t) {
        digits_of(t)
    } else if email_shape(t) {
        lower_of(t)
    } else if uuid_shape(lower_of(t)) {
        lower_of(t)
    } else {
        t
    }
}

/// Normalize a PIX key according to its kind.
pub fn normalize(key: &str) -> (r: String)
    ensures
        r@ == pix_normal(trimmed(key@)),
{
    let v = chars_of(key);
    let t = trim_chars(&v);

    if is_cpf_format(&t) {
        let d = filter_digits(&t);
        string_of(&d)
    } else if is_cnpj_format(&t) {
        let d = filter_digits(&t);
        string_of(&d)
    } else if is_email_format(&t) {
        let ts = string_of(&t);
        lowercase(ts.as_str())
    } else if is_random_key_format(&t) {
        let ts = string_of(&t);
        lowercase(ts.as_str())
    } else {
        string_of(&t)
    }
}

/// On tax-ID-shaped keys, normalization is idempotent: the digit-only
/// canonical value is itself a tax-ID-shaped key that normalizes to
/// itself. (For email and random keys nothing beyond the lowercase
/// mapping itself is assumed, so no such law is stated for them.)
pub proof fn lemma_normalize_idempotent_on_tax_ids(t: Seq<char>)
    requires
        cpf_shape(t) || cnpj_shape(t),
    ensures
        pix_normal(pix_normal(t)) == pix_normal(t),
{
    crate::text::lemma_digits_of_all_digits(t);
    crate::text::lemma_digits_of_idempotent(t);
    let d = digits_of(t);
    if cpf_shape(t) {
        crate::cpf::lemma_cpf_shape_digit_count(t);
        assert(crate::cpf::cpf_shape_opts(d, false, false, false));
    } else {
        crate::cnpj::lemma_cnpj_shape_digit_count(t);
        assert(crate::cnpj::cnpj_shape_opts(d, false, false, false, false));
    }
}

/// An email redacted for display: the first local-part character (when
/// the local part has more than one) and the full domain revealed.
pub open spec fn email_masked(t: Seq<char>) -> Seq<char> {
    let i = find_first(t, '@');
    if i == -1 {
        t
    } else if i > 1 {
        t.subrange(0, 1) + seq!['*', '*', '*'] + t.skip(i)
    } else {
        seq!['*', '*', '*'] + t.skip(i)
    }
}

/// A strict-format phone key redacted for display: country code, area
/// code and last four digits revealed.
pub open spec fn pix_phone_masked(t: Seq<char>) -> Seq<char> {
    if t.len() >= 14 {
        seq!['+', '5', '5', ' ', '('] + t.subrange(3, 5) + seq![')', ' ', '*', '*', '*', '*', '*', '-']
            + t.skip(t.len() - 4)
    } else {
        t
    }
}

/// A random key redacted for display: the first four characters
/// revealed, the rest replaced by a fixed asterisk pattern.
pub open spec fn random_masked(t: Seq<char>) -> Seq<char> {
    if t.len() >= 8 {
        t.subrange(0, 4) + seq![
            '*', '*', '*', '*', '-', '*', '*', '*', '*', '-', '*', '*', '*', '*', '-', '*', '*',
            '*', '*', '-', '*', '*', '*', '*',
        ]
    } else {
        t
    }
}

/// How a recognized key is masked by kind, under the dispatcher's
/// precedence; an unrecognized key is left to the caller's identity
/// clause.
pub open spec fn pix_masked(t: Seq<char>) -> Seq<char> {
    if cpf_shape(t) {
        if digits_of(t).len() == 11 {
            cpf_masked(digits_of(t))
        } else {
            t
        }
    } else if cnpj_shape(t) {
        if digits_of(t).len() == 14 {
            cnpj_masked(digits_of(t))
        } else {
            t
        }
    } else if email_shape(t) {
        email_masked(t)
    } else if pix_phone_shape(t) {
        pix_phone_masked(t)
    } else if uuid_shape(lower_of(t)) {
        random_masked(t)
    } else {
        t
    }
}

/// Mask an email for display.
fn mask_email(t: &Vec<char>) -> (r: String)
    ensures
        r@ == email_masked(t@),
{
    let n = t.len();
    let mut i: usize = 0;
    while i < n && t[i] != '@'
        invariant
            i <= n,
            forall|k: int| 0 <= k < i ==> t@[k] != '@',
        decreases n - i,
    {
        i = i + 1;
    }
    if i == n {
        proof {
            lemma_find_first_miss(t@, '@');
        }
        return string_of(t);
    }
    proof {
        lemma_find_first_hit(t@, '@', i as int);
    }
    let mut out: Vec<char> = Vec::new();
    if i > 1 {
        out.push(t[0]);
    }
    out.push('*');
    out.push('*');
    out.push('*');
    push_range(&mut out, t, i, n);
    proof {
        assert(out@ =~= email_masked(t@));
    }
    string_of(&out)
}

/// Mask a strict-format phone key for display.
fn mask_phone(t: &Vec<char>) -> (r: String)
    ensures
        r@ == pix_phone_masked(t@),
{
    let n = t.len();
    if n >= 14 {
        let mut out: Vec<char> = Vec::new();
        out.push('+');
        out.push('5');
        out.push('5');
        out.push(' ');
        out.push('(');
        push_range(&mut out, t, 3, 5);
        out.push(')');
        out.push(' ');
        out.push('*');
        out.push('*');
        out.push('*');
        out.push('*');
        out.push('*');
        out.push('-');
        push_range(&mut out, t, n - 4, n);
        proof {
            assert(t@.subrange(n - 4, n as int) =~= t@.skip(n - 4));
            assert(out@ =~= pix_phone_masked(t@));
        }
        string_of(&out)
    } else {
        string_of(t)
    }
}

/// `g` hyphen-separated asterisk groups, each of four.
spec fn mask_groups(g: int) -> Seq<char>
    decreases g,
{
    if g <= 0 {
        Seq::<char>::empty()
    } else {
        mask_groups(g - 1) + seq!['-', '*', '*', '*', '*']
    }
}

/// Mask a random key for display.
fn mask_random_key(t: &Vec<char>) -> (r: String)
    ensures
        r@ == random_masked(t@),
{
    let n = t.len();
    if n >= 8 {
        let mut out: Vec<char> = Vec::new();
        push_range(&mut out, t, 0, 4);
        out.push('*');
        out.push('*');
        out.push('*');
        out.push('*');
        proof {
            assert(out@ =~= t@.subrange(0, 4) + seq!['*', '*', '*', '*'] + mask_groups(0));
        }
        let mut g: usize = 0;
        while g < 4
            invariant
                g <= 4,
                out@ == t@.subrange(0, 4) + seq!['*', '*', '*', '*'] + mask_groups(g as int),
            decreases 4 - g,
        {
            out.push('-');
            out.push('*');
            out.push('*');
            out.push('*');
            out.push('*');
            proof {
                assert(mask_groups(g + 1) =~= mask_groups(g as int) + seq!['-', '*', '*', '*', '*']);
                assert(out@ =~= t@.subrange(0, 4) + seq!['*', '*', '*', '*'] + mask_groups(g + 1));
            }
            g = g + 1;
        }
        proof {
            reveal_with_fuel(mask_groups, 5);
            assert(out@ =~= random_masked(t@));
        }
        string_of(&out)
    } else {
        string_of(t)
    }
}

/// Mask a PIX key for display according to its kind; the identity on
/// input no kind recognizes.
pub fn mask(key: &str) -> (r: String)
    ensures
        pix_detect(trimmed(key@)) is Some ==> r@ == pix_masked(trimmed(key@)),
        pix_detect(trimmed(key@)) is None ==> r@ == key@,
{
    let v = chars_of(key);
    let t = trim_chars(&v);

    if is_cpf_format(&t) {
        let ts = string_of(&t);
        crate::cpf::mask(ts.as_str())
    } else if is_cnpj_format(&t) {
        let ts = string_of(&t);
        crate::cnpj::mask(ts.as_str())
    } else if is_email_format(&t) {
        mask_email(&t)
    } else if is_phone_format(&t) {
        mask_phone(&t)
    } else if is_random_key_format(&t) {
        mask_random_key(&t)
    } else {
        String::from_str(key)
    }
}

} // verus!
