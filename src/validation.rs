use vstd::prelude::*;
use vstd::string::{StrSliceExecFns, StringExecFns};

use crate::bindings::{
    alnum_char, current_clock, is_alnum, is_lower, is_numeric, is_upper, json_accepts, lower_char, numeric_char,
    parse_rfc3339, parse_ymd, parses_as_json, parses_as_uuid, regex_match, regex_outcome,
    rfc3339_moment, trim_of, trimmed, upper_char, uuid_accepts, ymd_day, Clock, Instant,
};
use crate::config::{
    ConditionOperator, FieldConfig, ValidationCondition, ValidationRule, ValidationType,
};
use crate::text::{
    contains_str, decimal, occurs_in, push_char, signed_decimal, str_eq, write_decimal,
    write_signed_decimal,
};
use crate::value::{same_value, values_equal, Record, Value};

verus! {

/// A field that failed a rule, with the message for the client.
#[derive(Clone, Debug)]
pub struct ValidationError {
    pub field: String,
    pub message: String,
}

pub open spec fn is_ascii_digit(c: char) -> bool {
    '0' <= c && c <= '9'
}

/// The ASCII digits of a text, as numbers, in order.
pub open spec fn ascii_digits(s: Seq<char>) -> Seq<int>
    decreases s.len(),
{
    if s.len() == 0 {
        seq![]
    } else if is_ascii_digit(s.last()) {
        ascii_digits(s.drop_last()).push(s.last() as int - '0' as int)
    } else {
        ascii_digits(s.drop_last())
    }
}

/// What a digit adds to the Luhn sum: every second digit from the right is
/// doubled, less nine when the double exceeds nine.
pub open spec fn luhn_weight(d: int, doubled: bool) -> int {
    if doubled {
        if 2 * d > 9 { 2 * d - 9 } else { 2 * d }
    } else {
        d
    }
}

/// The Luhn sum of the first `k` digits of `ds`, the doubling counted from
/// the right end of the whole of `ds`.
pub open spec fn luhn_prefix(ds: Seq<int>, k: int) -> int
    decreases k,
{
    if k <= 0 || k > ds.len() {
        0
    } else {
        luhn_prefix(ds, k - 1) + luhn_weight(ds[k - 1], (ds.len() - k) % 2 == 1)
    }
}

/// A text passes the Luhn check when it holds at least two digits and their
/// Luhn sum is a multiple of ten; characters other than digits are skipped.
pub open spec fn luhn_valid(s: Seq<char>) -> bool {
    let ds = ascii_digits(s);
    ds.len() >= 2 && luhn_prefix(ds, ds.len() as int) % 10 == 0
}

/// The Luhn checksum test, shared by the Luhn and credit card rules.
pub fn validate_luhn(s: &str) -> (r: bool)
    ensures
        r == luhn_valid(s@),
{
    let n = s.unicode_len();
    let mut digits: Vec<u32> = Vec::new();
    let mut i: usize = 0;
    while i < n
        invariant
            n == s@.len(),
            i <= n,
            digits@.len() == ascii_digits(s@.subrange(0, i as int)).len(),
            forall|j: int| 0 <= j < digits@.len() ==> #[trigger] digits@[j] as int == ascii_digits(s@.subrange(0, i as int))[j],
            forall|j: int| 0 <= j < digits@.len() ==> #[trigger] digits@[j] < 10,
        decreases n - i,
    {
        let c = s.get_char(i);
        assert(s@.subrange(0, i + 1).drop_last() =~= s@.subrange(0, i as int));
        if '0' <= c && c <= '9' {
            digits.push((c as u32) - ('0' as u32));
        }
        i = i + 1;
    }
    assert(s@.subrange(0, n as int) =~= s@);
    let ghost ds = ascii_digits(s@);
    let m = digits.len();
    if m < 2 {
        return false;
    }
    let mut sum: u32 = 0;
    let mut k: usize = 0;
    while k < m
        invariant
            m == digits@.len(),
            m == ds.len(),
            k <= m,
            forall|j: int| 0 <= j < m ==> #[trigger] digits@[j] as int == ds[j],
            forall|j: int| 0 <= j < m ==> #[trigger] digits@[j] < 10,
            sum < 10,
            sum as int == luhn_prefix(ds, k as int) % 10,
        decreases m - k,
    {
        let d = digits[k];
        let doubled = (m - 1 - k) % 2 == 1;
        let w: u32 = if doubled {
            if 2 * d > 9 { 2 * d - 9 } else { 2 * d }
        } else {
            d
        };
        assert(w as int == luhn_weight(ds[k as int], (ds.len() - (k + 1)) % 2 == 1));
        proof {
            vstd::arithmetic::div_mod::lemma_add_mod_noop(luhn_prefix(ds, k as int), w as int, 10);
            vstd::arithmetic::div_mod::lemma_mod_bound(luhn_prefix(ds, k as int), 10);
        }
        sum = (sum + w) % 10;
        k = k + 1;
    }
    sum == 0
}

/// The two numbers a numeric comparison reads: the record's value and the
/// condition's, when both are numbers.
pub open spec fn number_pair(field_value: Option<Value>, expected: Value) -> Option<(i64, i64)> {
    match (field_value, expected) {
        (Some(Value::Number(a)), Value::Number(b)) => Some((a, b)),
        _ => None,
    }
}

/// The two texts a containment test reads, when both are strings.
pub open spec fn text_pair(field_value: Option<Value>, expected: Value) -> Option<(Seq<char>, Seq<char>)> {
    match (field_value, expected) {
        (Some(Value::String(a)), Value::String(b)) => Some((a@, b@)),
        _ => None,
    }
}

/// Whether `v` is among the elements of an array value.
pub open spec fn array_holds(xs: Seq<Value>, v: Value) -> bool {
    exists|i: int| 0 <= i < xs.len() && same_value(#[trigger] xs[i], v)
}

/// Whether a condition holds of a record. A comparison between values of
/// the wrong kinds, or on an absent field, does not hold.
pub open spec fn condition_holds(data: Record, c: ValidationCondition) -> bool {
    let fv = data.get_spec(c.field@);
    match c.operator {
        ConditionOperator::Equals => fv matches Some(v) && same_value(v, c.value),
        ConditionOperator::NotEquals => !(fv matches Some(v) && same_value(v, c.value)),
        ConditionOperator::GreaterThan => number_pair(fv, c.value) matches Some(p) && p.0 > p.1,
        ConditionOperator::LessThan => number_pair(fv, c.value) matches Some(p) && p.0 < p.1,
        ConditionOperator::GreaterThanOrEqual => number_pair(fv, c.value) matches Some(p) && p.0 >= p.1,
        ConditionOperator::LessThanOrEqual => number_pair(fv, c.value) matches Some(p) && p.0 <= p.1,
        ConditionOperator::Contains => text_pair(fv, c.value) matches Some(p) && occurs_in(p.0, p.1),
        ConditionOperator::NotContains => text_pair(fv, c.value) matches Some(p) && !occurs_in(p.0, p.1),
        ConditionOperator::In => c.value is Array && (fv matches Some(v) && array_holds(c.value->Array_0@, v)),
        ConditionOperator::NotIn => c.value is Array && (fv matches Some(v) && !array_holds(c.value->Array_0@, v)),
    }
}

fn array_contains(arr: &Vec<Value>, v: &Value) -> (r: bool)
    ensures
        r == array_holds(arr@, *v),
{
    let mut i: usize = 0;
    while i < arr.len()
        invariant
            i <= arr.len(),
            forall|j: int| 0 <= j < i ==> !same_value(#[trigger] arr@[j], *v),
        decreases arr.len() - i,
    {
        if values_equal(&arr[i], v) {
            assert(same_value(arr@[i as int], *v));
            return true;
        }
        i = i + 1;
    }
    false
}

/// Evaluates a rule's condition against the whole record.
pub fn evaluate_condition(data: &Record, condition: &ValidationCondition) -> (r: bool)
    ensures
        r == condition_holds(*data, *condition),
{
    let fv = data.get(condition.field.as_str());
    let nums: Option<(i64, i64)> = match (fv, &condition.value) {
        (Some(Value::Number(a)), Value::Number(b)) => Some((*a, *b)),
        _ => None,
    };
    let texts: Option<(&String, &String)> = match (fv, &condition.value) {
        (Some(Value::String(a)), Value::String(b)) => Some((a, b)),
        _ => None,
    };
    match condition.operator {
        ConditionOperator::Equals => match fv {
            Some(v) => values_equal(v, &condition.value),
            None => false,
        },
        ConditionOperator::NotEquals => match fv {
            Some(v) => !values_equal(v, &condition.value),
            None => true,
        },
        ConditionOperator::GreaterThan => match nums {
            Some((a, b)) => a > b,
            None => false,
        },
        ConditionOperator::LessThan => match nums {
            Some((a, b)) => a < b,
            None => false,
        },
        ConditionOperator::GreaterThanOrEqual => match nums {
            Some((a, b)) => a >= b,
            None => false,
        },
        ConditionOperator::LessThanOrEqual => match nums {
            Some((a, b)) => a <= b,
            None => false,
        },
        ConditionOperator::Contains => match texts {
            Some((a, b)) => contains_str(a.as_str(), b.as_str()),
            None => false,
        },
        ConditionOperator::NotContains => match texts {
            Some((a, b)) => !contains_str(a.as_str(), b.as_str()),
            None => false,
        },
        ConditionOperator::In => match (fv, &condition.value) {
            (Some(v), Value::Array(arr)) => array_contains(arr, v),
            _ => false,
        },
        ConditionOperator::NotIn => match (fv, &condition.value) {
            (Some(v), Value::Array(arr)) => !array_contains(arr, v),
            _ => false,
        },
    }
}


pub const EMAIL_PATTERN: &'static str = r"^[a-zA-Z0-9.!#$%&'*+/=?^_`{|}~-]+@[a-zA-Z0-9-]+(?:\.[a-zA-Z0-9-]+)*$";

pub const URL_PATTERN: &'static str = r"^https?://[a-zA-Z0-9-._~:/?#\[\]@!$&'()*+,;=%]+$";

pub const PHONE_PATTERN: &'static str = r"^\+?[1-9]\d{1,14}$";

pub const IPV4_PATTERN: &'static str = r"^((25[0-5]|(2[0-4]|1\d|[1-9]|)\d)\.?\b){4}$";

pub const IPV6_PATTERN: &'static str = r"^(([0-9a-fA-F]{1,4}:){7,7}[0-9a-fA-F]{1,4}|([0-9a-fA-F]{1,4}:){1,7}:|([0-9a-fA-F]{1,4}:){1,6}:[0-9a-fA-F]{1,4}|([0-9a-fA-F]{1,4}:){1,5}(:[0-9a-fA-F]{1,4}){1,2}|([0-9a-fA-F]{1,4}:){1,4}(:[0-9a-fA-F]{1,4}){1,3}|([0-9a-fA-F]{1,4}:){1,3}(:[0-9a-fA-F]{1,4}){1,4}|([0-9a-fA-F]{1,4}:){1,2}(:[0-9a-fA-F]{1,4}){1,5}|[0-9a-fA-F]{1,4}:((:[0-9a-fA-F]{1,4}){1,6})|:((:[0-9a-fA-F]{1,4}){1,7}|:)|fe80:(:[0-9a-fA-F]{0,4}){0,4}%[0-9a-zA-Z]{1,}|::(ffff(:0{1,4}){0,1}:){0,1}((25[0-5]|(2[0-4]|1{0,1}[0-9]){0,1}[0-9])\.){3,3}(25[0-5]|(2[0-4]|1{0,1}[0-9]){0,1}[0-9])|([0-9a-fA-F]{1,4}:){1,4}:((25[0-5]|(2[0-4]|1{0,1}[0-9]){0,1}[0-9])\.){3,3}(25[0-5]|(2[0-4]|1{0,1}[0-9]){0,1}[0-9]))$";

pub const MAC_PATTERN: &'static str = r"^([0-9A-Fa-f]{2}[:-]){5}([0-9A-Fa-f]{2})$";

pub const ISBN_PATTERN: &'static str = r"^(?:ISBN(?:-1[03])?:?\s*)?(?:[0-9]{9}[0-9X]|(?:97[89])?[0-9]{10})$";

pub const IBAN_PATTERN: &'static str = r"^[A-Z]{2}[0-9]{2}[A-Z0-9]{1,30}$";

pub const SSN_PATTERN: &'static str = r"^\d{3}-\d{2}-\d{4}$";

pub const US_POSTAL_PATTERN: &'static str = r"^\d{5}(-\d{4})?$";

pub const UK_POSTAL_PATTERN: &'static str = r"^[A-Z]{1,2}\d{1,2}[A-Z]?\s?\d[A-Z]{2}$";

pub const CA_POSTAL_PATTERN: &'static str = r"^[A-Z]\d[A-Z]\s?\d[A-Z]\d$";

pub const BASE64_PATTERN: &'static str = r"^[A-Za-z0-9+/]*={0,2}$";

pub const HEX_PATTERN: &'static str = r"^[0-9a-fA-F]+$";

/// The length of a text in UTF-8 bytes, as `str::len` reports it.
pub open spec fn byte_len(s: Seq<char>) -> int {
    (vstd::utf8::encode_utf8(s).len() as usize) as int
}

pub open spec fn opt_view(o: Option<String>) -> Option<Seq<char>> {
    match o {
        Some(s) => Some(s@),
        None => None,
    }
}

/// A text rule that holds when the pattern matches; values other than
/// strings pass.
pub open spec fn pattern_failure(value: Value, pattern: Seq<char>, message: Seq<char>) -> Option<Seq<char>> {
    match value {
        Value::String(s) => if regex_outcome(pattern, s@) == Some(true) {
            None
        } else {
            Some(message)
        },
        _ => None,
    }
}

/// A text with the ISBN separators, dashes and spaces, taken out.
pub open spec fn without_separators(s: Seq<char>) -> Seq<char>
    decreases s.len(),
{
    if s.len() == 0 {
        s
    } else if s.last() == '-' || s.last() == ' ' {
        without_separators(s.drop_last())
    } else {
        without_separators(s.drop_last()).push(s.last())
    }
}

/// `a` comes strictly before `b`; moments are (seconds, nanoseconds).
pub open spec fn moment_before(a: (i64, u32), b: (i64, u32)) -> bool {
    a.0 < b.0 || (a.0 == b.0 && a.1 < b.1)
}

/// The classes of characters a strong password asks for.
#[derive(Clone, Copy, Debug)]
pub enum CharClass {
    Upper,
    Lower,
    Numeric,
    Special,
}

pub open spec fn in_class(c: char, class: CharClass) -> bool {
    match class {
        CharClass::Upper => upper_char(c),
        CharClass::Lower => lower_char(c),
        CharClass::Numeric => numeric_char(c),
        CharClass::Special => !alnum_char(c),
    }
}

pub open spec fn has_class(s: Seq<char>, class: CharClass) -> bool {
    exists|i: int| 0 <= i < s.len() && in_class(#[trigger] s[i], class)
}

/// Why a strong password is refused, if it is.
pub open spec fn password_failure(
    s: Seq<char>,
    min_length: usize,
    upper: bool,
    lower: bool,
    number: bool,
    special: bool,
) -> Option<Seq<char>> {
    if byte_len(s) < min_length {
        Some("Password must be at least "@ + decimal(min_length as nat) + " characters"@)
    } else if upper && !has_class(s, CharClass::Upper) {
        Some("Password must contain at least one uppercase letter"@)
    } else if lower && !has_class(s, CharClass::Lower) {
        Some("Password must contain at least one lowercase letter"@)
    } else if number && !has_class(s, CharClass::Numeric) {
        Some("Password must contain at least one number"@)
    } else if special && !has_class(s, CharClass::Special) {
        Some("Password must contain at least one special character"@)
    } else {
        None
    }
}

/// The pattern a postal code of a country must match; codes of other
/// countries are not checked.
pub open spec fn postal_pattern(country: Seq<char>) -> Option<Seq<char>> {
    if country == "US"@ {
        Some(US_POSTAL_PATTERN@)
    } else if country == "UK"@ {
        Some(UK_POSTAL_PATTERN@)
    } else if country == "CA"@ {
        Some(CA_POSTAL_PATTERN@)
    } else {
        None
    }
}

/// Why a date-like text fails a rule that compares it with the present.
pub open spec fn future_failure(s: Seq<char>, clock: Clock, message: Seq<char>) -> Option<Seq<char>> {
    match rfc3339_moment(s) {
        Some(m) => if moment_before((clock.now.secs, clock.now.nanos), m) { None } else { Some(message) },
        None => match ymd_day(s) {
            Some(d) => if d > clock.today { None } else { Some(message) },
            None => None,
        },
    }
}

pub open spec fn past_failure(s: Seq<char>, clock: Clock, message: Seq<char>) -> Option<Seq<char>> {
    match rfc3339_moment(s) {
        Some(m) => if moment_before(m, (clock.now.secs, clock.now.nanos)) { None } else { Some(message) },
        None => match ymd_day(s) {
            Some(d) => if d < clock.today { None } else { Some(message) },
            None => None,
        },
    }
}

/// The message a rule gives for a value, or `None` when the value passes.
/// Rules on text let values of other kinds pass; rules on numbers let values
/// other than numbers pass. Uniqueness, file and custom-function rules need
/// context that a record does not hold, and always pass.
pub open spec fn rule_failure(value: Value, rule: ValidationType, name: Seq<char>, data: Record, clock: Clock) -> Option<Seq<char>> {
    match rule {
        ValidationType::Required { value: required } => if required && value is Null {
            Some(name + " is required"@)
        } else {
            None
        },
        ValidationType::MinLength { value: min } => match value {
            Value::String(s) => if byte_len(s@) < min {
                Some(name + " must be at least "@ + decimal(min as nat) + " characters"@)
            } else {
                None
            },
            _ => None,
        },
        ValidationType::MaxLength { value: max } => match value {
            Value::String(s) => if byte_len(s@) > max {
                Some(name + " must be at most "@ + decimal(max as nat) + " characters"@)
            } else {
                None
            },
            _ => None,
        },
        ValidationType::Pattern { regex } => match value {
            Value::String(s) => match regex_outcome(regex@, s@) {
                Some(true) => None,
                Some(false) => Some(name + " does not match the required pattern"@),
                None => Some("Invalid regex pattern: "@ + regex@),
            },
            _ => None,
        },
        ValidationType::Min { value: min } => match value {
            Value::Number(n) => if n < min {
                Some(name + " must be at least "@ + signed_decimal(min as int))
            } else {
                None
            },
            _ => None,
        },
        ValidationType::Max { value: max } => match value {
            Value::Number(n) => if n > max {
                Some(name + " must be at most "@ + signed_decimal(max as int))
            } else {
                None
            },
            _ => None,
        },
        ValidationType::Email => pattern_failure(value, EMAIL_PATTERN@, name + " must be a valid email address"@),
        ValidationType::Url => pattern_failure(value, URL_PATTERN@, name + " must be a valid URL"@),
        ValidationType::Phone => pattern_failure(value, PHONE_PATTERN@, name + " must be a valid phone number"@),
        ValidationType::CustomFunction { .. } => None,
        ValidationType::DependsOn { field, expected_value } => match data.get_spec(field@) {
            Some(dep) => if same_value(dep, expected_value) {
                None
            } else {
                Some(name + " depends on "@ + field@ + " having a specific value"@)
            },
            None => None,
        },
        ValidationType::UniqueIn { .. } => None,
        ValidationType::MatchField { field } => match data.get_spec(field@) {
            Some(other) => if same_value(value, other) {
                None
            } else {
                Some(name + " must match "@ + field@)
            },
            None => None,
        },
        ValidationType::CreditCard => match value {
            Value::String(s) => if luhn_valid(s@) {
                None
            } else {
                Some(name + " must be a valid credit card number"@)
            },
            _ => None,
        },
        ValidationType::Ipv4 => pattern_failure(value, IPV4_PATTERN@, name + " must be a valid IPv4 address"@),
        ValidationType::Ipv6 => pattern_failure(value, IPV6_PATTERN@, name + " must be a valid IPv6 address"@),
        ValidationType::Uuid => match value {
            Value::String(s) => if uuid_accepts(s@) {
                None
            } else {
                Some(name + " must be a valid UUID"@)
            },
            _ => None,
        },
        ValidationType::DateRange { start_field, end_field } => match (
            data.get_spec(start_field@),
            data.get_spec(end_field@),
        ) {
            (Some(Value::String(a)), Some(Value::String(b))) => match (
                rfc3339_moment(a@),
                rfc3339_moment(b@),
            ) {
                (Some(x), Some(y)) => if moment_before(x, y) {
                    None
                } else {
                    Some("Start date must be before end date"@)
                },
                _ => None,
            },
            _ => None,
        },
        ValidationType::FileSize { .. } => None,
        ValidationType::FileType { .. } => None,
        ValidationType::StrongPassword {
            min_length,
            require_uppercase,
            require_lowercase,
            require_number,
            require_special,
        } => match value {
            Value::String(s) => password_failure(
                s@,
                min_length,
                require_uppercase,
                require_lowercase,
                require_number,
                require_special,
            ),
            _ => None,
        },
        ValidationType::AlphaNumeric => match value {
            Value::String(s) => if has_class(s@, CharClass::Special) {
                Some(name + " must contain only alphanumeric characters"@)
            } else {
                None
            },
            _ => None,
        },
        ValidationType::Luhn => match value {
            Value::String(s) => if luhn_valid(s@) {
                None
            } else {
                Some(name + " failed Luhn check"@)
            },
            _ => None,
        },
        ValidationType::MacAddress => pattern_failure(value, MAC_PATTERN@, name + " must be a valid MAC address"@),
        ValidationType::Isbn => match value {
            Value::String(s) => if regex_outcome(ISBN_PATTERN@, without_separators(s@)) == Some(true) {
                None
            } else {
                Some(name + " must be a valid ISBN"@)
            },
            _ => None,
        },
        ValidationType::Iban => pattern_failure(value, IBAN_PATTERN@, name + " must be a valid IBAN"@),
        ValidationType::Ssn => pattern_failure(value, SSN_PATTERN@, name + " must be a valid SSN (XXX-XX-XXXX)"@),
        ValidationType::PostalCode { country_code } => match value {
            Value::String(s) => match postal_pattern(country_code@) {
                Some(p) => if regex_outcome(p, s@) == Some(true) {
                    None
                } else {
                    Some(name + " must be a valid "@ + country_code@ + " postal code"@)
                },
                None => None,
            },
            _ => None,
        },
        ValidationType::Base64 => pattern_failure(value, BASE64_PATTERN@, name + " must be valid Base64"@),
        ValidationType::Json => match value {
            Value::String(s) => if json_accepts(s@) {
                None
            } else {
                Some(name + " must be valid JSON"@)
            },
            _ => None,
        },
        ValidationType::Hex => pattern_failure(value, HEX_PATTERN@, name + " must be valid hexadecimal"@),
        ValidationType::Ascii => match value {
            Value::String(s) => if vstd::utf8::is_ascii_chars(s@) {
                None
            } else {
                Some(name + " must contain only ASCII characters"@)
            },
            _ => None,
        },
        ValidationType::NotEmpty => match value {
            Value::String(s) => if trim_of(s@).len() == 0 {
                Some(name + " must not be empty"@)
            } else {
                None
            },
            _ => None,
        },
        ValidationType::Future => match value {
            Value::String(s) => future_failure(s@, clock, name + " must be a future date"@),
            _ => None,
        },
        ValidationType::Past => match value {
            Value::String(s) => past_failure(s@, clock, name + " must be a past date"@),
            _ => None,
        },
        ValidationType::MinAge { years } => match value {
            Value::String(s) => match ymd_day(s@) {
                Some(d) => if clock.today - d < years * 365 {
                    Some("Must be at least "@ + decimal(years as nat) + " years old"@)
                } else {
                    None
                },
                None => None,
            },
            _ => None,
        },
        ValidationType::MaxAge { years } => match value {
            Value::String(s) => match ymd_day(s@) {
                Some(d) => if clock.today - d > years * 365 {
                    Some("Must be at most "@ + decimal(years as nat) + " years old"@)
                } else {
                    None
                },
                None => None,
            },
            _ => None,
        },
        ValidationType::Between { min, max } => match value {
            Value::Number(n) => if n < min || n > max {
                Some(name + " must be between "@ + signed_decimal(min as int) + " and "@ + signed_decimal(max as int))
            } else {
                None
            },
            _ => None,
        },
    }
}


fn in_class_exec(c: char, class: CharClass) -> (r: bool)
    ensures
        r == in_class(c, class),
{
    match class {
        CharClass::Upper => is_upper(c),
        CharClass::Lower => is_lower(c),
        CharClass::Numeric => is_numeric(c),
        CharClass::Special => !is_alnum(c),
    }
}

/// Tells whether some character of `s` is of the class.
pub fn any_in_class(s: &str, class: CharClass) -> (r: bool)
    ensures
        r == has_class(s@, class),
{
    let n = s.unicode_len();
    let mut i: usize = 0;
    while i < n
        invariant
            n == s@.len(),
            i <= n,
            forall|j: int| 0 <= j < i ==> !in_class(#[trigger] s@[j], class),
        decreases n - i,
    {
        if in_class_exec(s.get_char(i), class) {
            return true;
        }
        i = i + 1;
    }
    false
}

/// Takes the ISBN separators, dashes and spaces, out of a text.
pub fn strip_separators(s: &str) -> (r: String)
    ensures
        r@ == without_separators(s@),
{
    let n = s.unicode_len();
    let mut out = String::new();
    let mut i: usize = 0;
    while i < n
        invariant
            n == s@.len(),
            i <= n,
            out@ == without_separators(s@.subrange(0, i as int)),
        decreases n - i,
    {
        let c = s.get_char(i);
        assert(s@.subrange(0, i + 1).drop_last() =~= s@.subrange(0, i as int));
        if c != '-' && c != ' ' {
            push_char(&mut out, c);
        }
        i = i + 1;
    }
    assert(s@.subrange(0, n as int) =~= s@);
    out
}

fn check_pattern(value: &Value, pattern: &str, message: String) -> (r: Option<String>)
    ensures
        opt_view(r) == pattern_failure(*value, pattern@, message@),
{
    match value {
        Value::String(s) => match regex_match(pattern, s.as_str()) {
            Some(true) => None,
            _ => Some(message),
        },
        _ => None,
    }
}

fn instant_before(a: Instant, b: Instant) -> (r: bool)
    ensures
        r == moment_before((a.secs, a.nanos), (b.secs, b.nanos)),
{
    a.secs < b.secs || (a.secs == b.secs && a.nanos < b.nanos)
}

fn with_suffix(name: &String, suffix: &str) -> (r: String)
    ensures
        r@ == name@ + suffix@,
{
    name.clone().concat(suffix)
}

fn check_password(
    s: &str,
    min_length: usize,
    upper: bool,
    lower: bool,
    number: bool,
    special: bool,
) -> (r: Option<String>)
    ensures
        opt_view(r) == password_failure(s@, min_length, upper, lower, number, special),
{
    if s.len() < min_length {
        let m = String::from_str("Password must be at least ").concat(
            write_decimal(min_length as u128).as_str(),
        ).concat(" characters");
        Some(m)
    } else if upper && !any_in_class(s, CharClass::Upper) {
        Some(String::from_str("Password must contain at least one uppercase letter"))
    } else if lower && !any_in_class(s, CharClass::Lower) {
        Some(String::from_str("Password must contain at least one lowercase letter"))
    } else if number && !any_in_class(s, CharClass::Numeric) {
        Some(String::from_str("Password must contain at least one number"))
    } else if special && !any_in_class(s, CharClass::Special) {
        Some(String::from_str("Password must contain at least one special character"))
    } else {
        None
    }
}

fn check_future(s: &str, clock: &Clock, message: String) -> (r: Option<String>)
    ensures
        opt_view(r) == future_failure(s@, *clock, message@),
{
    match parse_rfc3339(s) {
        Some(m) => if instant_before(clock.now, m) { None } else { Some(message) },
        None => match parse_ymd(s) {
            Some(d) => if d > clock.today { None } else { Some(message) },
            None => None,
        },
    }
}

fn check_past(s: &str, clock: &Clock, message: String) -> (r: Option<String>)
    ensures
        opt_view(r) == past_failure(s@, *clock, message@),
{
    match parse_rfc3339(s) {
        Some(m) => if instant_before(m, clock.now) { None } else { Some(message) },
        None => match parse_ymd(s) {
            Some(d) => if d < clock.today { None } else { Some(message) },
            None => None,
        },
    }
}

fn postal_pattern_exec(country: &String) -> (r: Option<&'static str>)
    ensures
        match r {
            Some(p) => postal_pattern(country@) == Some(p@),
            None => postal_pattern(country@) is None,
        },
{
    if str_eq(country.as_str(), "US") {
        Some(US_POSTAL_PATTERN)
    } else if str_eq(country.as_str(), "UK") {
        Some(UK_POSTAL_PATTERN)
    } else if str_eq(country.as_str(), "CA") {
        Some(CA_POSTAL_PATTERN)
    } else {
        None
    }
}


/// The message a rule gives for a value, or `None` when the value passes.
#[verifier::rlimit(60)]
pub fn check_rule(value: &Value, rule: &ValidationType, name: &String, data: &Record, clock: &Clock) -> (r: Option<String>)
    ensures
        opt_view(r) == rule_failure(*value, *rule, name@, *data, *clock),
{
    match rule {
        ValidationType::Required { value: required } => {
            if *required && value.is_null() {
                Some(with_suffix(name, " is required"))
            } else {
                None
            }
        },
        ValidationType::MinLength { value: min } => match value {
            Value::String(s) => if s.as_str().len() < *min {
                Some(with_suffix(name, " must be at least ").concat(write_decimal(*min as u128).as_str()).concat(" characters"))
            } else {
                None
            },
            _ => None,
        },
        ValidationType::MaxLength { value: max } => match value {
            Value::String(s) => if s.as_str().len() > *max {
                Some(with_suffix(name, " must be at most ").concat(write_decimal(*max as u128).as_str()).concat(" characters"))
            } else {
                None
            },
            _ => None,
        },
        ValidationType::Pattern { regex } => match value {
            Value::String(s) => match regex_match(regex.as_str(), s.as_str()) {
                Some(true) => None,
                Some(false) => Some(with_suffix(name, " does not match the required pattern")),
                None => Some(String::from_str("Invalid regex pattern: ").concat(regex.as_str())),
            },
            _ => None,
        },
        ValidationType::Min { value: min } => match value {
            Value::Number(n) => if *n < *min {
                Some(with_suffix(name, " must be at least ").concat(write_signed_decimal(*min).as_str()))
            } else {
                None
            },
            _ => None,
        },
        ValidationType::Max { value: max } => match value {
            Value::Number(n) => if *n > *max {
                Some(with_suffix(name, " must be at most ").concat(write_signed_decimal(*max).as_str()))
            } else {
                None
            },
            _ => None,
        },
        ValidationType::Email => check_pattern(value, EMAIL_PATTERN, with_suffix(name, " must be a valid email address")),
        ValidationType::Url => check_pattern(value, URL_PATTERN, with_suffix(name, " must be a valid URL")),
        ValidationType::Phone => check_pattern(value, PHONE_PATTERN, with_suffix(name, " must be a valid phone number")),
        ValidationType::CustomFunction { .. } => None,
        ValidationType::DependsOn { field, expected_value } => match data.get(field.as_str()) {
            Some(dep) => if values_equal(dep, expected_value) {
                None
            } else {
                Some(with_suffix(name, " depends on ").concat(field.as_str()).concat(" having a specific value"))
            },
            None => None,
        },
        ValidationType::UniqueIn { .. } => None,
        ValidationType::MatchField { field } => match data.get(field.as_str()) {
            Some(other) => if values_equal(value, other) {
                None
            } else {
                Some(with_suffix(name, " must match ").concat(field.as_str()))
            },
            None => None,
        },
        ValidationType::CreditCard => match value {
            Value::String(s) => if validate_luhn(s.as_str()) {
                None
            } else {
                Some(with_suffix(name, " must be a valid credit card number"))
            },
            _ => None,
        },
        ValidationType::Ipv4 => check_pattern(value, IPV4_PATTERN, with_suffix(name, " must be a valid IPv4 address")),
        ValidationType::Ipv6 => check_pattern(value, IPV6_PATTERN, with_suffix(name, " must be a valid IPv6 address")),
        ValidationType::Uuid => match value {
            Value::String(s) => if parses_as_uuid(s.as_str()) {
                None
            } else {
                Some(with_suffix(name, " must be a valid UUID"))
            },
            _ => None,
        },
        ValidationType::DateRange { start_field, end_field } => match (
            data.get(start_field.as_str()),
            data.get(end_field.as_str()),
        ) {
            (Some(Value::String(a)), Some(Value::String(b))) => match (
                parse_rfc3339(a.as_str()),
                parse_rfc3339(b.as_str()),
            ) {
                (Some(x), Some(y)) => if instant_before(x, y) {
                    None
                } else {
                    Some(String::from_str("Start date must be before end date"))
                },
                _ => None,
            },
            _ => None,
        },
        ValidationType::FileSize { .. } => None,
        ValidationType::FileType { .. } => None,
        ValidationType::StrongPassword {
            min_length,
            require_uppercase,
            require_lowercase,
            require_number,
            require_special,
        } => match value {
            Value::String(s) => check_password(
                s.as_str(),
                *min_length,
                *require_uppercase,
                *require_lowercase,
                *require_number,
                *require_special,
            ),
            _ => None,
        },
        ValidationType::AlphaNumeric => match value {
            Value::String(s) => if any_in_class(s.as_str(), CharClass::Special) {
                Some(with_suffix(name, " must contain only alphanumeric characters"))
            } else {
                None
            },
            _ => None,
        },
        ValidationType::Luhn => match value {
            Value::String(s) => if validate_luhn(s.as_str()) {
                None
            } else {
                Some(with_suffix(name, " failed Luhn check"))
            },
            _ => None,
        },
        ValidationType::MacAddress => check_pattern(value, MAC_PATTERN, with_suffix(name, " must be a valid MAC address")),
        ValidationType::Isbn => match value {
            Value::String(s) => {
                let normalized = strip_separators(s.as_str());
                match regex_match(ISBN_PATTERN, normalized.as_str()) {
                    Some(true) => None,
                    _ => Some(with_suffix(name, " must be a valid ISBN")),
                }
            },
            _ => None,
        },
        ValidationType::Iban => check_pattern(value, IBAN_PATTERN, with_suffix(name, " must be a valid IBAN")),
        ValidationType::Ssn => check_pattern(value, SSN_PATTERN, with_suffix(name, " must be a valid SSN (XXX-XX-XXXX)")),
        ValidationType::PostalCode { country_code } => match value {
            Value::String(s) => match postal_pattern_exec(country_code) {
                Some(p) => match regex_match(p, s.as_str()) {
                    Some(true) => None,
                    _ => Some(with_suffix(name, " must be a valid ").concat(country_code.as_str()).concat(" postal code")),
                },
                None => None,
            },
            _ => None,
        },
        ValidationType::Base64 => check_pattern(value, BASE64_PATTERN, with_suffix(name, " must be valid Base64")),
        ValidationType::Json => match value {
            Value::String(s) => if parses_as_json(s.as_str()) {
                None
            } else {
                Some(with_suffix(name, " must be valid JSON"))
            },
            _ => None,
        },
        ValidationType::Hex => check_pattern(value, HEX_PATTERN, with_suffix(name, " must be valid hexadecimal")),
        ValidationType::Ascii => match value {
            Value::String(s) => if s.as_str().is_ascii() {
                None
            } else {
                Some(with_suffix(name, " must contain only ASCII characters"))
            },
            _ => None,
        },
        ValidationType::NotEmpty => match value {
            Value::String(s) => if trimmed(s.as_str()).is_empty() {
                Some(with_suffix(name, " must not be empty"))
            } else {
                None
            },
            _ => None,
        },
        ValidationType::Future => match value {
            Value::String(s) => check_future(s.as_str(), clock, with_suffix(name, " must be a future date")),
            _ => None,
        },
        ValidationType::Past => match value {
            Value::String(s) => check_past(s.as_str(), clock, with_suffix(name, " must be a past date")),
            _ => None,
        },
        ValidationType::MinAge { years } => match value {
            Value::String(s) => match parse_ymd(s.as_str()) {
                Some(d) => if (clock.today as i64) - (d as i64) < (*years as i64) * 365 {
                    Some(String::from_str("Must be at least ").concat(write_decimal(*years as u128).as_str()).concat(" years old"))
                } else {
                    None
                },
                None => None,
            },
            _ => None,
        },
        ValidationType::MaxAge { years } => match value {
            Value::String(s) => match parse_ymd(s.as_str()) {
                Some(d) => if (clock.today as i64) - (d as i64) > (*years as i64) * 365 {
                    Some(String::from_str("Must be at most ").concat(write_decimal(*years as u128).as_str()).concat(" years old"))
                } else {
                    None
                },
                None => None,
            },
            _ => None,
        },
        ValidationType::Between { min, max } => match value {
            Value::Number(n) => if *n < *min || *n > *max {
                Some(with_suffix(name, " must be between ").concat(write_signed_decimal(*min).as_str()).concat(" and ").concat(write_signed_decimal(*max).as_str()))
            } else {
                None
            },
            _ => None,
        },
    }
}

/// Checks one value against one rule: `Err` with the rule's message when the
/// value fails it.
pub fn validate_rule(value: &Value, rule: &ValidationType, field: &FieldConfig, all_data: &Record, clock: &Clock) -> (r: Result<(), String>)
    ensures
        match r {
            Ok(()) => rule_failure(*value, *rule, field.name@, *all_data, *clock) is None,
            Err(m) => rule_failure(*value, *rule, field.name@, *all_data, *clock) == Some(m@),
        },
{
    match check_rule(value, rule, &field.name, all_data, clock) {
        Some(m) => Err(m),
        None => Ok(()),
    }
}


/// A rule whose condition is present and does not hold is skipped.
pub open spec fn gated_off(rule: ValidationRule, data: Record) -> bool {
    rule.condition matches Some(c) && !condition_holds(data, c)
}

/// The rule's own message when it has one, else the message of its kind.
pub open spec fn message_or(custom: Option<String>, m: Seq<char>) -> Seq<char> {
    match custom {
        Some(s) => s@,
        None => m,
    }
}

/// The errors, as (field id, message), that a list of rules gives for a
/// present value of a field, in the order of the rules.
pub open spec fn rule_errors(
    rules: Seq<ValidationRule>,
    value: Value,
    field: FieldConfig,
    data: Record,
    clock: Clock,
) -> Seq<(Seq<char>, Seq<char>)>
    decreases rules.len(),
{
    if rules.len() == 0 {
        seq![]
    } else {
        let prev = rule_errors(rules.drop_last(), value, field, data, clock);
        let rule = rules.last();
        if gated_off(rule, data) {
            prev
        } else {
            match rule_failure(value, rule.rule_type, field.name@, data, clock) {
                Some(m) => prev.push((field.id@, message_or(rule.message, m))),
                None => prev,
            }
        }
    }
}

/// The errors one field gives: a required field that is absent or null gives
/// one error and no more; another absent or null field gives none; a present
/// value is held to each of the field's rules.
pub open spec fn field_errors(data: Record, field: FieldConfig, clock: Clock) -> Seq<(Seq<char>, Seq<char>)> {
    match data.get_spec(field.id@) {
        Some(Value::Null) | None => if field.required {
            seq![(field.id@, field.name@ + " is required"@)]
        } else {
            seq![]
        },
        Some(v) => rule_errors(field.validations@, v, field, data, clock),
    }
}

/// The errors of all fields, field after field.
pub open spec fn expected_errors(data: Record, fields: Seq<FieldConfig>, clock: Clock) -> Seq<(Seq<char>, Seq<char>)>
    decreases fields.len(),
{
    if fields.len() == 0 {
        seq![]
    } else {
        expected_errors(data, fields.drop_last(), clock) + field_errors(data, fields.last(), clock)
    }
}

pub open spec fn error_views(errors: Seq<ValidationError>) -> Seq<(Seq<char>, Seq<char>)> {
    errors.map_values(|e: ValidationError| (e.field@, e.message@))
}

proof fn lemma_error_views_push(errors: Seq<ValidationError>, e: ValidationError)
    ensures
        error_views(errors.push(e)) == error_views(errors).push((e.field@, e.message@)),
{
    assert(error_views(errors.push(e)) =~= error_views(errors).push((e.field@, e.message@)));
}

/// Validates a record against field definitions at a given present moment,
/// reporting every failure of every field.
pub fn validate_data_at(data: &Record, fields: &[FieldConfig], clock: &Clock) -> (r: Vec<ValidationError>)
    ensures
        error_views(r@) == expected_errors(*data, fields@, *clock),
{
    let mut errors: Vec<ValidationError> = Vec::new();
    let mut i: usize = 0;
    while i < fields.len()
        invariant
            i <= fields@.len(),
            error_views(errors@) == expected_errors(*data, fields@.subrange(0, i as int), *clock),
        decreases fields.len() - i,
    {
        let field = &fields[i];
        let ghost before = errors@;
        assert(fields@.subrange(0, i + 1).drop_last() =~= fields@.subrange(0, i as int));
        let present: Option<&Value> = match data.get(field.id.as_str()) {
            Some(Value::Null) => None,
            other => other,
        };
        match present {
            None => {
                if field.required {
                    let e = ValidationError {
                        field: field.id.clone(),
                        message: with_suffix(&field.name, " is required"),
                    };
                    proof { lemma_error_views_push(errors@, e); }
                    errors.push(e);
                    assert(error_views(errors@) =~= error_views(before) + field_errors(*data, *field, *clock));
                } else {
                    assert(error_views(errors@) =~= error_views(before) + field_errors(*data, *field, *clock));
                }
            },
            Some(value) => {
                let mut j: usize = 0;
                assert(field.validations@.subrange(0, 0) =~= Seq::<ValidationRule>::empty());
                assert(error_views(before) + seq![] =~= error_views(before));
                while j < field.validations.len()
                    invariant
                        j <= field.validations@.len(),
                        data.get_spec(field.id@) == Some(*value),
                        error_views(errors@) == error_views(before) + rule_errors(
                            field.validations@.subrange(0, j as int),
                            *value,
                            *field,
                            *data,
                            *clock,
                        ),
                    decreases field.validations.len() - j,
                {
                    let rule = &field.validations[j];
                    assert(field.validations@.subrange(0, j + 1).drop_last() =~= field.validations@.subrange(0, j as int));
                    let active = match &rule.condition {
                        Some(c) => evaluate_condition(data, c),
                        None => true,
                    };
                    if active {
                        match validate_rule(value, &rule.rule_type, field, data, clock) {
                            Err(m) => {
                                let message = match &rule.message {
                                    Some(custom) => custom.clone(),
                                    None => m,
                                };
                                let e = ValidationError { field: field.id.clone(), message };
                                proof { lemma_error_views_push(errors@, e); }
                                errors.push(e);
                            },
                            Ok(()) => {},
                        }
                    }
                    j = j + 1;
                }
                assert(field.validations@.subrange(0, field.validations@.len() as int) =~= field.validations@);
            },
        }
        assert(error_views(errors@) == error_views(before) + field_errors(*data, fields@[i as int], *clock));
        i = i + 1;
    }
    assert(fields@.subrange(0, fields@.len() as int) =~= fields@);
    errors
}

/// Validates a record against field definitions, reporting every failure of
/// every field rather than stopping at the first. Rules on dates compare with
/// the present moment, read once at the call.
pub fn validate_data(data: &Record, fields: &[FieldConfig]) -> (r: Result<Vec<ValidationError>, String>)
    ensures
        r matches Ok(errors) && exists|clock: Clock| error_views(errors@) == expected_errors(*data, fields@, clock),
{
    let clock = current_clock();
    Ok(validate_data_at(data, fields, &clock))
}


/// The number of rules of a list that a present value violates: rules that
/// are not skipped by their condition and that the value fails.
pub open spec fn violated_rules(
    rules: Seq<ValidationRule>,
    value: Value,
    field: FieldConfig,
    data: Record,
    clock: Clock,
) -> nat
    decreases rules.len(),
{
    if rules.len() == 0 {
        0
    } else {
        let rule = rules.last();
        let here: nat = if !gated_off(rule, data) && rule_failure(value, rule.rule_type, field.name@, data, clock) is Some {
            1
        } else {
            0
        };
        violated_rules(rules.drop_last(), value, field, data, clock) + here
    }
}

/// The violations of one field: a missing required value counts once, else
/// each violated rule counts once.
pub open spec fn field_violations(data: Record, field: FieldConfig, clock: Clock) -> nat {
    match data.get_spec(field.id@) {
        Some(Value::Null) | None => if field.required { 1 } else { 0 },
        Some(v) => violated_rules(field.validations@, v, field, data, clock),
    }
}

pub open spec fn total_violations(data: Record, fields: Seq<FieldConfig>, clock: Clock) -> nat
    decreases fields.len(),
{
    if fields.len() == 0 {
        0
    } else {
        total_violations(data, fields.drop_last(), clock) + field_violations(data, fields.last(), clock)
    }
}

proof fn lemma_rule_errors_count(rules: Seq<ValidationRule>, value: Value, field: FieldConfig, data: Record, clock: Clock)
    ensures
        rule_errors(rules, value, field, data, clock).len() == violated_rules(rules, value, field, data, clock),
        forall|k: int| 0 <= k < rule_errors(rules, value, field, data, clock).len()
            ==> (#[trigger] rule_errors(rules, value, field, data, clock)[k]).0 == field.id@,
    decreases rules.len(),
{
    if rules.len() > 0 {
        lemma_rule_errors_count(rules.drop_last(), value, field, data, clock);
    }
}

/// Validation is exhaustive: the errors reported for a record are exactly
/// as many as its violations, one per violated rule of each field (one for a
/// missing required field), however many fields and rules fail together.
pub proof fn validation_is_exhaustive(data: Record, fields: Seq<FieldConfig>, clock: Clock)
    ensures
        expected_errors(data, fields, clock).len() == total_violations(data, fields, clock),
    decreases fields.len(),
{
    if fields.len() > 0 {
        validation_is_exhaustive(data, fields.drop_last(), clock);
        let f = fields.last();
        match data.get_spec(f.id@) {
            Some(Value::Null) | None => {},
            Some(v) => lemma_rule_errors_count(f.validations@, v, f, data, clock),
        }
    }
}

/// Condition gating: a rule whose condition does not hold of the record
/// contributes nothing; the errors are those of the same rules without it,
/// whatever the value would have given under that rule.
pub proof fn gated_rule_contributes_nothing(
    rules: Seq<ValidationRule>,
    k: int,
    value: Value,
    field: FieldConfig,
    data: Record,
    clock: Clock,
)
    requires
        0 <= k < rules.len(),
        gated_off(rules[k], data),
    ensures
        rule_errors(rules, value, field, data, clock) == rule_errors(rules.remove(k), value, field, data, clock),
    decreases rules.len(),
{
    if k == rules.len() - 1 {
        assert(rules.remove(k) =~= rules.drop_last());
    } else {
        gated_rule_contributes_nothing(rules.drop_last(), k, value, field, data, clock);
        assert(rules.remove(k).drop_last() =~= rules.drop_last().remove(k));
        assert(rules.remove(k).last() == rules.last());
    }
}

} // verus!
