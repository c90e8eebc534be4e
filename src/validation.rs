//! Input validation rules for account data.

use vstd::prelude::*;
use vstd::string::StrSliceExecFns;

verus! {

/// Pattern that an e-mail address must match.
pub const EMAIL_PATTERN: &'static str = "^[a-zA-Z0-9._%+-]+@[a-zA-Z0-9.-]+\\.[a-zA-Z]{2,}$";

/// Pattern that a user name must match.
pub const USERNAME_PATTERN: &'static str = "^[a-zA-Z0-9_]{3,30}$";

/// Shortest accepted password.
pub const MIN_PASSWORD_CHARS: usize = 8;

/// What `regex` reports for a pattern and a text: `None` when the pattern
/// does not compile, else whether the text matches it.
pub uninterp spec fn regex_outcome(pattern: Seq<char>, text: Seq<char>) -> Option<bool>;

/// Relies on `regex::Regex::new` and `Regex::is_match`: compiles the pattern
/// and tests the text against it.
#[verifier::external_body]
fn regex_match(pattern: &str, text: &str) -> (r: Option<bool>)
    ensures
        r == regex_outcome(pattern@, text@),
{
    match regex::Regex::new(pattern) {
        Ok(re) => Some(re.is_match(text)),
        Err(_) => None,
    }
}

/// Whether `char::is_whitespace` holds of a character.
pub uninterp spec fn whitespace_of(c: char) -> bool;

/// Relies on `char::is_whitespace`: the Unicode White_Space property.
#[verifier::external_body]
fn is_whitespace(c: char) -> (r: bool)
    ensures
        r == whitespace_of(c),
{
    c.is_whitespace()
}

/// Relies on `uuid::Uuid::parse_str`: whether the text is a UUID in one of
/// the accepted forms.
#[verifier::external_body]
pub fn validate_uuid(uuid_str: &str) -> (r: bool)
    ensures
        r == uuid_text_accepted(uuid_str@),
{
    uuid::Uuid::parse_str(uuid_str).is_ok()
}

/// Whether `uuid::Uuid::parse_str` accepts a text.
pub uninterp spec fn uuid_text_accepted(s: Seq<char>) -> bool;

/// Whether an e-mail address has the accepted shape.
pub fn validate_email(email: &str) -> (r: bool)
    ensures
        r == (regex_outcome(EMAIL_PATTERN@, email@) == Some(true)),
{
    match regex_match(EMAIL_PATTERN, email) {
        Some(b) => b,
        None => false,
    }
}

/// Whether a user name has the accepted shape.
pub fn validate_username(username: &str) -> (r: bool)
    ensures
        r == (regex_outcome(USERNAME_PATTERN@, username@) == Some(true)),
{
    match regex_match(USERNAME_PATTERN, username) {
        Some(b) => b,
        None => false,
    }
}

/// A character allowed in a password: an ASCII letter or digit, or one of `@$!%*?&`.
pub open spec fn is_password_char(c: char) -> bool {
    ('a' <= c && c <= 'z') || ('A' <= c && c <= 'Z') || ('0' <= c && c <= '9') || c == '@' || c
        == '$' || c == '!' || c == '%' || c == '*' || c == '?' || c == '&'
}

/// A password is at least eight allowed characters and holds a lower-case
/// letter, an upper-case letter and a digit.
pub open spec fn password_ok(p: Seq<char>) -> bool {
    &&& p.len() >= MIN_PASSWORD_CHARS
    &&& forall|i: int| 0 <= i < p.len() ==> is_password_char(#[trigger] p[i])
    &&& exists|i: int| 0 <= i < p.len() && 'a' <= #[trigger] p[i] && p[i] <= 'z'
    &&& exists|i: int| 0 <= i < p.len() && 'A' <= #[trigger] p[i] && p[i] <= 'Z'
    &&& exists|i: int| 0 <= i < p.len() && '0' <= #[trigger] p[i] && p[i] <= '9'
}

/// Whether a password meets the strength rule.
pub fn validate_password(password: &str) -> (r: bool)
    ensures
        r == password_ok(password@),
{
    let n = password.unicode_len();
    let mut lower = false;
    let mut upper = false;
    let mut digit = false;
    let mut i: usize = 0;
    while i < n
        invariant
            n == password@.len(),
            0 <= i <= n,
            forall|j: int| 0 <= j < i ==> is_password_char(#[trigger] password@[j]),
            lower == exists|j: int| 0 <= j < i && 'a' <= #[trigger] password@[j] && password@[j] <= 'z',
            upper == exists|j: int| 0 <= j < i && 'A' <= #[trigger] password@[j] && password@[j] <= 'Z',
            digit == exists|j: int| 0 <= j < i && '0' <= #[trigger] password@[j] && password@[j] <= '9',
        decreases n - i,
    {
        let c = password.get_char(i);
        if !(('a' <= c && c <= 'z') || ('A' <= c && c <= 'Z') || ('0' <= c && c <= '9') || c == '@'
            || c == '$' || c == '!' || c == '%' || c == '*' || c == '?' || c == '&') {
            return false;
        }
        if 'a' <= c && c <= 'z' {
            lower = true;
        }
        if 'A' <= c && c <= 'Z' {
            upper = true;
        }
        if '0' <= c && c <= '9' {
            digit = true;
        }
        i = i + 1;
    }
    n >= MIN_PASSWORD_CHARS && lower && upper && digit
}

/// Whether a value holds a character other than white space.
pub fn validate_non_empty(value: &str) -> (r: bool)
    ensures
        r == exists|i: int| 0 <= i < value@.len() && !whitespace_of(#[trigger] value@[i]),
{
    let n = value.unicode_len();
    let mut i: usize = 0;
    while i < n
        invariant
            n == value@.len(),
            0 <= i <= n,
            forall|j: int| 0 <= j < i ==> whitespace_of(#[trigger] value@[j]),
        decreases n - i,
    {
        if !is_whitespace(value.get_char(i)) {
            return true;
        }
        i = i + 1;
    }
    false
}

/// Whether the byte length of a value lies within `min..=max`.
pub fn validate_length(value: &str, min: usize, max: usize) -> (r: bool)
    ensures
        r == (min <= value.len() && value.len() <= max),
{
    let len = value.len();
    len >= min && len <= max
}

/// Whether a number is above zero.
pub fn validate_positive_number(value: i32) -> (r: bool)
    ensures
        r == (value > 0),
{
    value > 0
}

/// Whether a number is zero or above.
pub fn validate_non_negative_number(value: i32) -> (r: bool)
    ensures
        r == (value >= 0),
{
    value >= 0
}

} // verus!
