//! Field validators of forms.
use crate::text::{
    alphabetic, alphanumeric, blank, char_is_alphabetic, char_is_alphanumeric, chars_of, float_syntax,
    float_text, i64_syntax, integer_text, is_blank,
};
use vstd::prelude::*;

verus! {

#[verifier::external_type_specification]
#[verifier::external_body]
pub struct ExRegex(regex::Regex);

/// The pattern of email addresses.
pub const EMAIL_PATTERN: &'static str = "^[a-zA-Z0-9._%+-]+@[a-zA-Z0-9.-]+\\.[a-zA-Z]{2,}$";

/// The pattern of web addresses.
pub const URL_PATTERN: &'static str = "^https?://[^\\s/$.?#].[^\\s]*$";

/// A compiled regular expression with its source. Its fields are private
/// and `compile_pattern` is the only code that makes one, so the regex
/// always is the one compiled from the source.
pub struct CompiledPattern {
    source: String,
    regex: regex::Regex,
}

impl CompiledPattern {
    /// The text the pattern was compiled from.
    pub closed spec fn source_text(self) -> Seq<char> {
        self.source@
    }
}

/// Name of the outcome of `regex::Regex::new`: whether the pattern compiles.
pub uninterp spec fn regex_compiles(pattern: Seq<char>) -> bool;

/// Name of the result of `regex::Regex::is_match`: whether the compiled
/// pattern matches somewhere in the haystack.
pub uninterp spec fn regex_matches(pattern: Seq<char>, haystack: Seq<char>) -> bool;

/// Calls `regex::Regex::new`. Trusted: it succeeds exactly when the named
/// outcome says the pattern compiles, and then keeps the pattern's source.
#[verifier::external_body]
fn compile_pattern(pattern: &str) -> (r: Option<CompiledPattern>)
    ensures
        r is Some <==> regex_compiles(pattern@),
        r is Some ==> r->0.source_text() == pattern@,
{
    match regex::Regex::new(pattern) {
        Ok(regex) => Some(CompiledPattern { source: pattern.to_owned(), regex }),
        Err(_) => None,
    }
}

/// Calls `regex::Regex::is_match` on the pattern's compiled regex. Trusted:
/// the result is the named match result of the pattern's source and the
/// haystack, as the regex is the one `Regex::new` made of that source.
#[verifier::external_body]
fn pattern_matches(p: &CompiledPattern, haystack: &str) -> (r: bool)
    ensures
        r == regex_matches(p.source_text(), haystack@),
{
    p.regex.is_match(haystack)
}

/// A check of one field value. The built-in checks report their message
/// when the value fails; `Custom` runs a function of the caller.
pub enum Validator<F> {
    /// The value must not be blank.
    Required { message: String },
    /// The value must have at least `min` bytes.
    MinLength { min: usize, message: String },
    /// The value must have at most `max` bytes.
    MaxLength { max: usize, message: String },
    /// A non-empty value must be an email address.
    Email { message: String, pattern: Option<CompiledPattern> },
    /// A non-empty value must be a web address.
    Url { message: String, pattern: Option<CompiledPattern> },
    /// A non-empty value must be a floating-point number.
    Numeric { message: String },
    /// A non-empty value must be a 64-bit integer.
    Integer { message: String },
    /// A non-empty value must match a regular expression.
    Pattern { message: String, pattern: Option<CompiledPattern> },
    /// A non-empty value must be letters and digits only.
    Alphanumeric { message: String },
    /// A non-empty value must be letters only.
    Alpha { message: String },
    /// The value must equal another value.
    Matches { other: String, message: String },
    /// A check of the caller: `Some(message)` when the value fails.
    Custom(F),
}

/// Letters and digits only.
pub open spec fn all_alphanumeric(s: Seq<char>) -> bool {
    forall|i: int| 0 <= i < s.len() ==> alphanumeric(#[trigger] s[i])
}

/// Letters only.
pub open spec fn all_alphabetic(s: Seq<char>) -> bool {
    forall|i: int| 0 <= i < s.len() ==> alphabetic(#[trigger] s[i])
}

/// `message` when `fails`, else nothing.
pub open spec fn report(fails: bool, message: Seq<char>) -> Option<Seq<char>> {
    if fails { Some(message) } else { None }
}

/// A non-empty value that the pattern does not match.
pub open spec fn pattern_fails(p: Option<CompiledPattern>, value: Seq<char>) -> bool {
    value.len() > 0 && !regex_matches(p->0.source_text(), value)
}

/// The text of an optional message.
pub open spec fn message_view(r: Option<String>) -> Option<Seq<char>> {
    match r {
        Some(m) => Some(m@),
        None => None,
    }
}

/// What a built-in check reports for `value`.
pub open spec fn builtin_outcome<F>(v: Validator<F>, value: &str) -> Option<Seq<char>> {
    let s = value@;
    match v {
        Validator::Required { message } => report(is_blank(s), message@),
        Validator::MinLength { min, message } => report(value.len() < min, message@),
        Validator::MaxLength { max, message } => report(value.len() > max, message@),
        Validator::Email { message, pattern } => report(pattern_fails(pattern, s), message@),
        Validator::Url { message, pattern } => report(pattern_fails(pattern, s), message@),
        Validator::Numeric { message } => report(s.len() > 0 && !float_syntax(s), message@),
        Validator::Integer { message } => report(s.len() > 0 && !i64_syntax(s), message@),
        Validator::Pattern { message, pattern } => report(pattern_fails(pattern, s), message@),
        Validator::Alphanumeric { message } => report(s.len() > 0 && !all_alphanumeric(s), message@),
        Validator::Alpha { message } => report(s.len() > 0 && !all_alphabetic(s), message@),
        Validator::Matches { other, message } => report(s != other@, message@),
        Validator::Custom(_) => None,
    }
}

/// `r` is a possible report of `v` on `value`.
pub open spec fn outcome<F: Fn(&str) -> Option<String>>(v: Validator<F>, value: &str, r: Option<String>) -> bool {
    match v {
        Validator::Custom(f) => call_ensures(f, (value,), r),
        _ => message_view(r) == builtin_outcome(v, value),
    }
}

/// The validator can run on `value`: its pattern compiled, and a custom
/// check accepts the value.
pub open spec fn can_check<F: Fn(&str) -> Option<String>>(v: Validator<F>, value: &str) -> bool {
    match v {
        Validator::Email { pattern, .. } => pattern is Some,
        Validator::Url { pattern, .. } => pattern is Some,
        Validator::Pattern { pattern, .. } => pattern is Some,
        Validator::Custom(f) => call_requires(f, (value,)),
        _ => true,
    }
}

/// The validator's pattern compiled, where it needs one.
pub open spec fn pattern_ready<F>(v: Validator<F>) -> bool {
    match v {
        Validator::Email { pattern, .. } => pattern is Some,
        Validator::Url { pattern, .. } => pattern is Some,
        Validator::Pattern { pattern, .. } => pattern is Some,
        _ => true,
    }
}

/// Whether every character is alphanumeric.
fn all_alnum(value: &str) -> (r: bool)
    ensures
        r == all_alphanumeric(value@),
{
    let v = chars_of(value);
    let mut i: usize = 0;
    while i < v.len()
        invariant
            v@ == value@,
            0 <= i <= v@.len(),
            forall|j: int| 0 <= j < i ==> alphanumeric(#[trigger] v@[j]),
        decreases v@.len() - i,
    {
        if !char_is_alphanumeric(v[i]) {
            return false;
        }
        i = i + 1;
    }
    true
}

/// Whether every character is alphabetic.
fn all_alpha(value: &str) -> (r: bool)
    ensures
        r == all_alphabetic(value@),
{
    let v = chars_of(value);
    let mut i: usize = 0;
    while i < v.len()
        invariant
            v@ == value@,
            0 <= i <= v@.len(),
            forall|j: int| 0 <= j < i ==> alphabetic(#[trigger] v@[j]),
        decreases v@.len() - i,
    {
        if !char_is_alphabetic(v[i]) {
            return false;
        }
        i = i + 1;
    }
    true
}

/// `Some(message)` when `fails`.
fn reported(fails: bool, message: &String) -> (r: Option<String>)
    ensures
        message_view(r) == report(fails, message@),
{
    if fails {
        Some(message.clone())
    } else {
        None
    }
}

impl<F> Validator<F> {
    /// A check of the caller's.
    pub fn custom(validate_fn: F) -> (r: Self)
        ensures
            r == Validator::Custom(validate_fn),
    {
        Validator::Custom(validate_fn)
    }

    /// The value must not be blank (empty after trimming white space).
    pub fn required(message: &str) -> (r: Self)
        ensures
            r matches Validator::Required { message: m } && m@ == message@,
    {
        Validator::Required { message: message.to_owned() }
    }

    /// The value must have at least `min` bytes.
    pub fn min_length(min: usize, message: &str) -> (r: Self)
        ensures
            r matches Validator::MinLength { min: n, message: m } && n == min && m@ == message@,
    {
        Validator::MinLength { min, message: message.to_owned() }
    }

    /// The value must have at most `max` bytes.
    pub fn max_length(max: usize, message: &str) -> (r: Self)
        ensures
            r matches Validator::MaxLength { max: n, message: m } && n == max && m@ == message@,
    {
        Validator::MaxLength { max, message: message.to_owned() }
    }

    /// A non-empty value must be an email address.
    pub fn email(message: &str) -> (r: Self)
        ensures
            r matches Validator::Email { message: m, pattern: p } && m@ == message@ && (p is Some
                <==> regex_compiles(EMAIL_PATTERN@)) && (p is Some ==> p->0.source_text() == EMAIL_PATTERN@),
    {
        Validator::Email { message: message.to_owned(), pattern: compile_pattern(EMAIL_PATTERN) }
    }

    /// A non-empty value must be a web address.
    pub fn url(message: &str) -> (r: Self)
        ensures
            r matches Validator::Url { message: m, pattern: p } && m@ == message@ && (p is Some
                <==> regex_compiles(URL_PATTERN@)) && (p is Some ==> p->0.source_text() == URL_PATTERN@),
    {
        Validator::Url { message: message.to_owned(), pattern: compile_pattern(URL_PATTERN) }
    }

    /// A non-empty value must be a number.
    pub fn numeric(message: &str) -> (r: Self)
        ensures
            r matches Validator::Numeric { message: m } && m@ == message@,
    {
        Validator::Numeric { message: message.to_owned() }
    }

    /// A non-empty value must be an integer.
    pub fn integer(message: &str) -> (r: Self)
        ensures
            r matches Validator::Integer { message: m } && m@ == message@,
    {
        Validator::Integer { message: message.to_owned() }
    }

    /// A non-empty value must match the regular expression `pattern`.
    pub fn pattern(pattern: &str, message: &str) -> (r: Self)
        ensures
            r matches Validator::Pattern { message: m, pattern: p } && m@ == message@ && (p is Some
                <==> regex_compiles(pattern@)) && (p is Some ==> p->0.source_text() == pattern@),
    {
        Validator::Pattern { message: message.to_owned(), pattern: compile_pattern(pattern) }
    }

    /// A non-empty value must be letters and digits only.
    pub fn alphanumeric(message: &str) -> (r: Self)
        ensures
            r matches Validator::Alphanumeric { message: m } && m@ == message@,
    {
        Validator::Alphanumeric { message: message.to_owned() }
    }

    /// A non-empty value must be letters only.
    pub fn alpha(message: &str) -> (r: Self)
        ensures
            r matches Validator::Alpha { message: m } && m@ == message@,
    {
        Validator::Alpha { message: message.to_owned() }
    }

    /// The value must equal `other_value`.
    pub fn matches(other_value: String, message: &str) -> (r: Self)
        ensures
            r matches Validator::Matches { other: o, message: m } && o == other_value && m@ == message@,
    {
        Validator::Matches { other: other_value, message: message.to_owned() }
    }
}

impl<F: Fn(&str) -> Option<String>> Validator<F> {
    /// Whether the validator's pattern compiled, where it needs one.
    pub fn pattern_compiled(&self) -> (r: bool)
        ensures
            r == pattern_ready(*self),
    {
        match self {
            Validator::Email { pattern, .. } => pattern.is_some(),
            Validator::Url { pattern, .. } => pattern.is_some(),
            Validator::Pattern { pattern, .. } => pattern.is_some(),
            _ => true,
        }
    }

    /// Check `value` when the validator can run: `None` when its pattern
    /// did not compile, otherwise the outcome of `validate`.
    pub fn try_validate(&self, value: &str) -> (r: Option<Option<String>>)
        requires
            self matches Validator::Custom(f) ==> call_requires(f, (value,)),
        ensures
            r is None <==> !pattern_ready(*self),
            r matches Some(x) ==> outcome(*self, value, x),
    {
        if self.pattern_compiled() {
            Some(self.validate(value))
        } else {
            None
        }
    }

    /// Check `value`: the message of a failed check, or nothing.
    pub fn validate(&self, value: &str) -> (r: Option<String>)
        requires
            can_check(*self, value),
        ensures
            outcome(*self, value, r),
    {
        match self {
            Validator::Required { message } => reported(blank(value), message),
            Validator::MinLength { min, message } => reported(value.len() < *min, message),
            Validator::MaxLength { max, message } => reported(value.len() > *max, message),
            Validator::Email { message, pattern } => {
                let p = pattern.as_ref().unwrap();
                reported(!value.is_empty() && !pattern_matches(p, value), message)
            },
            Validator::Url { message, pattern } => {
                let p = pattern.as_ref().unwrap();
                reported(!value.is_empty() && !pattern_matches(p, value), message)
            },
            Validator::Numeric { message } => reported(!value.is_empty() && !float_text(value), message),
            Validator::Integer { message } => reported(!value.is_empty() && !integer_text(value), message),
            Validator::Pattern { message, pattern } => {
                let p = pattern.as_ref().unwrap();
                reported(!value.is_empty() && !pattern_matches(p, value), message)
            },
            Validator::Alphanumeric { message } => reported(!value.is_empty() && !all_alnum(value), message),
            Validator::Alpha { message } => reported(!value.is_empty() && !all_alpha(value), message),
            Validator::Matches { other, message } => {
                let v = value.to_owned();
                let same = v == *other;
                reported(!same, message)
            },
            Validator::Custom(f) => f(value),
        }
    }
}

} // verus!
