//! The registration-form validator: compiled patterns for emails, usernames
//! and passwords, and the password rule. The pattern engine is called
//! through trusted items; the character rules are verified.

use vstd::prelude::*;

verus! {

#[verifier::external_type_specification]
#[verifier::external_body]
pub struct ExRegex(regex::Regex);

/// Relies on `regex::Regex: Clone`: cloning a compiled pattern; nothing is
/// claimed of the copy.
pub assume_specification[ <regex::Regex as Clone>::clone ](r: &regex::Regex) -> regex::Regex;

/// Whether some character is an ASCII uppercase letter.
pub open spec fn has_ascii_uppercase(s: Seq<char>) -> bool {
    exists|i: int| 0 <= i < s.len() && 65 <= (#[trigger] s[i]) as u32 <= 90
}

/// An ASCII letter or digit.
pub open spec fn is_ascii_alphanumeric_char(c: char) -> bool {
    (48 <= c as u32 <= 57) || (65 <= c as u32 <= 90) || (97 <= c as u32 <= 122)
}

/// Whether some character is outside the ASCII letters and digits.
pub open spec fn has_special_char(s: Seq<char>) -> bool {
    exists|i: int| 0 <= i < s.len() && !is_ascii_alphanumeric_char(#[trigger] s[i])
}

/// What the anchored password length pattern accepts: at least six
/// characters, none of them a line feed.
pub open spec fn password_length_ok(s: Seq<char>) -> bool {
    s.len() >= 6 && forall|i: int| 0 <= i < s.len() ==> (#[trigger] s[i]) != '\n'
}

/// The full password rule: the length pattern, an ASCII uppercase letter,
/// and a character that is not an ASCII letter or digit.
pub open spec fn password_ok(s: Seq<char>) -> bool {
    password_length_ok(s) && has_ascii_uppercase(s) && has_special_char(s)
}

/// Compiled validation patterns for the registration form.
#[derive(Clone)]
pub struct RegexValidator {
    email: regex::Regex,
    username: regex::Regex,
    password: regex::Regex,
}

impl RegexValidator {
    /// Relies on `regex::Regex::new`: compiles the email, username and
    /// password patterns, which are fixed valid patterns, so compilation
    /// cannot fail.
    #[verifier::external_body]
    pub fn new() -> (r: Self) {
        RegexValidator {
            email: regex::Regex::new(r"^[\w\.-]+@[\w\.-]+\.\w{2,}$").unwrap(),
            username: regex::Regex::new(r"^[a-z0-9_-]{2,20}$").unwrap(),
            password: regex::Regex::new(r"^.{6,}$").unwrap(),
        }
    }

    /// Relies on `regex::Regex::is_match` against the anchored pattern that
    /// `new` compiles into the `password` field: a dot matches any character
    /// except a line feed, so the pattern holds exactly of haystacks of at
    /// least six characters without a line feed.
    #[verifier::external_body]
    fn password_pattern_matches(&self, password: &str) -> (r: bool)
        ensures
            r == password_length_ok(password@),
    {
        self.password.is_match(password)
    }

    /// The password rule: the length pattern, plus an ASCII uppercase letter
    /// and a non-alphanumeric character.
    pub fn validate_password(&self, password: &str) -> (r: bool)
        ensures
            r == password_ok(password@),
    {
        if !self.password_pattern_matches(password) {
            return false;
        }
        let has_upper = scan_ascii_uppercase(password);
        let has_special = scan_special(password);
        has_upper && has_special
    }
}

fn scan_ascii_uppercase(s: &str) -> (b: bool)
    ensures
        b == has_ascii_uppercase(s@),
{
    let len = s.unicode_len();
    let mut i: usize = 0;
    while i < len
        invariant
            len == s@.len(),
            0 <= i <= len,
            forall|k: int| 0 <= k < i ==> !(65 <= (#[trigger] s@[k]) as u32 <= 90),
        decreases len - i,
    {
        let c = s.get_char(i);
        let v = c as u32;
        if 65 <= v && v <= 90 {
            return true;
        }
        i = i + 1;
    }
    false
}

fn scan_special(s: &str) -> (b: bool)
    ensures
        b == has_special_char(s@),
{
    let len = s.unicode_len();
    let mut i: usize = 0;
    while i < len
        invariant
            len == s@.len(),
            0 <= i <= len,
            forall|k: int| 0 <= k < i ==> is_ascii_alphanumeric_char(#[trigger] s@[k]),
        decreases len - i,
    {
        let c = s.get_char(i);
        let v = c as u32;
        if !((48 <= v && v <= 57) || (65 <= v && v <= 90) || (97 <= v && v <= 122)) {
            return true;
        }
        i = i + 1;
    }
    false
}

} // verus!
