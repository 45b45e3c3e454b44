//! The shapes of the names that configuration and accounts may use.

use vstd::prelude::*;

verus! {

/// Site names: letters, digits, dashes and underlines, at least one.
pub const SITE_NAME_PATTERN: &'static str = "^[-_0-9a-zA-Z]+$";

/// Database names: an identifier.
pub const DATABASE_NAME_PATTERN: &'static str = "^[_a-zA-Z][_a-zA-Z0-9]*$";

/// Account ids: 4 to 32 letters, digits, dashes and underlines.
pub const ACCOUNT_ID_PATTERN: &'static str = "^[-_0-9a-zA-Z]{4,32}$";

pub open spec fn is_letter(c: char) -> bool {
    ('a' <= c && c <= 'z') || ('A' <= c && c <= 'Z')
}

pub open spec fn is_digit(c: char) -> bool {
    '0' <= c && c <= '9'
}

/// A character of a site name or an account id.
pub open spec fn is_name_char(c: char) -> bool {
    c == '-' || c == '_' || is_digit(c) || is_letter(c)
}

pub open spec fn is_site_name(s: Seq<char>) -> bool {
    s.len() >= 1 && forall|i: int| 0 <= i < s.len() ==> is_name_char(#[trigger] s[i])
}

pub open spec fn is_database_name(s: Seq<char>) -> bool {
    &&& s.len() >= 1
    &&& (s[0] == '_' || is_letter(s[0]))
    &&& forall|i: int| 1 <= i < s.len() ==> {
        let c = #[trigger] s[i];
        c == '_' || is_letter(c) || is_digit(c)
    }
}

pub open spec fn is_account_id(s: Seq<char>) -> bool {
    4 <= s.len() <= 32 && forall|i: int| 0 <= i < s.len() ==> is_name_char(#[trigger] s[i])
}

/// What each of the three patterns accepts.
pub open spec fn pattern_accepts(pattern: Seq<char>, text: Seq<char>) -> bool {
    if pattern == SITE_NAME_PATTERN@ {
        is_site_name(text)
    } else if pattern == DATABASE_NAME_PATTERN@ {
        is_database_name(text)
    } else {
        is_account_id(text)
    }
}

/// Calls `regex::Regex::new` and `Regex::is_match`. Trusted: for the three
/// patterns above, which are anchored at both ends and made of one or two
/// character classes with a repetition, a text matches exactly when it has
/// the shape that `pattern_accepts` spells out.
#[verifier::external_body]
fn regex_is_match(pattern: &str, text: &str) -> (r: bool)
    requires
        pattern@ == SITE_NAME_PATTERN@ || pattern@ == DATABASE_NAME_PATTERN@ || pattern@
            == ACCOUNT_ID_PATTERN@,
    ensures
        r == pattern_accepts(pattern@, text@),
{
    regex::Regex::new(pattern).unwrap().is_match(text)
}

proof fn patterns_differ()
    ensures
        SITE_NAME_PATTERN@ != DATABASE_NAME_PATTERN@,
        SITE_NAME_PATTERN@ != ACCOUNT_ID_PATTERN@,
        DATABASE_NAME_PATTERN@ != ACCOUNT_ID_PATTERN@,
{
    reveal_strlit("^[-_0-9a-zA-Z]+$");
    reveal_strlit("^[_a-zA-Z][_a-zA-Z0-9]*$");
    reveal_strlit("^[-_0-9a-zA-Z]{4,32}$");
    assert(SITE_NAME_PATTERN@.len() == 16);
    assert(DATABASE_NAME_PATTERN@.len() == 24);
    assert(ACCOUNT_ID_PATTERN@.len() == 21);
}

/// Whether `name` may name a site.
pub fn site_name_is_legal(name: &str) -> (r: bool)
    ensures
        r == is_site_name(name@),
{
    regex_is_match(SITE_NAME_PATTERN, name)
}

/// Whether `name` may name a database.
pub fn database_name_is_legal(name: &str) -> (r: bool)
    ensures
        r == is_database_name(name@),
{
    proof {
        patterns_differ();
    }
    regex_is_match(DATABASE_NAME_PATTERN, name)
}

/// Whether `account` has the shape of an account id.
pub fn account_id_is_legal(account: &str) -> (r: bool)
    ensures
        r == is_account_id(account@),
{
    proof {
        patterns_differ();
    }
    regex_is_match(ACCOUNT_ID_PATTERN, account)
}

} // verus!
