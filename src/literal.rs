//! Reading the value of a string literal token.

use vstd::prelude::*;
use vstd::string::*;
use crate::token::Token;

verus! {

/// The value of the string or raw string literal written as `src`; `None` when
/// `src` is not such a literal.
pub uninterp spec fn string_literal_value(src: Seq<char>) -> Option<Seq<char>>;

/// The view of an optional string.
pub open spec fn opt_view(o: Option<String>) -> Option<Seq<char>> {
    match o {
        Some(s) => Some(s@),
        None => None,
    }
}

/// Relies on `litrs::StringLit::parse` and `StringLit::value`: they decode a
/// plain or raw string literal (escapes resolved) and refuse every other input,
/// among them any text that does not start with `"` or `r`.
#[verifier::external_body]
fn decode_string_literal(src: &str) -> (r: Option<String>)
    ensures
        opt_view(r) == string_literal_value(src@),
        (src@.len() == 0 || (src@[0] != '"' && src@[0] != 'r')) ==> r is None,
{
    match litrs::StringLit::parse(src) {
        Ok(lit) => Some(lit.value().to_string()),
        Err(_) => None,
    }
}

/// The string that a token stands for, if it is a string literal.
pub open spec fn token_string_value(t: Token) -> Option<Seq<char>> {
    match t {
        Token::Literal { text, .. } => string_literal_value(text@),
        Token::Str { value, .. } => Some(value@),
        _ => None,
    }
}

/// The string that `t` stands for, if it is a plain or raw string literal.
pub fn string_value(t: &Token) -> (r: Option<String>)
    ensures
        opt_view(r) == token_string_value(*t),
{
    match t {
        Token::Literal { text, .. } => decode_string_literal(text.as_str()),
        Token::Str { value, .. } => Some(value.clone()),
        _ => None,
    }
}

/// `s` without its first character when that is a space.
pub open spec fn strip_one_space(s: Seq<char>) -> Seq<char> {
    if s.len() > 0 && s[0] == ' ' {
        s.drop_first()
    } else {
        s
    }
}

/// Removes one leading space, if there is one.
pub fn strip_leading_space(s: String) -> (r: String)
    ensures
        r@ == strip_one_space(s@),
{
    let n = s.as_str().unicode_len();
    if n > 0 && s.as_str().get_char(0) == ' ' {
        let rest = s.as_str().substring_char(1, n).to_owned();
        assert(rest@ =~= s@.drop_first());
        rest
    } else {
        s
    }
}

/// At most one leading space is taken away: a value that starts with one
/// space alone loses it and then starts with no space, a value that starts
/// with none is kept, and a value that starts with more keeps all but one.
pub proof fn lemma_strip_at_most_one_space(s: Seq<char>)
    ensures
        s.len() > 0 && s[0] == ' ' ==> strip_one_space(s) == s.drop_first(),
        s.len() > 0 && s[0] == ' ' && (s.len() == 1 || s[1] != ' ')
            ==> (strip_one_space(s).len() == 0 || strip_one_space(s)[0] != ' '),
        s.len() == 0 || s[0] != ' ' ==> strip_one_space(s) == s,
        s.len() > 1 && s[0] == ' ' && s[1] == ' ' ==> strip_one_space(s)[0] == ' ',
        s.len() - 1 <= strip_one_space(s).len() <= s.len(),
{
}

} // verus!
