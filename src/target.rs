//! Reading the optional call target: a path such as `std::format!`.

use vstd::prelude::*;
use vstd::string::*;
use crate::diag::{CompileError, Diag, diag_of};
use crate::token::{Cursor, Span, Token, is_punct, span_of};

verus! {

/// How `t` reads in a path.
pub open spec fn token_text(t: Token) -> Seq<char> {
    match t {
        Token::Ident { name, .. } => name@,
        Token::Punct { ch, .. } => seq![ch],
        _ => Seq::empty(),
    }
}

/// How a path reads: its identifiers and punctuation, side by side.
pub open spec fn render_path(path: Seq<Token>) -> Seq<char>
    decreases path.len(),
{
    if path.len() == 0 {
        Seq::empty()
    } else {
        render_path(path.drop_last()) + token_text(path.last())
    }
}

/// The place to blame when a path ends too early: its last token, else the call site.
pub open spec fn last_span(path: Seq<Token>) -> Span {
    if path.len() == 0 {
        Span::CallSite
    } else {
        span_of(path.last())
    }
}

/// The text for a path that is missing or malformed.
pub open spec fn expected_path_message() -> Seq<char> {
    "expected path to macro like: `std::format!`\n\nnote: macro path is optional and can be omitted to produce a `&'static str`"@
}

/// The text for two identifiers in a row: it proposes both `path::ident`
/// and `path! ident`.
pub open spec fn two_idents_message(path: Seq<char>, ident: Seq<char>) -> Seq<char> {
    "2 identifiers in a row is not a valid macro path\n\ndid you mean one of:\n- `"@ + path + "::"@
        + ident + "`\n- `"@ + path + "! "@ + ident + "`"@
}

/// The text for a `,` where the path's `!` was expected.
pub open spec fn comma_message(path: Seq<char>) -> Seq<char> {
    "replace with `!` to pass the macro: `"@ + path + "!`"@
}

/// Reading a path from `r`, with `path` read so far and `last_ident` telling
/// whether it ends in an identifier: the tokens left, and the path up to and
/// including its `!`, or the error that ended it.
pub open spec fn path_scan(r: Seq<Token>, path: Seq<Token>, last_ident: bool) -> (Seq<Token>, Result<Seq<Token>, Diag>)
    decreases r.len(),
{
    if r.len() == 0 {
        (r, Err((last_span(path), expected_path_message())))
    } else {
        let t = r[0];
        let rest = r.drop_first();
        if is_punct(t, '!') {
            (rest, Ok(path.push(t)))
        } else if is_punct(t, ':') {
            path_scan(rest, path.push(t), false)
        } else if t is Ident {
            if last_ident {
                (rest, Err((span_of(t), two_idents_message(render_path(path), token_text(t)))))
            } else {
                path_scan(rest, path.push(t), true)
            }
        } else if is_punct(t, ',') {
            (rest, Err((span_of(t), comma_message(render_path(path)))))
        } else {
            (rest, Err((span_of(t), expected_path_message())))
        }
    }
}

/// The model of a path result.
pub open spec fn path_view(r: Result<Vec<Token>, CompileError>) -> Result<Seq<Token>, Diag> {
    match r {
        Ok(p) => Ok(p@),
        Err(e) => Err(diag_of(e)),
    }
}

/// Relies on `String::push`: appends one character.
#[verifier::external_body]
fn push_char(s: &mut String, c: char)
    ensures
        final(s)@ == old(s)@.push(c),
{
    s.push(c)
}

/// How a path reads.
pub fn render(path: &Vec<Token>) -> (r: String)
    ensures
        r@ == render_path(path@),
{
    let mut s = String::new();
    let mut i: usize = 0;
    while i < path.len()
        invariant
            0 <= i <= path.len(),
            s@ == render_path(path@.take(i as int)),
        decreases path.len() - i,
    {
        proof {
            assert(path@.take(i + 1).drop_last() =~= path@.take(i as int));
        }
        match &path[i] {
            Token::Ident { name, .. } => s.append(name.as_str()),
            Token::Punct { ch, .. } => push_char(&mut s, *ch),
            _ => {
                assert(s@ =~= s@ + token_text(path@[i as int]));
            },
        }
        i = i + 1;
    }
    assert(path@.take(path.len() as int) =~= path@);
    s
}

fn path_error(path: &Vec<Token>) -> (r: CompileError)
    ensures
        diag_of(r) == (last_span(path@), expected_path_message()),
{
    let span = if path.len() == 0 {
        Span::CallSite
    } else {
        path[path.len() - 1].span()
    };
    CompileError { span, message: expected_path_text() }
}

fn unexpected_token_error(t: &Token) -> (r: CompileError)
    ensures
        diag_of(r) == (span_of(*t), expected_path_message()),
{
    CompileError { span: t.span(), message: expected_path_text() }
}

fn expected_path_text() -> (r: String)
    ensures
        r@ == expected_path_message(),
{
    String::from_str("expected path to macro like: `std::format!`\n\nnote: macro path is optional and can be omitted to produce a `&'static str`")
}

fn two_idents_error(path: &Vec<Token>, ident: &Token) -> (r: CompileError)
    requires
        *ident is Ident,
    ensures
        diag_of(r) == (span_of(*ident), two_idents_message(render_path(path@), token_text(*ident))),
{
    let p = render(path);
    let mut m = String::from_str("2 identifiers in a row is not a valid macro path\n\ndid you mean one of:\n- `");
    m.append(p.as_str());
    m.append("::");
    match ident {
        Token::Ident { name, .. } => m.append(name.as_str()),
        _ => {},
    }
    m.append("`\n- `");
    m.append(p.as_str());
    m.append("! ");
    match ident {
        Token::Ident { name, .. } => m.append(name.as_str()),
        _ => {},
    }
    m.append("`");
    CompileError { span: ident.span(), message: m }
}

fn comma_error(path: &Vec<Token>, comma: &Token) -> (r: CompileError)
    ensures
        diag_of(r) == (span_of(*comma), comma_message(render_path(path@))),
{
    let mut m = String::from_str("replace with `!` to pass the macro: `");
    let p = render(path);
    m.append(p.as_str());
    m.append("!`");
    CompileError { span: comma.span(), message: m }
}

/// Reads a call target `ident (: ident)* !` from the cursor: the path up to
/// and including its `!`, or the first error in it. Reading stops there.
pub fn scan_path(cur: &mut Cursor) -> (r: Result<Vec<Token>, CompileError>)
    ensures
        (final(cur).rest(), path_view(r)) == path_scan(old(cur).rest(), Seq::empty(), false),
{
    let ghost goal = path_scan(cur.rest(), Seq::empty(), false);
    let mut path: Vec<Token> = Vec::new();
    let mut last_ident = false;
    loop
        invariant
            path_scan(cur.rest(), path@, last_ident) == goal,
            goal == path_scan(old(cur).rest(), Seq::empty(), false),
        decreases cur.rest().len(),
    {
        match cur.next() {
            None => {
                return Err(path_error(&path));
            },
            Some(t) => {
                if t.is_punct('!') {
                    path.push(t);
                    return Ok(path);
                } else if t.is_punct(':') {
                    path.push(t);
                    last_ident = false;
                } else if t.is_ident() {
                    if last_ident {
                        return Err(two_idents_error(&path, &t));
                    }
                    path.push(t);
                    last_ident = true;
                } else if t.is_punct(',') {
                    return Err(comma_error(&path, &t));
                } else {
                    return Err(unexpected_token_error(&t));
                }
            },
        }
    }
}

} // verus!
