//! Diagnostics and the tokens that report them.

use vstd::prelude::*;
use vstd::string::*;
use crate::token::{Delimiter, Span, Token};

verus! {

/// A message attached to a place; reported as `compile_error! { "message" }`.
pub struct CompileError {
    /// Where the error is reported.
    pub span: Span,
    /// What is reported.
    pub message: String,
}

/// A diagnostic as a place and a text.
pub type Diag = (Span, Seq<char>);

/// The place and text of an error.
pub open spec fn diag_of(e: CompileError) -> Diag {
    (e.span, e.message@)
}

/// The places and texts of a sequence of errors.
pub open spec fn diags_of(es: Seq<CompileError>) -> Seq<Diag> {
    es.map_values(|e: CompileError| diag_of(e))
}

/// `ts` is `compile_error! { "text" }`, each token placed at the diagnostic's place.
pub open spec fn is_error_report(ts: Seq<Token>, d: Diag) -> bool {
    &&& ts.len() == 3
    &&& ts[0] matches Token::Ident { name, span } && name@ == "compile_error"@ && span == d.0
    &&& ts[1] == (Token::Punct { ch: '!', joint: false, span: d.0 })
    &&& ts[2] matches Token::Group { delimiter, tokens, span, open }
        && delimiter == Delimiter::Brace && span == d.0 && open == d.0
        && tokens@.len() == 1 && is_str_at(tokens@[0], d.1, d.0)
}

/// `t` is a string literal whose value is `text`, placed at `at`.
pub open spec fn is_str_at(t: Token, text: Seq<char>, at: Span) -> bool {
    t matches Token::Str { value, span } && value@ == text && span == at
}

/// `out` reports each diagnostic of `ds` in turn, three tokens each.
pub open spec fn is_report(out: Seq<Token>, ds: Seq<Diag>) -> bool {
    &&& out.len() == 3 * ds.len()
    &&& forall|k: int| 0 <= k < ds.len() ==> is_error_report(#[trigger] out.subrange(3 * k, 3 * k + 3), ds[k])
}

impl CompileError {
    /// An error with `message` at `span`.
    pub fn new(span: Span, message: &str) -> (r: CompileError)
        ensures
            r.span == span,
            r.message@ == message@,
    {
        CompileError { span, message: message.to_owned() }
    }

    /// The tokens `compile_error! { "message" }`, all at this error's place.
    pub fn into_tokens(self) -> (r: Vec<Token>)
        ensures
            is_error_report(r@, diag_of(self)),
    {
        let mut r: Vec<Token> = Vec::new();
        self.append_to(&mut r);
        assert(r@ =~= r@.subrange(0, 3));
        r
    }

    /// Appends `compile_error! { "message" }` to `out`.
    pub fn append_to(self, out: &mut Vec<Token>)
        ensures
            final(out)@.len() == old(out)@.len() + 3,
            final(out)@.take(old(out)@.len() as int) == old(out)@,
            is_error_report(
                final(out)@.subrange(old(out)@.len() as int, old(out)@.len() + 3 as int),
                diag_of(self),
            ),
    {
        let span = self.span;
        let lit = Token::Str { value: self.message, span };
        let mut inner: Vec<Token> = Vec::new();
        inner.push(lit);
        out.push(Token::Ident { name: String::from_str("compile_error"), span });
        out.push(Token::Punct { ch: '!', joint: false, span });
        out.push(Token::Group { delimiter: Delimiter::Brace, tokens: inner, span, open: span });
        assert(final(out)@.take(old(out)@.len() as int) =~= old(out)@);
    }
}

/// The report of every error of `errors`, in order.
pub fn report(errors: Vec<CompileError>) -> (r: Vec<Token>)
    ensures
        is_report(r@, diags_of(errors@)),
{
    let ghost ds = diags_of(errors@);
    let mut errors = errors;
    assert(ds.len() == errors.len());
    let mut pending: Vec<CompileError> = Vec::new();
    while errors.len() > 0
        invariant
            ds.len() == errors@.len() + pending@.len(),
            ds.len() <= usize::MAX,
            forall|k: int| 0 <= k < errors@.len() ==> ds[k] == diag_of(#[trigger] errors@[k]),
            forall|k: int| 0 <= k < pending@.len()
                ==> ds[ds.len() - 1 - k] == diag_of(#[trigger] pending@[k]),
        decreases errors.len(),
    {
        let e = errors.pop().unwrap();
        pending.push(e);
    }
    let mut out: Vec<Token> = Vec::new();
    let mut done: usize = 0;
    while pending.len() > 0
        invariant
            done + pending@.len() == ds.len(),
            ds.len() <= usize::MAX,
            forall|k: int| 0 <= k < pending@.len()
                ==> ds[ds.len() - 1 - k] == diag_of(#[trigger] pending@[k]),
            out@.len() == 3 * done,
            forall|k: int| 0 <= k < done
                ==> is_error_report(#[trigger] out@.subrange(3 * k, 3 * k + 3), ds[k]),
        decreases pending.len(),
    {
        let e = pending.pop().unwrap();
        let ghost prev = out@;
        e.append_to(&mut out);
        assert forall|k: int| 0 <= k < done + 1
            implies is_error_report(#[trigger] out@.subrange(3 * k, 3 * k + 3), ds[k]) by {
            if k < done {
                assert(out@.subrange(3 * k, 3 * k + 3) =~= prev.subrange(3 * k, 3 * k + 3));
            }
        }
        done = done + 1;
    }
    out
}

} // verus!
