//! The token model that the expansion reads and writes.

use vstd::prelude::*;

verus! {

/// Where a token stands in the caller's source. Only its identity matters.
#[derive(Clone, Copy, Debug, PartialEq, Eq, Structural)]
pub enum Span {
    /// The place where the expansion was invoked.
    CallSite,
    /// A place that the caller knows by this number.
    Site(u64),
}

/// The bracket kind of a group.
#[derive(Clone, Copy, Debug, PartialEq, Eq, Structural)]
pub enum Delimiter {
    /// `( ... )`
    Parenthesis,
    /// `{ ... }`
    Brace,
    /// `[ ... ]`
    Bracket,
    /// A group without visible delimiters.
    Invisible,
}

/// One token tree.
#[derive(Debug, PartialEq, Eq)]
pub enum Token {
    /// An identifier or keyword.
    Ident { name: String, span: Span },
    /// One punctuation character; `joint` when it is glued to the next one.
    Punct { ch: char, joint: bool, span: Span },
    /// A literal as it is written in the source, quotes and escapes included.
    Literal { text: String, span: Span },
    /// A string literal given by the value it stands for.
    Str { value: String, span: Span },
    /// A delimited group of tokens; `open` is the place of its opening delimiter.
    Group { delimiter: Delimiter, tokens: Vec<Token>, span: Span, open: Span },
}

/// The place of a token.
pub open spec fn span_of(t: Token) -> Span {
    match t {
        Token::Ident { span, .. } => span,
        Token::Punct { span, .. } => span,
        Token::Literal { span, .. } => span,
        Token::Str { span, .. } => span,
        Token::Group { span, .. } => span,
    }
}

/// `t` is the punctuation character `c`.
pub open spec fn is_punct(t: Token, c: char) -> bool {
    t matches Token::Punct { ch, .. } && ch == c
}

/// The separator that the expansion inserts between arguments.
pub open spec fn comma() -> Token {
    Token::Punct { ch: ',', joint: true, span: Span::CallSite }
}

impl Token {
    /// The place of this token.
    pub fn span(&self) -> (r: Span)
        ensures
            r == span_of(*self),
    {
        match self {
            Token::Ident { span, .. } => *span,
            Token::Punct { span, .. } => *span,
            Token::Literal { span, .. } => *span,
            Token::Str { span, .. } => *span,
            Token::Group { span, .. } => *span,
        }
    }

    /// Whether this token is the punctuation character `c`.
    pub fn is_punct(&self, c: char) -> (r: bool)
        ensures
            r == is_punct(*self, c),
    {
        match self {
            Token::Punct { ch, .. } => *ch == c,
            _ => false,
        }
    }

    /// Whether this token is an identifier.
    pub fn is_ident(&self) -> (r: bool)
        ensures
            r == (*self is Ident),
    {
        match self {
            Token::Ident { .. } => true,
            _ => false,
        }
    }

    /// The separator that the expansion inserts between arguments.
    pub fn comma() -> (r: Token)
        ensures
            r == comma(),
    {
        Token::Punct { ch: ',', joint: true, span: Span::CallSite }
    }
}

} // verus!

verus! {

/// The tokens not yet read, kept in reverse order so that reading the next one
/// is a `pop`.
pub struct Cursor {
    rev: Vec<Token>,
}

impl Cursor {
    /// The tokens not yet read, in reading order.
    pub closed spec fn rest(&self) -> Seq<Token> {
        Seq::new(self.rev@.len(), |i: int| self.rev@[self.rev@.len() - 1 - i])
    }

    /// A cursor at the start of `tokens`.
    pub fn new(tokens: Vec<Token>) -> (r: Cursor)
        ensures
            r.rest() == tokens@,
    {
        let ghost all = tokens@;
        let mut tokens = tokens;
        let mut rev: Vec<Token> = Vec::new();
        while tokens.len() > 0
            invariant
                all =~= tokens@ + (Cursor { rev }).rest(),
            decreases tokens.len(),
        {
            let ghost before = tokens@;
            let ghost old_rev = rev@;
            let t = tokens.pop().unwrap();
            rev.push(t);
            assert((Cursor { rev }).rest() =~= seq![t] + Seq::new(
                old_rev.len(),
                |i: int| old_rev[old_rev.len() - 1 - i],
            ));
            assert(before =~= tokens@.push(t));
        }
        assert(all =~= (Cursor { rev }).rest());
        Cursor { rev }
    }

    /// Whether the next token is the punctuation character `c`.
    pub fn peek_is_punct(&self, c: char) -> (r: bool)
        ensures
            r == (self.rest().len() > 0 && is_punct(self.rest()[0], c)),
    {
        let n = self.rev.len();
        if n == 0 {
            false
        } else {
            self.rev[n - 1].is_punct(c)
        }
    }

    /// Reads the next token.
    pub fn next(&mut self) -> (r: Option<Token>)
        ensures
            old(self).rest().len() == 0 ==> r is None && final(self).rest() == old(self).rest(),
            old(self).rest().len() > 0 ==> r == Some(old(self).rest()[0])
                && final(self).rest() == old(self).rest().drop_first(),
    {
        let r = self.rev.pop();
        if r.is_some() {
            assert(self.rest() =~= old(self).rest().drop_first());
        } else {
            assert(self.rest() =~= old(self).rest());
        }
        r
    }
}

} // verus!
