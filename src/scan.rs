//! The scanner of the documentation-comment run: it splits the tokens after
//! the call target into the arguments before the run, one text per comment,
//! and the arguments after the run, and collects every error on the way.

use vstd::prelude::*;
use vstd::string::*;
use crate::diag::{CompileError, Diag, diag_of, diags_of};
use crate::join::string_views;
use crate::literal::{
    lemma_strip_at_most_one_space, string_value, strip_leading_space, strip_one_space,
    token_string_value,
};
use crate::token::{Cursor, Delimiter, Span, Token, comma, is_punct, span_of};

verus! {

/// How far the scan has come through the comment run. It only moves forward.
#[derive(Clone, Copy, Debug, PartialEq, Eq, Structural)]
pub enum Progress {
    /// No `#` seen yet: tokens are arguments before the run.
    NotReached,
    /// Within the run: the next token starts another `#[doc = ...]`.
    Inside,
    /// The run is over: tokens are arguments after it.
    Finished,
}

/// What the scan has gathered so far: the model of [`Scan`].
pub struct ScanModel {
    pub progress: Progress,
    pub before: Seq<Token>,
    pub segments: Seq<Seq<char>>,
    pub after: Seq<Token>,
    pub errors: Seq<Diag>,
}

/// Each of these changes one part of the model and keeps the rest.
impl ScanModel {
    pub open spec fn with_progress(self, p: Progress) -> ScanModel {
        ScanModel { progress: p, ..self }
    }

    pub open spec fn with_error(self, d: Diag) -> ScanModel {
        ScanModel { errors: self.errors.push(d), ..self }
    }

    pub open spec fn with_segment(self, s: Seq<char>) -> ScanModel {
        ScanModel { segments: self.segments.push(s), ..self }
    }

    pub open spec fn with_before(self, t: Token) -> ScanModel {
        ScanModel { before: self.before.push(t), ..self }
    }

    pub open spec fn with_after(self, t: Token) -> ScanModel {
        ScanModel { after: self.after.push(t), ..self }
    }
}

/// The state of a scan in progress.
pub struct Scan {
    pub progress: Progress,
    /// Arguments before the comment run, with any separator added on recovery.
    pub before: Vec<Token>,
    /// The text of each comment, one leading space removed.
    pub segments: Vec<String>,
    /// Arguments after the comment run.
    pub after: Vec<Token>,
    /// Every error found, in order.
    pub errors: Vec<CompileError>,
}

impl Scan {
    /// The scan's state as a model value.
    pub open spec fn model(&self) -> ScanModel {
        ScanModel {
            progress: self.progress,
            before: self.before@,
            segments: string_views(self.segments@),
            after: self.after@,
            errors: diags_of(self.errors@),
        }
    }

    /// A scan that has seen nothing yet and carries `errors` from before.
    pub fn new(errors: Vec<CompileError>) -> (r: Scan)
        ensures
            r.model() == initial_model(diags_of(errors@)),
    {
        let r = Scan {
            progress: Progress::NotReached,
            before: Vec::new(),
            segments: Vec::new(),
            after: Vec::new(),
            errors,
        };
        assert(string_views(r.segments@) =~= Seq::<Seq<char>>::empty());
        r
    }

    pub(crate) fn add_error(&mut self, span: Span, message: &str)
        ensures
            final(self).model() == old(self).model().with_error((span, message@)),
    {
        self.errors.push(CompileError::new(span, message));
        assert(diags_of(self.errors@) =~= diags_of(old(self).errors@).push((span, message@)));
    }

    fn push_error(&mut self, e: CompileError)
        ensures
            final(self).model() == old(self).model().with_error(diag_of(e)),
    {
        self.errors.push(e);
        assert(diags_of(self.errors@) =~= diags_of(old(self).errors@).push(diag_of(e)));
    }

    fn push_segment(&mut self, s: String)
        ensures
            final(self).model() == old(self).model().with_segment(s@),
    {
        self.segments.push(s);
        assert(string_views(self.segments@) =~= string_views(old(self).segments@).push(s@));
    }
}

/// A scan that has seen nothing yet and carries `errors` from before.
pub open spec fn initial_model(errors: Seq<Diag>) -> ScanModel {
    ScanModel {
        progress: Progress::NotReached,
        before: Seq::empty(),
        segments: Seq::empty(),
        after: Seq::empty(),
        errors,
    }
}

/// `t` is the identifier `doc`.
pub open spec fn is_doc_keyword(t: Token) -> bool {
    t matches Token::Ident { name, .. } && name@ == "doc"@
}

/// The text of one bracket group `[doc = "..."]` whose opening bracket is at
/// `open`, one leading space removed; or the error in its shape.
pub open spec fn attribute_segment(inner: Seq<Token>, open: Span) -> Result<Seq<char>, Diag> {
    if inner.len() == 0 {
        Err((open, "expected `doc` after `[`"@))
    } else if !is_doc_keyword(inner[0]) {
        Err((span_of(inner[0]), "expected `doc`"@))
    } else if inner.len() == 1 {
        Err((span_of(inner[0]), "expected `=` after `doc`"@))
    } else if !is_punct(inner[1], '=') {
        Err((span_of(inner[1]), "expected `=`"@))
    } else if inner.len() == 2 {
        Err((span_of(inner[1]), "expected string literal after `=`"@))
    } else {
        match token_string_value(inner[2]) {
            Some(v) => Ok(strip_one_space(v)),
            None => Err((span_of(inner[2]), "only string \"...\" or r\"...\" literals are supported"@)),
        }
    }
}

/// Where the scan stands after one attribute: still inside the run when
/// another `#` follows, else past it.
pub open spec fn progress_after(rest: Seq<Token>) -> Progress {
    if rest.len() > 0 && is_punct(rest[0], '#') {
        Progress::Inside
    } else {
        Progress::Finished
    }
}

/// One attribute, read after its `#` (which stood at `hash`) from `rest`.
pub open spec fn attribute_step(rest: Seq<Token>, hash: Span, m: ScanModel) -> (Seq<Token>, ScanModel) {
    let m1 = m.with_progress(Progress::Inside);
    let bang = rest.len() > 0 && is_punct(rest[0], '!');
    let r2 = if bang { rest.drop_first() } else { rest };
    let m2 = if bang {
        m1.with_error((span_of(rest[0]), "Inner doc comments `//! ...` are not supported. Please use `/// ...`"@))
    } else {
        m1
    };
    if r2.len() == 0 {
        (r2, m2.with_error((hash, "expected `#` to be followed by `[...]`"@)).with_progress(Progress::Finished))
    } else {
        let g = r2[0];
        let r3 = r2.drop_first();
        let m3 = if g is Group && g->delimiter == Delimiter::Bracket {
            match attribute_segment(g->tokens@, g->open) {
                Ok(s) => m2.with_segment(s),
                Err(d) => m2.with_error(d),
            }
        } else {
            m2.with_error((span_of(g), "expected `[...]`"@))
        };
        (r3, m3.with_progress(progress_after(r3)))
    }
}

/// One argument token `t` before the run, `rest` after it. A token that is not
/// a `,` right before the run is an error, and a `,` is added after it.
pub open spec fn before_step(t: Token, rest: Seq<Token>, m: ScanModel) -> (Seq<Token>, ScanModel) {
    let m1 = m.with_before(t);
    if rest.len() > 0 && is_punct(rest[0], '#') && !is_punct(t, ',') {
        (rest, m1.with_error((span_of(t), "expected `,` after this"@)).with_before(comma()))
    } else {
        (rest, m1)
    }
}

/// One step of the scan on the non-empty `r`.
pub open spec fn scan_step(r: Seq<Token>, m: ScanModel) -> (Seq<Token>, ScanModel) {
    let t = r[0];
    let rest = r.drop_first();
    if m.progress != Progress::Finished && is_punct(t, '#') {
        attribute_step(rest, span_of(t), m)
    } else if m.progress == Progress::NotReached {
        before_step(t, rest, m)
    } else {
        (rest, m.with_after(t))
    }
}

/// The scan of all of `r`, from the state `m`.
pub open spec fn scan(r: Seq<Token>, m: ScanModel) -> ScanModel
    decreases r.len(),
{
    if r.len() == 0 {
        m
    } else {
        let (r1, m1) = scan_step(r, m);
        scan(r1, m1)
    }
}

/// The rank of a stage in the order `NotReached`, `Inside`, `Finished`.
pub open spec fn stage(p: Progress) -> int {
    match p {
        Progress::NotReached => 0,
        Progress::Inside => 1,
        Progress::Finished => 2,
    }
}

/// While the scan is inside the run, the next token is a `#`.
pub open spec fn inside_before_hash(r: Seq<Token>, m: ScanModel) -> bool {
    m.progress == Progress::Inside ==> r.len() > 0 && is_punct(r[0], '#')
}

/// A scan that has not started yet meets that condition.
pub proof fn lemma_initial_state_is_consistent(r: Seq<Token>, errors: Seq<Diag>)
    ensures
        inside_before_hash(r, initial_model(errors)),
{
}

/// One step never moves the scan back to an earlier stage, and leaves it
/// inside the run only where a `#` follows. With the initial state, this
/// shows by induction that a scan inside the run never meets a token other
/// than `#`, and that the stages only move forward.
pub proof fn lemma_step_moves_forward(r: Seq<Token>, m: ScanModel)
    requires
        r.len() > 0,
        inside_before_hash(r, m),
    ensures
        stage(scan_step(r, m).1.progress) >= stage(m.progress),
        inside_before_hash(scan_step(r, m).0, scan_step(r, m).1),
        scan_step(r, m).0.len() < r.len(),
{
}

/// A well-formed `[doc = "..."]` group yields its literal's value with at most
/// one leading space removed: exactly one when the value starts with a space,
/// none otherwise.
pub proof fn lemma_segment_strips_one_space(inner: Seq<Token>, open: Span, v: Seq<char>)
    requires
        inner.len() >= 3,
        is_doc_keyword(inner[0]),
        is_punct(inner[1], '='),
        token_string_value(inner[2]) == Some(v),
    ensures
        attribute_segment(inner, open) == Ok::<Seq<char>, Diag>(strip_one_space(v)),
        v.len() > 0 && v[0] == ' ' ==> strip_one_space(v) == v.drop_first(),
        v.len() > 0 && v[0] == ' ' && (v.len() == 1 || v[1] != ' ')
            ==> (strip_one_space(v).len() == 0 || strip_one_space(v)[0] != ' '),
        v.len() == 0 || v[0] != ' ' ==> strip_one_space(v) == v,
        v.len() > 1 && v[0] == ' ' && v[1] == ' ' ==> strip_one_space(v) == v.drop_first()
            && strip_one_space(v)[0] == ' ',
{
    lemma_strip_at_most_one_space(v);
}

/// A scan only adds errors: those it started with stay first, in order.
pub proof fn lemma_scan_keeps_errors(r: Seq<Token>, m: ScanModel)
    ensures
        scan(r, m).errors.len() >= m.errors.len(),
        scan(r, m).errors.take(m.errors.len() as int) == m.errors,
    decreases r.len(),
{
    if r.len() > 0 {
        let (r1, m1) = scan_step(r, m);
        assert(m1.errors.len() >= m.errors.len() && m1.errors.take(m.errors.len() as int) =~= m.errors);
        lemma_scan_keeps_errors(r1, m1);
        assert(scan(r, m).errors.take(m.errors.len() as int) =~= m.errors);
    } else {
        assert(m.errors.take(m.errors.len() as int) =~= m.errors);
    }
}

/// Reads the text of one bracket group `[doc = "..."]`.
pub fn parse_attribute(inner: &Vec<Token>, open: Span) -> (r: Result<String, CompileError>)
    ensures
        match r {
            Ok(s) => attribute_segment(inner@, open) == Ok::<Seq<char>, Diag>(s@),
            Err(e) => attribute_segment(inner@, open) == Err::<Seq<char>, Diag>(diag_of(e)),
        },
{
    if inner.len() == 0 {
        return Err(CompileError::new(open, "expected `doc` after `[`"));
    }
    let is_doc = match &inner[0] {
        Token::Ident { name, .. } => *name == String::from_str("doc"),
        _ => false,
    };
    if !is_doc {
        return Err(CompileError::new(inner[0].span(), "expected `doc`"));
    }
    if inner.len() == 1 {
        return Err(CompileError::new(inner[0].span(), "expected `=` after `doc`"));
    }
    if !inner[1].is_punct('=') {
        return Err(CompileError::new(inner[1].span(), "expected `=`"));
    }
    if inner.len() == 2 {
        return Err(CompileError::new(inner[1].span(), "expected string literal after `=`"));
    }
    match string_value(&inner[2]) {
        Some(v) => Ok(strip_leading_space(v)),
        None => Err(
            CompileError::new(inner[2].span(), "only string \"...\" or r\"...\" literals are supported"),
        ),
    }
}

/// Reads one attribute after its `#`, which stood at `hash`.
fn read_attribute(cur: &mut Cursor, st: &mut Scan, hash: Span)
    ensures
        (final(cur).rest(), final(st).model()) == attribute_step(old(cur).rest(), hash, old(st).model()),
        final(cur).rest().len() <= old(cur).rest().len(),
{
    st.progress = Progress::Inside;
    if cur.peek_is_punct('!') {
        match cur.next() {
            Some(bang) => st.add_error(
                bang.span(),
                "Inner doc comments `//! ...` are not supported. Please use `/// ...`",
            ),
            None => {},
        }
    }
    match cur.next() {
        None => {
            st.add_error(hash, "expected `#` to be followed by `[...]`");
            st.progress = Progress::Finished;
        },
        Some(g) => {
            let is_bracket = match &g {
                Token::Group { delimiter, .. } => *delimiter == Delimiter::Bracket,
                _ => false,
            };
            if is_bracket {
                match &g {
                    Token::Group { tokens, open, .. } => match parse_attribute(tokens, *open) {
                        Ok(s) => st.push_segment(s),
                        Err(e) => st.push_error(e),
                    },
                    _ => {},
                }
            } else {
                st.add_error(g.span(), "expected `[...]`");
            }
            st.progress = if cur.peek_is_punct('#') {
                Progress::Inside
            } else {
                Progress::Finished
            };
        },
    }
}

/// Takes `t`, an argument before the run, whose successors are in `cur`.
fn read_before(cur: &Cursor, st: &mut Scan, t: Token)
    ensures
        (cur.rest(), final(st).model()) == before_step(t, cur.rest(), old(st).model()),
{
    let is_comma = t.is_punct(',');
    let span = t.span();
    st.before.push(t);
    if !is_comma && cur.peek_is_punct('#') {
        st.add_error(span, "expected `,` after this");
        st.before.push(Token::comma());
    }
}

/// Scans every token left in `cur` into `st`.
pub fn scan_tokens(cur: &mut Cursor, st: &mut Scan)
    ensures
        final(cur).rest().len() == 0,
        final(st).model() == scan(old(cur).rest(), old(st).model()),
{
    let ghost goal = scan(cur.rest(), st.model());
    loop
        invariant
            scan(cur.rest(), st.model()) == goal,
            goal == scan(old(cur).rest(), old(st).model()),
        decreases cur.rest().len(),
    {
        let ghost r0 = cur.rest();
        let ghost m0 = st.model();
        match cur.next() {
            None => {
                return;
            },
            Some(t) => {
                if st.progress != Progress::Finished && t.is_punct('#') {
                    let span = t.span();
                    read_attribute(cur, st, span);
                } else if st.progress == Progress::NotReached {
                    read_before(cur, st, t);
                } else {
                    st.after.push(t);
                }
                assert((cur.rest(), st.model()) == scan_step(r0, m0));
            },
        }
    }
}

} // verus!
