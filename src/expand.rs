//! The whole expansion: call target, comment run, and the output tokens.

use vstd::prelude::*;
use crate::diag::{CompileError, Diag, diags_of, is_report, is_str_at, report};
use crate::join::{join_lines, join_segments};
use crate::join::{lemma_join_split_round_trip, no_line_breaks, split_lines};
use crate::literal::{strip_one_space, token_string_value};
use crate::scan::{
    Progress, Scan, ScanModel, initial_model, is_doc_keyword, lemma_scan_keeps_errors,
    lemma_segment_strips_one_space, scan, scan_step, scan_tokens,
};
use crate::target::{render_path, token_text, two_idents_message};
use crate::target::{path_scan, path_view, scan_path};
use crate::token::{Cursor, Delimiter, Span, Token, comma, is_punct, span_of};

verus! {

/// What stands before the comment run.
pub enum TargetModel {
    /// No call target: the input starts with the run.
    Absent,
    /// The path of the call, up to and including its `!`.
    Path(Seq<Token>),
    /// A call target was begun and is malformed.
    Invalid,
}

/// Reading the call target from the non-empty `input`: the tokens after it,
/// what it is, and the error in it, if any.
pub open spec fn read_target(input: Seq<Token>) -> (Seq<Token>, TargetModel, Seq<Diag>) {
    if input.len() > 0 && is_punct(input[0], '#') {
        (input, TargetModel::Absent, Seq::empty())
    } else {
        let (rest, res) = path_scan(input, Seq::empty(), false);
        match res {
            Ok(p) => (rest, TargetModel::Path(p), Seq::empty()),
            Err(d) => (rest, TargetModel::Invalid, seq![d]),
        }
    }
}

/// The scan of what follows the call target.
pub open spec fn scan_input(input: Seq<Token>) -> ScanModel {
    let (rest, _, errors) = read_target(input);
    scan(rest, initial_model(errors))
}

/// The error for an input without any documentation comment.
pub open spec fn no_docs_error() -> Diag {
    (Span::CallSite, "expected at least one documentation comment `/// ...`"@)
}

/// The error for other tokens beside the comments when there is no call target.
pub open spec fn only_docs_error() -> Diag {
    (
        Span::CallSite,
        "expected macro input to only contain doc comments `///`, because you haven't supplied a path to a macro as the 1st argument"@,
    )
}

/// Every error of the expansion of `input`, in the order they are found.
pub open spec fn expansion_errors(input: Seq<Token>) -> Seq<Diag> {
    if input.len() == 0 {
        seq![no_docs_error()]
    } else {
        let target = read_target(input).1;
        let m = scan_input(input);
        let e1 = if m.segments.len() == 0 {
            m.errors.push(no_docs_error())
        } else {
            m.errors
        };
        if target is Absent && (m.before.len() > 0 || m.after.len() > 0) {
            e1.push(only_docs_error())
        } else {
            e1
        }
    }
}

/// `args` is `before`, the literal `text`, a `,`, then `after`.
pub open spec fn is_argument_list(args: Seq<Token>, before: Seq<Token>, text: Seq<char>, after: Seq<Token>) -> bool {
    &&& args.len() == before.len() + 2 + after.len()
    &&& args.take(before.len() as int) == before
    &&& is_str_at(args[before.len() as int], text, Span::CallSite)
    &&& args[before.len() + 1int] == comma()
    &&& args.skip(before.len() + 2int) == after
}

/// `out` is `path(before, "text", after)`, the parentheses at the call site.
pub open spec fn is_call(out: Seq<Token>, path: Seq<Token>, before: Seq<Token>, text: Seq<char>, after: Seq<Token>) -> bool {
    &&& out.len() == path.len() + 1
    &&& out.take(path.len() as int) == path
    &&& out.last() matches Token::Group { delimiter, tokens, span, open }
        && delimiter == Delimiter::Parenthesis && span == Span::CallSite && open == Span::CallSite
        && is_argument_list(tokens@, before, text, after)
}

/// `out` is the successful expansion of `input`: the joined comment text as a
/// literal, or passed to the call target among the other arguments.
pub open spec fn is_expansion(out: Seq<Token>, input: Seq<Token>) -> bool {
    let m = scan_input(input);
    let text = join_lines(m.segments);
    match read_target(input).1 {
        TargetModel::Absent => out.len() == 1 && is_str_at(out[0], text, Span::CallSite),
        TargetModel::Path(p) => is_call(out, p, m.before, text, m.after),
        TargetModel::Invalid => false,
    }
}

/// Without a call target, any token before or after the comment run makes
/// the expansion fail: its last error says that only comments may be given.
pub proof fn lemma_bare_literal_needs_only_comments(input: Seq<Token>)
    requires
        input.len() > 0,
        is_punct(input[0], '#'),
        scan_input(input).before.len() > 0 || scan_input(input).after.len() > 0,
    ensures
        expansion_errors(input).len() > 0,
        expansion_errors(input).last() == only_docs_error(),
{
}

/// `a` occurs in `b` as a contiguous piece.
pub open spec fn is_infix(a: Seq<char>, b: Seq<char>) -> bool {
    exists|i: int| 0 <= i && i + a.len() <= b.len() && #[trigger] b.subrange(i, i + a.len()) == a
}

proof fn lemma_path_scan_to_second_ident(input: Seq<Token>, j: int, k: int)
    requires
        1 <= j < input.len(),
        0 <= k <= j,
        input[j - 1] is Ident,
        input[j] is Ident,
        forall|m: int| 0 <= m < j ==> (#[trigger] input[m] is Ident || is_punct(input[m], ':')),
        forall|m: int| 1 <= m < j ==> !(input[m - 1] is Ident && #[trigger] input[m] is Ident),
    ensures
        path_scan(input.skip(k), input.take(k), k > 0 && input[k - 1] is Ident) == (
            input.skip(j + 1),
            Err::<Seq<Token>, Diag>(
                (span_of(input[j]), two_idents_message(render_path(input.take(j)), token_text(input[j]))),
            ),
        ),
    decreases j - k,
{
    let r = input.skip(k);
    assert(r[0] == input[k]);
    assert(r.drop_first() =~= input.skip(k + 1));
    assert(input.take(k).push(input[k]) =~= input.take(k + 1));
    if k < j {
        lemma_path_scan_to_second_ident(input, j, k + 1);
    }
}

/// A call-target path with two identifiers in a row fails, and its first
/// error, placed at the second identifier, proposes both `path::ident` and
/// `path! ident`.
pub proof fn lemma_two_identifiers_in_path(input: Seq<Token>, j: int)
    requires
        1 <= j < input.len(),
        input[j - 1] is Ident,
        input[j] is Ident,
        forall|m: int| 0 <= m < j ==> (#[trigger] input[m] is Ident || is_punct(input[m], ':')),
        forall|m: int| 1 <= m < j ==> !(input[m - 1] is Ident && #[trigger] input[m] is Ident),
    ensures
        expansion_errors(input).len() > 0,
        expansion_errors(input)[0] == (
            span_of(input[j]),
            two_idents_message(render_path(input.take(j)), token_text(input[j])),
        ),
        is_infix(
            render_path(input.take(j)) + "::"@ + token_text(input[j]),
            expansion_errors(input)[0].1,
        ),
        is_infix(
            render_path(input.take(j)) + "! "@ + token_text(input[j]),
            expansion_errors(input)[0].1,
        ),
{
    lemma_path_scan_to_second_ident(input, j, 0);
    assert(input.skip(0) =~= input);
    assert(input.take(0) =~= Seq::<Token>::empty());
    assert(!is_punct(input[0], '#')) by {
        assert(input[0] is Ident || is_punct(input[0], ':'));
    }
    let d = (span_of(input[j]), two_idents_message(render_path(input.take(j)), token_text(input[j])));
    let (rest, target, e0) = read_target(input);
    assert(e0 == seq![d]);
    lemma_scan_keeps_errors(rest, initial_model(e0));
    let m = scan_input(input);
    assert(m.errors.take(1) == e0);
    assert(m.errors[0] == m.errors.take(1)[0]);
    assert(m.errors[0] == d);
    let p = render_path(input.take(j));
    let id = token_text(input[j]);
    let a = "2 identifiers in a row is not a valid macro path\n\ndid you mean one of:\n- `"@;
    let b = "`\n- `"@;
    let msg = d.1;
    let x = p + "::"@ + id;
    let y = p + "! "@ + id;
    assert(msg =~= a + x + b + y + "`"@);
    let i1: int = a.len() as int;
    let i2: int = (a.len() + x.len() + b.len()) as int;
    assert(msg.subrange(i1, i1 + x.len()) =~= x);
    assert(msg.subrange(i2, i2 + y.len()) =~= y);
}

/// No token of `r` is a `#`.
pub open spec fn has_no_hash(r: Seq<Token>) -> bool {
    forall|i: int| 0 <= i < r.len() ==> !is_punct(#[trigger] r[i], '#')
}

proof fn lemma_path_scan_keeps_no_hash(r: Seq<Token>, path: Seq<Token>, last_ident: bool)
    requires
        has_no_hash(r),
    ensures
        has_no_hash(path_scan(r, path, last_ident).0),
    decreases r.len(),
{
    if r.len() > 0 {
        assert(has_no_hash(r.drop_first())) by {
            assert forall|i: int| 0 <= i < r.drop_first().len()
                implies !is_punct(#[trigger] r.drop_first()[i], '#') by {
                assert(r.drop_first()[i] == r[i + 1]);
            }
        }
        let t = r[0];
        if !is_punct(t, '!') {
            if is_punct(t, ':') {
                lemma_path_scan_keeps_no_hash(r.drop_first(), path.push(t), false);
            } else if t is Ident && !last_ident {
                lemma_path_scan_keeps_no_hash(r.drop_first(), path.push(t), true);
            }
        }
    }
}

proof fn lemma_scan_without_hash_adds_no_segment(r: Seq<Token>, m: ScanModel)
    requires
        has_no_hash(r),
    ensures
        scan(r, m).segments == m.segments,
    decreases r.len(),
{
    if r.len() > 0 {
        assert(has_no_hash(r.drop_first())) by {
            assert forall|i: int| 0 <= i < r.drop_first().len()
                implies !is_punct(#[trigger] r.drop_first()[i], '#') by {
                assert(r.drop_first()[i] == r[i + 1]);
            }
        }
        assert(!is_punct(r[0], '#'));
        let (r1, m1) = scan_step(r, m);
        lemma_scan_without_hash_adds_no_segment(r1, m1);
    }
}

/// An input without any `#`, and so without any documentation comment,
/// fails, and its last error says that a documentation comment is expected;
/// the empty input has that error alone.
pub proof fn lemma_no_comment_fails(input: Seq<Token>)
    requires
        has_no_hash(input),
    ensures
        expansion_errors(input).len() > 0,
        expansion_errors(input).last() == no_docs_error(),
        input.len() == 0 ==> expansion_errors(input) == seq![no_docs_error()],
{
    if input.len() > 0 {
        assert(!is_punct(input[0], '#'));
        lemma_path_scan_keeps_no_hash(input, Seq::empty(), false);
        let (rest, target, e0) = read_target(input);
        lemma_scan_without_hash_adds_no_segment(rest, initial_model(e0));
        assert(!(target is Absent));
    }
}

/// `h g` is `#[doc = v]`: a `#`, then a bracket group that starts with
/// `doc = ` and a string literal whose value is `v`.
pub open spec fn is_doc_attribute(h: Token, g: Token, v: Seq<char>) -> bool {
    &&& is_punct(h, '#')
    &&& g is Group
    &&& g->delimiter == Delimiter::Bracket
    &&& g->tokens@.len() >= 3
    &&& is_doc_keyword(g->tokens@[0])
    &&& is_punct(g->tokens@[1], '=')
    &&& token_string_value(g->tokens@[2]) == Some(v)
}

/// `input` is `#[doc = vals[0]] ... #[doc = vals[n - 1]]` and nothing else.
pub open spec fn is_doc_run(input: Seq<Token>, vals: Seq<Seq<char>>) -> bool {
    &&& input.len() == 2 * vals.len()
    &&& forall|k: int| 0 <= k < vals.len() ==> is_doc_attribute(input[2 * k], input[2 * k + 1], #[trigger] vals[k])
}

/// Each value with one leading space removed.
pub open spec fn stripped(vals: Seq<Seq<char>>) -> Seq<Seq<char>> {
    Seq::new(vals.len(), |i: int| strip_one_space(vals[i]))
}

/// The scan of a comment run after its first `k` attributes.
pub open spec fn run_model(vals: Seq<Seq<char>>, k: int) -> ScanModel {
    ScanModel {
        progress: if k == 0 {
            Progress::NotReached
        } else if k < vals.len() {
            Progress::Inside
        } else {
            Progress::Finished
        },
        before: Seq::empty(),
        segments: stripped(vals.take(k)),
        after: Seq::empty(),
        errors: Seq::empty(),
    }
}

proof fn lemma_scan_doc_run(input: Seq<Token>, vals: Seq<Seq<char>>, k: int)
    requires
        vals.len() >= 1,
        is_doc_run(input, vals),
        0 <= k <= vals.len(),
    ensures
        scan(input.skip(2 * k), run_model(vals, k)) == run_model(vals, vals.len() as int),
    decreases vals.len() - k,
{
    let n = vals.len() as int;
    let r = input.skip(2 * k);
    if k == n {
        assert(r.len() == 0);
    } else {
        assert(is_doc_attribute(input[2 * k], input[2 * k + 1], vals[k]));
        assert(r[0] == input[2 * k]);
        let rest = r.drop_first();
        assert(rest[0] == input[2 * k + 1]);
        let g = input[2 * k + 1];
        let r3 = rest.drop_first();
        assert(r3 =~= input.skip(2 * (k + 1)));
        lemma_segment_strips_one_space(g->tokens@, g->open, vals[k]);
        if k + 1 < n {
            assert(is_doc_attribute(input[2 * (k + 1)], input[2 * (k + 1) + 1], vals[k + 1]));
            assert(r3[0] == input[2 * (k + 1)]);
        }
        assert(stripped(vals.take(k)).push(strip_one_space(vals[k])) =~= stripped(vals.take(k + 1)));
        assert(scan_step(r, run_model(vals, k)) == (r3, run_model(vals, k + 1)));
        lemma_scan_doc_run(input, vals, k + 1);
    }
}

/// For a run of documentation comments alone, whose values hold no line
/// break, the expansion succeeds with the bare literal, and splitting its text
/// at the line breaks gives back each value with one leading space removed,
/// empty values included.
pub proof fn lemma_comment_lines_round_trip(input: Seq<Token>, vals: Seq<Seq<char>>)
    requires
        vals.len() >= 1,
        is_doc_run(input, vals),
        no_line_breaks(vals),
    ensures
        expansion_errors(input).len() == 0,
        read_target(input).1 == TargetModel::Absent,
        scan_input(input).segments == stripped(vals),
        split_lines(join_lines(scan_input(input).segments)) == stripped(vals),
{
    assert(is_doc_attribute(input[0], input[1], vals[0]));
    assert(input.skip(0) =~= input);
    assert(stripped(vals.take(0)) =~= Seq::<Seq<char>>::empty());
    assert(run_model(vals, 0) == initial_model(Seq::empty()));
    lemma_scan_doc_run(input, vals, 0);
    assert(vals.take(vals.len() as int) =~= vals);
    let st = stripped(vals);
    assert(no_line_breaks(st)) by {
        assert forall|k: int, j: int| 0 <= k < st.len() && 0 <= j < st[k].len()
            implies st[k][j] != '\n' by {
            let v = vals[k];
            if v.len() > 0 && v[0] == ' ' {
                assert(st[k][j] == v[j + 1]);
            } else {
                assert(st[k][j] == v[j]);
            }
        }
    }
    lemma_join_split_round_trip(st);
}

/// Expands `input`: the output tokens when no error is found, else every error.
pub fn expand(input: Vec<Token>) -> (r: Result<Vec<Token>, Vec<CompileError>>)
    ensures
        match r {
            Ok(out) => expansion_errors(input@).len() == 0 && is_expansion(out@, input@),
            Err(es) => expansion_errors(input@).len() > 0 && diags_of(es@) == expansion_errors(input@),
        },
{
    if input.len() == 0 {
        let mut es: Vec<CompileError> = Vec::new();
        es.push(CompileError::new(Span::CallSite, "expected at least one documentation comment `/// ...`"));
        assert(diags_of(es@) =~= expansion_errors(input@));
        return Err(es);
    }
    let ghost all = input@;
    let mut cur = Cursor::new(input);
    let absent = cur.peek_is_punct('#');
    let mut path: Vec<Token> = Vec::new();
    let mut errors: Vec<CompileError> = Vec::new();
    if !absent {
        let res = scan_path(&mut cur);
        match res {
            Ok(p) => {
                assert(read_target(all).1 == TargetModel::Path(p@));
                path = p;
            },
            Err(e) => {
                errors.push(e);
                assert(read_target(all).1 == TargetModel::Invalid);
            },
        }
    }
    let ghost p0 = path@;
    let ghost target = read_target(all);
    assert(cur.rest() == target.0);
    assert(diags_of(errors@) =~= target.2);
    let mut st = Scan::new(errors);
    proof {
        lemma_scan_keeps_errors(cur.rest(), st.model());
    }
    scan_tokens(&mut cur, &mut st);
    let ghost m = st.model();
    assert(m == scan_input(all));
    assert(target.1 is Invalid ==> m.errors.len() > 0);
    if st.segments.len() == 0 {
        st.add_error(Span::CallSite, "expected at least one documentation comment `/// ...`");
    }
    assert(diags_of(st.errors@).len() == st.errors@.len());
    assert(target.1 is Invalid ==> st.errors.len() > 0);
    let text = join_segments(&st.segments);
    if absent {
        if st.before.len() > 0 || st.after.len() > 0 {
            st.add_error(
                Span::CallSite,
                "expected macro input to only contain doc comments `///`, because you haven't supplied a path to a macro as the 1st argument",
            );
        }
        if st.errors.len() > 0 {
            return Err(st.errors);
        }
        let mut out: Vec<Token> = Vec::new();
        out.push(Token::Str { value: text, span: Span::CallSite });
        return Ok(out);
    }
    if st.errors.len() > 0 {
        return Err(st.errors);
    }
    assert(target.1 == TargetModel::Path(p0));
    assert(expansion_errors(all).len() == 0);
    let ghost text_model = text@;
    assert(text_model == join_lines(m.segments));
    let Scan { before, after, .. } = st;
    let mut args = before;
    let mut after = after;
    args.push(Token::Str { value: text, span: Span::CallSite });
    args.push(Token::comma());
    args.append(&mut after);
    let ghost args_model = args@;
    path.push(Token::Group {
        delimiter: Delimiter::Parenthesis,
        tokens: args,
        span: Span::CallSite,
        open: Span::CallSite,
    });
    assert(args_model.take(m.before.len() as int) =~= m.before);
    assert(args_model.skip(m.before.len() + 2int) =~= m.after);
    assert(is_argument_list(args_model, m.before, text_model, m.after));
    assert(path@.take(p0.len() as int) =~= p0);
    assert(is_call(path@, p0, m.before, text_model, m.after));
    Ok(path)
}

/// Expands `input` into its output tokens, or into one
/// `compile_error! { "..." }` for each error found.
pub fn docstr(input: Vec<Token>) -> (r: Vec<Token>)
    ensures
        expansion_errors(input@).len() == 0 ==> is_expansion(r@, input@),
        expansion_errors(input@).len() > 0 ==> is_report(r@, expansion_errors(input@)),
{
    match expand(input) {
        Ok(out) => out,
        Err(es) => report(es),
    }
}

} // verus!
