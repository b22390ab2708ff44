use docstr::diag::CompileError;
use docstr::join::join_segments;
use docstr::literal::{string_value, strip_leading_space};
use docstr::scan::{scan_tokens, Progress, Scan};
use docstr::token::Cursor;
use docstr::{docstr, expand, Delimiter, Span, Token};

const AGE: u32 = 19;

fn ident(name: &str, n: u64) -> Token {
    Token::Ident { name: name.to_string(), span: Span::Site(n) }
}

fn punct(ch: char, n: u64) -> Token {
    Token::Punct { ch, joint: false, span: Span::Site(n) }
}

fn lit(text: &str, n: u64) -> Token {
    Token::Literal { text: text.to_string(), span: Span::Site(n) }
}

fn group(delimiter: Delimiter, tokens: Vec<Token>, n: u64) -> Token {
    Token::Group { delimiter, tokens, span: Span::Site(n), open: Span::Site(n + 1) }
}

/// `#[doc = <literal>]`, with the literal as the compiler writes it.
fn doc(literal: &str, n: u64) -> Vec<Token> {
    vec![
        punct('#', n),
        group(
            Delimiter::Bracket,
            vec![ident("doc", n + 2), punct('=', n + 3), lit(literal, n + 4)],
            n + 1,
        ),
    ]
}

fn docs(literals: &[&str], first: u64) -> Vec<Token> {
    let mut out = Vec::new();
    for (k, l) in literals.iter().enumerate() {
        out.extend(doc(l, first + 10 * k as u64));
    }
    out
}

fn str_out(value: &str) -> Token {
    Token::Str { value: value.to_string(), span: Span::CallSite }
}

fn comma_out() -> Token {
    Token::Punct { ch: ',', joint: true, span: Span::CallSite }
}

fn call_out(path: Vec<Token>, args: Vec<Token>) -> Vec<Token> {
    let mut out = path;
    out.push(Token::Group {
        delimiter: Delimiter::Parenthesis,
        tokens: args,
        span: Span::CallSite,
        open: Span::CallSite,
    });
    out
}

fn errors_of(input: Vec<Token>) -> Vec<(Span, String)> {
    match expand(input) {
        Ok(out) => panic!("expected errors, got {:?}", out),
        Err(es) => es.into_iter().map(|e: CompileError| (e.span, e.message)).collect(),
    }
}

fn literal_of(input: Vec<Token>) -> String {
    match expand(input) {
        Ok(out) => {
            assert_eq!(out.len(), 1);
            match &out[0] {
                Token::Str { value, span } => {
                    assert_eq!(*span, Span::CallSite);
                    value.clone()
                }
                other => panic!("expected a string literal, got {:?}", other),
            }
        }
        Err(es) => panic!(
            "unexpected errors: {:?}",
            es.into_iter().map(|e| e.message).collect::<Vec<_>>()
        ),
    }
}

/// The string argument of a call produced by `expand`.
fn call_text(out: &[Token]) -> String {
    match out.last() {
        Some(Token::Group { tokens, .. }) => tokens
            .iter()
            .find_map(|t| match t {
                Token::Str { value, .. } => Some(value.clone()),
                _ => None,
            })
            .expect("a string argument"),
        other => panic!("expected a call, got {:?}", other),
    }
}

#[test]
fn empty() {
    let a = literal_of(docs(&[r#"r"""#], 1));
    assert_eq!(a, "");
}

#[test]
fn constant() {
    let a = literal_of(docs(&[r#"r" foo""#, r#"r" bar""#], 1));
    assert_eq!(a, "foo\nbar", "join with newline");

    let b = literal_of(docs(&[r#"r" foo""#, r#"r" bar""#, r#"r"""#], 1));
    assert_eq!(b, "foo\nbar\n", "newline at end");
}

#[test]
fn format() {
    let mut input = vec![ident("format", 1), punct('!', 2)];
    input.extend(docs(&[r#"r" Hello, my name is {}""#, r#"r" and I am {AGE} years old""#], 10));
    input.push(lit("\"Bob\"", 100));
    let out = expand(input).ok().expect("an expansion");
    let expected = call_out(
        vec![ident("format", 1), punct('!', 2)],
        vec![
            str_out("Hello, my name is {}\nand I am {AGE} years old"),
            comma_out(),
            lit("\"Bob\"", 100),
        ],
    );
    assert_eq!(out, expected);
    let text = call_text(&out).replacen("{}", "Bob", 1).replace("{AGE}", &AGE.to_string());
    assert_eq!(text, format!("Hello, my name is Bob\nand I am {AGE} years old"));
}

#[test]
fn fake_interpolation() {
    assert_eq!(literal_of(docs(&[r#"r" I am {AGE} years old""#], 1)), "I am {AGE} years old");
}

#[test]
fn formatln() {
    let mut input = vec![ident("formatln", 1), punct('!', 2)];
    input.extend(docs(&[r#"r" Hello, my name is {}""#, r#"r" and I am {AGE} years old""#], 10));
    input.push(lit("\"Bob\"", 100));
    let out = expand(input).ok().expect("an expansion");
    assert_eq!(&out[..2], &[ident("formatln", 1), punct('!', 2)]);
    let text = call_text(&out).replacen("{}", "Bob", 1).replace("{AGE}", &AGE.to_string()) + "\n";
    assert_eq!(text, format!("Hello, my name is Bob\nand I am {AGE} years old\n"));
}

#[test]
fn writeln() {
    for _ in 0..2 {
        let mut input = vec![ident("writeln", 1), punct('!', 2), ident("s", 3), punct(',', 4)];
        input.extend(docs(&[r#"r" hello""#, r#"r" {}""#], 10));
        input.push(lit("\"world\"", 100));
        let out = expand(input).ok().expect("an expansion");
        let expected = call_out(
            vec![ident("writeln", 1), punct('!', 2)],
            vec![
                ident("s", 3),
                punct(',', 4),
                str_out("hello\n{}"),
                comma_out(),
                lit("\"world\"", 100),
            ],
        );
        assert_eq!(out, expected);
        let s = call_text(&out).replacen("{}", "world", 1) + "\n";
        assert_eq!(s, "hello\nworld\n");
    }
}

#[test]
fn escape() {
    let a = literal_of(docs(
        &[r###"r#" hello "world" ' \ ! ()"#"###, r#"r" ///\\/\// \u{0032}""#],
        1,
    ));
    assert_eq!(a, "hello \"world\" ' \\ ! ()\n///\\\\/\\// \\u{0032}");
}

#[test]
fn call_with_trailing_argument() {
    let mut input = vec![ident("format", 1), punct('!', 2)];
    input.extend(docs(&[r#"r" Hello, {}""#], 10));
    input.push(lit("\"world\"", 100));
    let out = expand(input).ok().expect("an expansion");
    let expected = call_out(
        vec![ident("format", 1), punct('!', 2)],
        vec![str_out("Hello, {}"), comma_out(), lit("\"world\"", 100)],
    );
    assert_eq!(out, expected);
}

#[test]
fn missing_separator_is_reported_and_recovered() {
    let mut input = vec![ident("writeln", 1), punct('!', 2), ident("s", 3)];
    input.extend(docs(&[r#"r" hello""#], 10));
    assert_eq!(
        errors_of(input),
        vec![(Span::Site(3), "expected `,` after this".to_string())]
    );

    let mut rest = vec![ident("s", 3)];
    rest.extend(docs(&[r#"r" hello""#], 10));
    let mut cur = Cursor::new(rest);
    let mut st = Scan::new(Vec::new());
    scan_tokens(&mut cur, &mut st);
    assert_eq!(st.before, vec![ident("s", 3), comma_out()]);
    assert_eq!(st.segments, vec!["hello".to_string()]);
    assert!(st.after.is_empty());
    assert_eq!(st.progress, Progress::Finished);
}

#[test]
fn no_comments_at_all() {
    let message = "expected at least one documentation comment `/// ...`".to_string();
    assert_eq!(
        errors_of(vec![ident("format", 1), punct('!', 2), lit("\"x\"", 3)]),
        vec![(Span::CallSite, message.clone())]
    );
    assert_eq!(errors_of(Vec::new()), vec![(Span::CallSite, message)]);
}

#[test]
fn bare_literal_with_other_tokens_fails() {
    let mut input = docs(&[r#"r" foo""#], 1);
    input.push(ident("extra", 50));
    let errs = errors_of(input);
    assert_eq!(errs.len(), 1);
    assert_eq!(errs[0].0, Span::CallSite);
    assert!(errs[0].1.starts_with("expected macro input to only contain doc comments"));
}

#[test]
fn two_identifiers_in_path() {
    let mut input = vec![ident("std", 1), punct(':', 2), punct(':', 3), ident("format", 4), ident("x", 5)];
    input.extend(docs(&[r#"r" foo""#], 10));
    let errs = errors_of(input);
    assert_eq!(errs[0].0, Span::Site(5));
    assert!(errs[0].1.contains("`std::format::x`"));
    assert!(errs[0].1.contains("`std::format! x`"));
}

#[test]
fn comma_instead_of_bang() {
    let mut input = vec![ident("format", 1), punct(',', 2)];
    input.extend(docs(&[r#"r" foo""#], 10));
    let errs = errors_of(input);
    assert_eq!(
        errs[0],
        (Span::Site(2), "replace with `!` to pass the macro: `format!`".to_string())
    );
}

#[test]
fn path_errors_point_at_the_right_place() {
    let expected = "expected path to macro like: `std::format!`\n\nnote: macro path is optional and can be omitted to produce a `&'static str`";
    let errs = errors_of(vec![ident("format", 1), lit("1", 2)]);
    assert_eq!(errs[0], (Span::Site(2), expected.to_string()));
    let errs = errors_of(vec![ident("format", 1)]);
    assert_eq!(errs[0], (Span::Site(1), expected.to_string()));
}

#[test]
fn attribute_shape_errors() {
    let inner = |tokens: Vec<Token>| {
        let mut input = vec![punct('#', 1), group(Delimiter::Bracket, tokens, 2)];
        input.extend(docs(&[r#"r" ok""#], 20));
        errors_of(input)
    };
    assert_eq!(inner(vec![]), vec![(Span::Site(3), "expected `doc` after `[`".to_string())]);
    assert_eq!(
        inner(vec![ident("cfg", 5)]),
        vec![(Span::Site(5), "expected `doc`".to_string())]
    );
    assert_eq!(
        inner(vec![ident("doc", 5)]),
        vec![(Span::Site(5), "expected `=` after `doc`".to_string())]
    );
    assert_eq!(
        inner(vec![ident("doc", 5), punct(':', 6)]),
        vec![(Span::Site(6), "expected `=`".to_string())]
    );
    assert_eq!(
        inner(vec![ident("doc", 5), punct('=', 6)]),
        vec![(Span::Site(6), "expected string literal after `=`".to_string())]
    );
    assert_eq!(
        inner(vec![ident("doc", 5), punct('=', 6), lit("42", 7)]),
        vec![(Span::Site(7), "only string \"...\" or r\"...\" literals are supported".to_string())]
    );
}

#[test]
fn inner_comments_and_missing_brackets() {
    let mut input = vec![punct('#', 1), punct('!', 2)];
    input.extend(docs(&[r#"r" ok""#], 10).into_iter().skip(1));
    let errs = errors_of(input);
    assert_eq!(errs.len(), 1);
    assert_eq!(errs[0].0, Span::Site(2));
    assert!(errs[0].1.starts_with("Inner doc comments"));

    let errs = errors_of(vec![punct('#', 1)]);
    assert_eq!(
        errs,
        vec![
            (Span::Site(1), "expected `#` to be followed by `[...]`".to_string()),
            (Span::CallSite, "expected at least one documentation comment `/// ...`".to_string()),
        ]
    );

    let mut input = vec![punct('#', 1), lit("\"x\"", 2)];
    input.extend(docs(&[r#"r" ok""#], 10));
    assert_eq!(errors_of(input), vec![(Span::Site(2), "expected `[...]`".to_string())]);
}

#[test]
fn several_errors_in_one_pass() {
    let mut input = vec![ident("format", 1), punct('!', 2), ident("a", 3)];
    input.extend(doc("42", 10));
    input.extend(doc(r#"r" fine""#, 20));
    let errs = errors_of(input);
    assert_eq!(errs.len(), 2);
    assert_eq!(errs[0].0, Span::Site(3));
    assert_eq!(errs[1].0, Span::Site(14));
}

#[test]
fn report_is_one_compile_error_per_diagnostic() {
    let out = docstr(vec![punct('#', 1)]);
    assert_eq!(out.len(), 6);
    assert_eq!(out[0], Token::Ident { name: "compile_error".to_string(), span: Span::Site(1) });
    assert_eq!(out[1], Token::Punct { ch: '!', joint: false, span: Span::Site(1) });
    assert_eq!(
        out[2],
        Token::Group {
            delimiter: Delimiter::Brace,
            tokens: vec![Token::Str {
                value: "expected `#` to be followed by `[...]`".to_string(),
                span: Span::Site(1)
            }],
            span: Span::Site(1),
            open: Span::Site(1),
        }
    );
    assert_eq!(out[3], Token::Ident { name: "compile_error".to_string(), span: Span::CallSite });
}

#[test]
fn docstr_passes_a_success_through() {
    assert_eq!(docstr(docs(&[r#"r" a""#], 1)), vec![str_out("a")]);
}

#[test]
fn join_then_split_gives_the_lines_back() {
    let lines = vec!["first".to_string(), String::new(), " third".to_string(), String::new()];
    let joined = join_segments(&lines);
    assert_eq!(joined, "first\n\n third\n");
    let back: Vec<String> = joined.split('\n').map(|s| s.to_string()).collect();
    assert_eq!(back, lines);
    assert_eq!(join_segments(&Vec::new()), "");
}

#[test]
fn at_most_one_space_is_stripped() {
    assert_eq!(strip_leading_space(" one".to_string()), "one");
    assert_eq!(strip_leading_space("none".to_string()), "none");
    assert_eq!(strip_leading_space("  two".to_string()), " two");
    assert_eq!(strip_leading_space(String::new()), "");
    assert_eq!(literal_of(docs(&[r#"r"   indented""#], 1)), "  indented");
}

#[test]
fn string_literals_are_decoded() {
    assert_eq!(string_value(&lit(r#""a\tb\"c""#, 1)), Some("a\tb\"c".to_string()));
    assert_eq!(string_value(&lit(r##"r#"x"y"#"##, 1)), Some("x\"y".to_string()));
    assert_eq!(string_value(&lit("'c'", 1)), None);
    assert_eq!(string_value(&lit("b\"x\"", 1)), None);
    assert_eq!(string_value(&ident("true", 1)), None);
    assert_eq!(literal_of(docs(&[r#"" escaped\u{41}""#], 1)), "escapedA");
}

#[test]
fn bare_literal_error_text() {
    let mut input = docs(&[r#"r" x""#], 1);
    input.push(str_out("y"));
    let out = docstr(input);
    assert_eq!(out.len(), 3);
    assert_eq!(
        out[2],
        Token::Group {
            delimiter: Delimiter::Brace,
            tokens: vec![str_out(
                "expected macro input to only contain doc comments `///`, because you haven't supplied a path to a macro as the 1st argument"
            )],
            span: Span::CallSite,
            open: Span::CallSite,
        }
    );
}

#[test]
fn two_identifiers_error_text() {
    let mut input = vec![ident("writeln", 1), ident("s", 2)];
    input.extend(docs(&[r#"r" hello""#], 10));
    let errs = errors_of(input);
    assert_eq!(
        errs,
        vec![(
            Span::Site(2),
            "2 identifiers in a row is not a valid macro path\n\ndid you mean one of:\n- `writeln::s`\n- `writeln! s`"
                .to_string()
        )]
    );
}

#[test]
fn comment_lines_split_back() {
    let values = [" first", "", "  second", "third", " "];
    let literals: Vec<String> = values.iter().map(|v| format!("r\"{}\"", v)).collect();
    let refs: Vec<&str> = literals.iter().map(|s| s.as_str()).collect();
    let text = literal_of(docs(&refs, 1));
    let back: Vec<&str> = text.split('\n').collect();
    assert_eq!(back, vec!["first", "", " second", "third", ""]);
}
