use jj_hunk::hunkset::error::HunksetError;
use jj_hunk::hunkset::lexer::{has_oversized_number, TokenKind, Tokenizer};
use jj_hunk::hunkset::parser::parse;
use jj_hunk::hunkset::{Arg, Expr, PatternKind, StringPattern};

fn kinds(t: &mut Tokenizer) -> Vec<TokenKind> {
    t.tokenize().unwrap().into_iter().map(|t| t.kind).collect()
}

fn parse_error(input: &str) -> (String, usize) {
    match parse(input).unwrap_err() {
        HunksetError::Parse { message, input: text, position } => {
            assert_eq!(text, input);
            (message, position)
        }
        other => panic!("expected a parse error, got {:?}", other),
    }
}

#[test]
fn parser_tokenize_simple_expression() {
    let mut t = Tokenizer::new("type(insert) & file(\"src/lib.rs\")");
    assert_eq!(
        kinds(&mut t),
        vec![
            TokenKind::Ident("type".into()),
            TokenKind::LParen,
            TokenKind::Ident("insert".into()),
            TokenKind::RParen,
            TokenKind::Ampersand,
            TokenKind::Ident("file".into()),
            TokenKind::LParen,
            TokenKind::Str("src/lib.rs".into()),
            TokenKind::RParen,
        ]
    );
}

#[test]
fn parser_tokenize_range() {
    let mut t = Tokenizer::new("lines(10..20)");
    assert_eq!(
        kinds(&mut t),
        vec![
            TokenKind::Ident("lines".into()),
            TokenKind::LParen,
            TokenKind::Number(10),
            TokenKind::DotDot,
            TokenKind::Number(20),
            TokenKind::RParen,
        ]
    );
}

#[test]
fn parser_tokenize_pattern_prefix() {
    let mut t = Tokenizer::new(r#"added(regex:"fn\s+")"#);
    assert_eq!(
        kinds(&mut t),
        vec![
            TokenKind::Ident("added".into()),
            TokenKind::LParen,
            TokenKind::Ident("regex".into()),
            TokenKind::Colon,
            TokenKind::Str(r"fn\s+".into()),
            TokenKind::RParen,
        ]
    );
}

#[test]
fn tokenize_string_escapes() {
    let mut t = Tokenizer::new(r#""hello\nworld""#);
    let tokens = t.tokenize().unwrap();
    assert_eq!(tokens.len(), 1);
    match &tokens[0].kind {
        TokenKind::Str(s) => assert_eq!(s, "hello\nworld"),
        _ => panic!("expected string"),
    }
}

#[test]
fn tokenize_records_positions() {
    let mut t = Tokenizer::new("  a | (b)");
    let positions: Vec<usize> = t.tokenize().unwrap().into_iter().map(|t| t.pos).collect();
    assert_eq!(positions, vec![2, 4, 6, 7, 8]);
}

#[test]
fn parser_parse_all_none() {
    assert_eq!(parse("all()").unwrap(), Expr::All);
    assert_eq!(parse("none()").unwrap(), Expr::Empty);
}

#[test]
fn parser_parse_simple_function() {
    let expr = parse("type(insert)").unwrap();
    assert_eq!(
        expr,
        Expr::Function(
            "type".into(),
            vec![Arg::Pattern(StringPattern { kind: PatternKind::Exact, value: "insert".into() })]
        )
    );
}

#[test]
fn parser_parse_union() {
    assert!(matches!(parse("type(insert) | type(delete)").unwrap(), Expr::Union(_, _)));
}

#[test]
fn parser_parse_intersection() {
    assert!(matches!(parse("type(insert) & file(\"src/lib.rs\")").unwrap(), Expr::Intersection(_, _)));
}

#[test]
fn parser_parse_negation() {
    assert!(matches!(parse("~type(delete)").unwrap(), Expr::Negation(_)));
}

#[test]
fn parser_parse_difference() {
    assert!(matches!(parse("all() ~ type(delete)").unwrap(), Expr::Difference(_, _)));
}

#[test]
fn parser_parse_precedence() {
    // a | b & c should parse as a | (b & c)
    match parse("type(insert) | type(replace) & file(\"x\")").unwrap() {
        Expr::Union(_, right) => assert!(matches!(*right, Expr::Intersection(_, _))),
        other => panic!("expected union, got {:?}", other),
    }
}

#[test]
fn parser_parse_parenthesized() {
    match parse("(type(insert) | type(replace)) & file(\"x\")").unwrap() {
        Expr::Intersection(left, _) => assert!(matches!(*left, Expr::Union(_, _))),
        other => panic!("expected intersection, got {:?}", other),
    }
}

#[test]
fn parser_parse_range_arg() {
    assert_eq!(parse("lines(10..20)").unwrap(), Expr::Function("lines".into(), vec![Arg::Range(10, 20)]));
}

#[test]
fn parser_parse_pattern_prefix() {
    assert_eq!(
        parse(r#"added(regex:"TODO")"#).unwrap(),
        Expr::Function(
            "added".into(),
            vec![Arg::Pattern(StringPattern { kind: PatternKind::Regex, value: "TODO".into() })]
        )
    );
}

#[test]
fn parser_parse_multiple_args() {
    match parse(r#"id("hunk-aabb", "hunk-ccdd")"#).unwrap() {
        Expr::Function(name, args) => {
            assert_eq!(name, "id");
            assert_eq!(args.len(), 2);
        }
        other => panic!("expected function, got {:?}", other),
    }
}

#[test]
fn parse_double_negation() {
    match parse("~~type(delete)").unwrap() {
        Expr::Negation(inner) => assert!(matches!(*inner, Expr::Negation(_))),
        other => panic!("expected double negation, got {:?}", other),
    }
}

#[test]
fn parse_error_shows_caret() {
    let err = parse("type(insert").unwrap_err();
    let display = err.display_with_context();
    assert!(display.contains("type(insert"));
    assert!(display.contains("^"));
}

#[test]
fn parse_errors_point_at_the_offending_token() {
    assert_eq!(parse_error(""), ("empty expression".to_string(), 0));
    assert_eq!(parse_error("type(insert"), ("expected RParen, got end of input".to_string(), 11));
    assert_eq!(parse_error("all() )"), ("unexpected RParen".to_string(), 6));
    assert_eq!(parse_error("foo bar"), ("expected '(' after 'foo'".to_string(), 4));
    assert_eq!(parse_error("| x"), ("expected function or '('".to_string(), 0));
    assert_eq!(parse_error("a(kind:x)"), ("unknown pattern kind 'kind'".to_string(), 6));
    assert_eq!(parse_error("a(1..x)"), ("expected number after '..'".to_string(), 6));
    assert_eq!(parse_error("a(glob:)"), ("expected string after 'glob:'".to_string(), 8));
    assert_eq!(parse_error("a(,)"), ("expected argument".to_string(), 2));
    assert_eq!(parse_error("a(x y)"), ("expected RParen, got Ident(\"y\")".to_string(), 4));
}

#[test]
fn tokenizer_errors_report_their_position() {
    assert_eq!(parse_error("a(1 . 2)"), ("unexpected '.' at position 4".to_string(), 4));
    assert_eq!(parse_error("a ! b"), ("unexpected character '!' at position 2".to_string(), 2));
    assert_eq!(parse_error("a(\"x"), ("unterminated string literal".to_string(), 0));
    assert_eq!(
        parse_error("lines(99999999999999999999999)"),
        ("number too large at position 6".to_string(), 6)
    );
}

#[test]
fn difference_does_not_chain() {
    assert!(parse("a() ~ b() ~ c()").is_err());
    assert!(matches!(parse("(a() ~ b()) ~ c()").unwrap(), Expr::Difference(_, _)));
}

#[test]
fn bare_all_and_none_need_no_parentheses() {
    assert_eq!(parse("all").unwrap(), Expr::All);
    assert_eq!(parse("none").unwrap(), Expr::Empty);
    assert_eq!(
        parse("depth(3)").unwrap(),
        Expr::Function(
            "depth".into(),
            vec![Arg::Pattern(StringPattern { kind: PatternKind::Exact, value: "3".into() })]
        )
    );
}

#[test]
fn display_with_context_lays_out_caret() {
    let err = parse("a ! b").unwrap_err();
    assert_eq!(err.display_with_context(), "a ! b\n  ^\nunexpected character '!' at position 2");
    let err = HunksetError::UnknownFunction { name: "functon".into() };
    assert_eq!(err.display_with_context(), "unknown function 'functon'");
    let err = HunksetError::SemanticFeatureRequired { name: "scope".into() };
    assert_eq!(err.display_with_context(), "scope() requires the 'semantic' feature (build with --features semantic)");
}

#[test]
fn oversized_numbers_are_detected() {
    assert!(has_oversized_number("lines(99999999999999999999999..3)"));
    assert!(!has_oversized_number("lines(10..20)"));
    assert!(!has_oversized_number("\"unterminated"));
    assert!(!has_oversized_number("a ! 99999999999999999999999"));
}
