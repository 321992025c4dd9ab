use jj_hunk::diff::{Hunk, LineRange, SemanticInfo};
use jj_hunk::glob::glob_match;
use jj_hunk::hunkset::lexer::{TokenKind, Tokenizer};
use jj_hunk::hunkset::{evaluate, is_hunkset, parse, to_spec, Arg, EnrichedHunk, Expr, PatternKind, StringPattern};
use jj_hunk::spec::{DefaultAction, FileSpec, HunkSelector};
use std::collections::HashSet;

fn kinds(t: &mut Tokenizer) -> Vec<TokenKind> {
    t.tokenize().unwrap().into_iter().map(|t| t.kind).collect()
}

fn make_hunk(index: usize, hunk_type: &str, removed: &str, added: &str) -> Hunk {
    Hunk {
        index,
        id: format!("hunk-{:064x}", index),
        hunk_type: hunk_type.to_string(),
        removed: removed.to_string(),
        added: added.to_string(),
        before_range: LineRange {
            start: index * 10 + 1,
            length: if removed.is_empty() { 0 } else { removed.lines().count() },
        },
        after_range: LineRange {
            start: index * 10 + 1,
            length: if added.is_empty() { 0 } else { added.lines().count() },
        },
        context: None,
        semantic: SemanticInfo::default(),
    }
}

fn enrich<'a>(path: &'a str, status: &'a str, hunk: &'a Hunk) -> EnrichedHunk<'a> {
    EnrichedHunk {
        file_path: path,
        file_status: status,
        hunk,
        enclosing_function: None,
        enclosing_scope: None,
    }
}

// -- tokenizer tests --

#[test]
fn hunkset_tokenize_simple_expression() {
    let mut t = Tokenizer::new("type(insert) & file(\"src/lib.rs\")");
    assert_eq!(
        kinds(&mut t),
        vec![
            TokenKind::Ident("type".into()),
            TokenKind::LParen,
            TokenKind::Ident("insert".into()),
            TokenKind::RParen,
            TokenKind::Ampersand,
            TokenKind::Ident("file".into()),
            TokenKind::LParen,
            TokenKind::Str("src/lib.rs".into()),
            TokenKind::RParen,
        ]
    );
}

#[test]
fn hunkset_tokenize_range() {
    let mut t = Tokenizer::new("lines(10..20)");
    assert_eq!(
        kinds(&mut t),
        vec![
            TokenKind::Ident("lines".into()),
            TokenKind::LParen,
            TokenKind::Number(10),
            TokenKind::DotDot,
            TokenKind::Number(20),
            TokenKind::RParen,
        ]
    );
}

#[test]
fn hunkset_tokenize_pattern_prefix() {
    let mut t = Tokenizer::new(r#"added(regex:"fn\s+")"#);
    assert_eq!(
        kinds(&mut t),
        vec![
            TokenKind::Ident("added".into()),
            TokenKind::LParen,
            TokenKind::Ident("regex".into()),
            TokenKind::Colon,
            TokenKind::Str(r"fn\s+".into()),
            TokenKind::RParen,
        ]
    );
}

// -- parser tests --

#[test]
fn hunkset_parse_all_none() {
    assert_eq!(parse("all()").unwrap(), Expr::All);
    assert_eq!(parse("none()").unwrap(), Expr::Empty);
}

#[test]
fn hunkset_parse_simple_function() {
    let expr = parse("type(insert)").unwrap();
    assert_eq!(
        expr,
        Expr::Function(
            "type".into(),
            vec![Arg::Pattern(StringPattern { kind: PatternKind::Exact, value: "insert".into() })]
        )
    );
}

#[test]
fn hunkset_parse_union() {
    let expr = parse("type(insert) | type(delete)").unwrap();
    match expr {
        Expr::Union(_, _) => {}
        _ => panic!("expected union, got {:?}", expr),
    }
}

#[test]
fn hunkset_parse_intersection() {
    let expr = parse("type(insert) & file(\"src/lib.rs\")").unwrap();
    match expr {
        Expr::Intersection(_, _) => {}
        _ => panic!("expected intersection, got {:?}", expr),
    }
}

#[test]
fn hunkset_parse_negation() {
    let expr = parse("~type(delete)").unwrap();
    match expr {
        Expr::Negation(_) => {}
        _ => panic!("expected negation, got {:?}", expr),
    }
}

#[test]
fn hunkset_parse_difference() {
    let expr = parse("all() ~ type(delete)").unwrap();
    match expr {
        Expr::Difference(_, _) => {}
        _ => panic!("expected difference, got {:?}", expr),
    }
}

#[test]
fn hunkset_parse_precedence() {
    // a | b & c should parse as a | (b & c)
    let expr = parse("type(insert) | type(replace) & file(\"x\")").unwrap();
    match expr {
        Expr::Union(_, right) => match *right {
            Expr::Intersection(_, _) => {}
            _ => panic!("expected intersection on right of union"),
        },
        _ => panic!("expected union at top level"),
    }
}

#[test]
fn hunkset_parse_parenthesized() {
    let expr = parse("(type(insert) | type(replace)) & file(\"x\")").unwrap();
    match expr {
        Expr::Intersection(left, _) => match *left {
            Expr::Union(_, _) => {}
            _ => panic!("expected union inside parens"),
        },
        _ => panic!("expected intersection at top level"),
    }
}

#[test]
fn hunkset_parse_range_arg() {
    let expr = parse("lines(10..20)").unwrap();
    assert_eq!(expr, Expr::Function("lines".into(), vec![Arg::Range(10, 20)]));
}

#[test]
fn hunkset_parse_pattern_prefix() {
    let expr = parse(r#"added(regex:"TODO")"#).unwrap();
    assert_eq!(
        expr,
        Expr::Function(
            "added".into(),
            vec![Arg::Pattern(StringPattern { kind: PatternKind::Regex, value: "TODO".into() })]
        )
    );
}

#[test]
fn hunkset_parse_multiple_args() {
    let expr = parse(r#"id("hunk-aabb", "hunk-ccdd")"#).unwrap();
    match expr {
        Expr::Function(name, args) => {
            assert_eq!(name, "id");
            assert_eq!(args.len(), 2);
        }
        _ => panic!("expected function"),
    }
}

#[test]
fn legacy_parse_errors_name_what_was_found() {
    assert_eq!(parse("").unwrap_err(), "empty hunkset expression");
    assert_eq!(parse("type(").unwrap_err(), "expected argument, got None");
    assert_eq!(parse("type(insert").unwrap_err(), "expected RParen, got end of input");
    assert_eq!(parse("foo bar").unwrap_err(), "expected '(' after function name 'foo'");
    assert_eq!(parse("all() )").unwrap_err(), "unexpected token RParen");
    assert_eq!(parse("| x").unwrap_err(), "expected function or '(', got Some(Pipe)");
    assert_eq!(parse("a(kind:x)").unwrap_err(), "unknown pattern kind 'kind'");
    assert_eq!(parse("a(1..x)").unwrap_err(), "expected number after '..', got Some(Ident(\"x\"))");
    assert_eq!(parse("a(1 . 2)").unwrap_err(), "unexpected '.' at position 4");
    assert_eq!(parse("a(\"x").unwrap_err(), "unterminated string literal");
}

#[test]
fn legacy_negation_takes_an_atom() {
    assert!(parse("~~type(delete)").is_err());
    match parse("~(~type(delete))").unwrap() {
        Expr::Negation(inner) => assert!(matches!(*inner, Expr::Negation(_))),
        other => panic!("expected negation, got {:?}", other),
    }
}

// -- evaluator tests --

#[test]
fn hunkset_eval_type_filter() {
    let hunks_data = vec![
        make_hunk(0, "insert", "", "new line\n"),
        make_hunk(1, "delete", "old line\n", ""),
        make_hunk(2, "replace", "before\n", "after\n"),
    ];
    let enriched: Vec<EnrichedHunk> = hunks_data.iter().map(|h| enrich("src/lib.rs", "modified", h)).collect();

    let expr = parse("type(insert)").unwrap();
    assert_eq!(evaluate(&expr, &enriched), HashSet::from([0]));

    let expr = parse("type(insert) | type(delete)").unwrap();
    assert_eq!(evaluate(&expr, &enriched), HashSet::from([0, 1]));
}

#[test]
fn hunkset_eval_file_filter() {
    let h1 = make_hunk(0, "insert", "", "x\n");
    let h2 = make_hunk(1, "insert", "", "y\n");
    let enriched = vec![enrich("src/lib.rs", "modified", &h1), enrich("tests/test.rs", "added", &h2)];

    let expr = parse(r#"file("src/lib.rs")"#).unwrap();
    assert_eq!(evaluate(&expr, &enriched), HashSet::from([0]));
}

#[test]
fn hunkset_eval_glob_filter() {
    let h1 = make_hunk(0, "insert", "", "x\n");
    let h2 = make_hunk(1, "insert", "", "y\n");
    let enriched = vec![enrich("src/lib.rs", "modified", &h1), enrich("tests/test.rs", "added", &h2)];

    let expr = parse(r#"glob("src/**/*.rs")"#).unwrap();
    assert_eq!(evaluate(&expr, &enriched), HashSet::from([0]));
}

#[test]
fn hunkset_eval_content_filter() {
    let h1 = make_hunk(0, "insert", "", "TODO: fix this\n");
    let h2 = make_hunk(1, "replace", "old code\n", "new code\n");
    let enriched = vec![enrich("a.rs", "modified", &h1), enrich("b.rs", "modified", &h2)];

    let expr = parse(r#"added("TODO")"#).unwrap();
    assert_eq!(evaluate(&expr, &enriched), HashSet::from([0]));

    let expr = parse(r#"removed("old")"#).unwrap();
    assert_eq!(evaluate(&expr, &enriched), HashSet::from([1]));
}

#[test]
fn hunkset_eval_intersection_and_difference() {
    let h1 = make_hunk(0, "insert", "", "new\n");
    let h2 = make_hunk(1, "insert", "", "also new\n");
    let h3 = make_hunk(2, "delete", "gone\n", "");
    let enriched = vec![
        enrich("src/a.rs", "modified", &h1),
        enrich("src/b.rs", "modified", &h2),
        enrich("tests/c.rs", "modified", &h3),
    ];

    // insertions in src/
    let expr = parse(r#"type(insert) & glob("src/**")"#).unwrap();
    assert_eq!(evaluate(&expr, &enriched), HashSet::from([0, 1]));

    // everything except deletions
    let expr = parse("all() ~ type(delete)").unwrap();
    assert_eq!(evaluate(&expr, &enriched), HashSet::from([0, 1]));
}

#[test]
fn hunkset_eval_lines_filter() {
    let mut h1 = make_hunk(0, "replace", "old\n", "new\n");
    h1.before_range.start = 5;
    h1.before_range.length = 1;
    let mut h2 = make_hunk(1, "insert", "", "added\n");
    h2.before_range.start = 25;
    h2.before_range.length = 0;
    let enriched = vec![enrich("a.rs", "modified", &h1), enrich("a.rs", "modified", &h2)];

    let expr = parse("lines(1..10)").unwrap();
    assert_eq!(evaluate(&expr, &enriched), HashSet::from([0]));

    let expr = parse("lines(20..30)").unwrap();
    assert_eq!(evaluate(&expr, &enriched), HashSet::from([1]));
}

#[test]
fn hunkset_eval_to_spec() {
    let h1 = make_hunk(0, "insert", "", "x\n");
    let h2 = make_hunk(1, "delete", "y\n", "");
    let enriched = vec![enrich("src/a.rs", "modified", &h1), enrich("src/b.rs", "modified", &h2)];

    let selected = HashSet::from([0]);
    let spec = to_spec(&selected, &enriched);

    assert_eq!(spec.default, DefaultAction::Reset);
    assert!(spec.files.contains_key("src/a.rs"));
    assert!(!spec.files.contains_key("src/b.rs"));
}

#[test]
fn legacy_to_spec_lists_id_selectors() {
    let h1 = make_hunk(0, "insert", "", "x\n");
    let h2 = make_hunk(1, "delete", "y\n", "");
    let enriched = vec![enrich("src/a.rs", "modified", &h1), enrich("src/a.rs", "modified", &h2)];
    let spec = to_spec(&HashSet::from([1, 0]), &enriched);
    match spec.files.get("src/a.rs").unwrap() {
        FileSpec::Selection(hs) => {
            assert!(hs.ids.is_empty());
            assert_eq!(hs.hunks.len(), 2);
            match (&hs.hunks[0], &hs.hunks[1]) {
                (HunkSelector::Id(a), HunkSelector::Id(b)) => {
                    assert_eq!(a, &h1.id);
                    assert_eq!(b, &h2.id);
                }
                _ => panic!("expected id selectors"),
            }
        }
        _ => panic!("expected Selection"),
    }
}

#[test]
fn legacy_unknown_function_selects_nothing() {
    let h1 = make_hunk(0, "insert", "", "x\n");
    let enriched = vec![enrich("a.rs", "modified", &h1)];
    assert!(evaluate(&parse("nosuch(x)").unwrap(), &enriched).is_empty());
    assert_eq!(evaluate(&parse("~nosuch(x)").unwrap(), &enriched), HashSet::from([0]));
}

#[test]
fn legacy_regex_is_a_regular_expression() {
    let p = StringPattern { kind: PatternKind::Regex, value: r"fn\s+\w+".into() };
    assert!(p.matches("fn hello_world() {\n"));
    assert!(!p.matches("let x = 1;\n"));
    let p = StringPattern { kind: PatternKind::Regex, value: "a.c".into() };
    assert!(p.matches("abc"));
    let bad = StringPattern { kind: PatternKind::Regex, value: "(unclosed".into() };
    assert!(!bad.matches("(unclosed"));
    let h1 = make_hunk(0, "insert", "", "// TODO: later\n");
    let h2 = make_hunk(1, "insert", "", "done\n");
    let enriched = vec![enrich("a.rs", "modified", &h1), enrich("a.rs", "modified", &h2)];
    assert_eq!(evaluate(&parse(r#"added(regex:"TO+DO")"#).unwrap(), &enriched), HashSet::from([0]));
}

#[test]
fn legacy_file_is_an_exact_path() {
    let h = make_hunk(0, "insert", "", "x\n");
    let hs = vec![enrich("src/lib.rs", "modified", &h)];
    assert!(evaluate(&parse(r#"file("lib.rs")"#).unwrap(), &hs).is_empty());
    assert_eq!(evaluate(&parse(r#"file("src/lib.rs")"#).unwrap(), &hs), HashSet::from([0]));
    assert_eq!(evaluate(&parse(r#"file(glob:"src/*.rs")"#).unwrap(), &hs), HashSet::from([0]));
}

#[test]
fn yaml_specs_are_not_hunksets() {
    assert!(!is_hunkset("default: keep\n"));
    assert!(!is_hunkset("files:\n  src/a.rs:\n    action: keep\n"));
    assert!(!is_hunkset("my-key : 1"));
    assert!(!is_hunkset("---\nfiles: {}\n"));
    assert!(is_hunkset("type(insert)"));
    assert!(is_hunkset("added(\"a:b\")"));
}

#[test]
fn legacy_function_and_scope_use_enrichment() {
    let h1 = make_hunk(0, "insert", "", "x\n");
    let h2 = make_hunk(1, "insert", "", "y\n");
    let mut e1 = enrich("a.rs", "modified", &h1);
    e1.enclosing_function = Some("alpha");
    e1.enclosing_scope = Some("Widget");
    let e2 = enrich("a.rs", "modified", &h2);
    let enriched = vec![e1, e2];
    assert_eq!(evaluate(&parse("function(alpha)").unwrap(), &enriched), HashSet::from([0]));
    assert_eq!(evaluate(&parse("scope(\"Wid\")").unwrap(), &enriched), HashSet::from([0]));
}

#[test]
fn legacy_id_matches_canonical_form() {
    let h1 = make_hunk(10, "insert", "", "x\n");
    let enriched = vec![enrich("a.rs", "modified", &h1)];
    let id = format!("sha256:{:064X}", 10);
    let expr = parse(&format!("id(\"{}\")", id)).unwrap();
    assert_eq!(evaluate(&expr, &enriched), HashSet::from([0]));
    // an abbreviated id selects nothing in this evaluator
    assert!(evaluate(&parse("id(\"hunk-00\")").unwrap(), &enriched).is_empty());
}

// -- is_hunkset tests --

#[test]
fn detect_hunkset_vs_json() {
    assert!(is_hunkset("type(insert)"));
    assert!(is_hunkset("all()"));
    assert!(is_hunkset("~type(delete)"));
    assert!(is_hunkset("(type(insert) | type(delete))"));
    assert!(!is_hunkset(r#"{"files": {}}"#));
    assert!(!is_hunkset("[1, 2, 3]"));
}

#[test]
fn detect_hunkset_trims_and_rejects_blank() {
    assert!(is_hunkset("  \n _x"));
    assert!(!is_hunkset("   "));
    assert!(!is_hunkset("1"));
}

// -- glob tests --

#[test]
fn glob_match_basic() {
    assert!(glob_match("*.rs", "lib.rs"));
    assert!(glob_match("*.rs", "src/lib.rs")); // filename-only when no /
    assert!(!glob_match("*.rs", "lib.py"));
    assert!(glob_match("src/**/*.rs", "src/lib.rs"));
    assert!(glob_match("src/**/*.rs", "src/sub/lib.rs"));
    assert!(!glob_match("src/**/*.rs", "tests/lib.rs"));
}
