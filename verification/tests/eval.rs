use jj_hunk::diff::{Hunk, LineRange, SemanticInfo};
use jj_hunk::hunkset::error::HunksetError;
use jj_hunk::hunkset::eval::{evaluate, to_spec, EnrichedHunk};
use jj_hunk::hunkset::parser::parse;
use jj_hunk::spec::{DefaultAction, FileSpec};
use std::collections::HashSet;

fn make_hunk(index: usize, hunk_type: &str, removed: &str, added: &str) -> Hunk {
    Hunk {
        index,
        id: format!("hunk-{:064x}", index),
        hunk_type: hunk_type.to_string(),
        removed: removed.to_string(),
        added: added.to_string(),
        before_range: LineRange {
            start: index * 10 + 1,
            length: if removed.is_empty() { 0 } else { removed.lines().count() },
        },
        after_range: LineRange {
            start: index * 10 + 1,
            length: if added.is_empty() { 0 } else { added.lines().count() },
        },
        context: None,
        semantic: SemanticInfo::default(),
    }
}

fn eh<'a>(path: &'a str, status: &'a str, hunk: &'a Hunk) -> EnrichedHunk<'a> {
    EnrichedHunk { file_path: path, file_status: status, hunk }
}

fn run(expr: &str, hunks: &[EnrichedHunk]) -> HashSet<usize> {
    evaluate(&parse(expr).unwrap(), hunks).unwrap()
}

#[test]
fn eval_eval_type_filter() {
    let hunks_data = vec![
        make_hunk(0, "insert", "", "new line\n"),
        make_hunk(1, "delete", "old line\n", ""),
        make_hunk(2, "replace", "before\n", "after\n"),
    ];
    let enriched: Vec<EnrichedHunk> = hunks_data.iter().map(|h| eh("src/lib.rs", "modified", h)).collect();

    assert_eq!(run("type(insert)", &enriched), HashSet::from([0]));
    assert_eq!(run("type(insert) | type(delete)", &enriched), HashSet::from([0, 1]));
}

#[test]
fn eval_eval_file_filter() {
    let h1 = make_hunk(0, "insert", "", "x\n");
    let h2 = make_hunk(1, "insert", "", "y\n");
    let enriched = vec![eh("src/lib.rs", "modified", &h1), eh("tests/test.rs", "added", &h2)];
    assert_eq!(run(r#"file("src/lib.rs")"#, &enriched), HashSet::from([0]));
}

#[test]
fn eval_eval_glob_filter() {
    let h1 = make_hunk(0, "insert", "", "x\n");
    let h2 = make_hunk(1, "insert", "", "y\n");
    let enriched = vec![eh("src/lib.rs", "modified", &h1), eh("tests/test.rs", "added", &h2)];
    assert_eq!(run(r#"glob("src/**/*.rs")"#, &enriched), HashSet::from([0]));
}

#[test]
fn eval_eval_content_filter() {
    let h1 = make_hunk(0, "insert", "", "TODO: fix this\n");
    let h2 = make_hunk(1, "replace", "old code\n", "new code\n");
    let enriched = vec![eh("a.rs", "modified", &h1), eh("b.rs", "modified", &h2)];
    assert_eq!(run(r#"added("TODO")"#, &enriched), HashSet::from([0]));
    assert_eq!(run(r#"removed("old")"#, &enriched), HashSet::from([1]));
}

#[test]
fn eval_eval_intersection_and_difference() {
    let h1 = make_hunk(0, "insert", "", "new\n");
    let h2 = make_hunk(1, "insert", "", "also new\n");
    let h3 = make_hunk(2, "delete", "gone\n", "");
    let enriched = vec![
        eh("src/a.rs", "modified", &h1),
        eh("src/b.rs", "modified", &h2),
        eh("tests/c.rs", "modified", &h3),
    ];
    assert_eq!(run(r#"type(insert) & glob("src/**")"#, &enriched), HashSet::from([0, 1]));
    assert_eq!(run("all() ~ type(delete)", &enriched), HashSet::from([0, 1]));
}

#[test]
fn eval_eval_lines_filter() {
    let mut h1 = make_hunk(0, "replace", "old\n", "new\n");
    h1.before_range.start = 5;
    h1.before_range.length = 1;
    let mut h2 = make_hunk(1, "insert", "", "added\n");
    h2.before_range.start = 25;
    h2.before_range.length = 0;
    let enriched = vec![eh("a.rs", "modified", &h1), eh("a.rs", "modified", &h2)];
    assert_eq!(run("lines(1..10)", &enriched), HashSet::from([0]));
    assert_eq!(run("lines(20..30)", &enriched), HashSet::from([1]));
}

#[test]
fn eval_eval_to_spec() {
    let h1 = make_hunk(0, "insert", "", "x\n");
    let h2 = make_hunk(1, "delete", "y\n", "");
    let enriched = vec![eh("src/a.rs", "modified", &h1), eh("src/b.rs", "modified", &h2)];
    let selected = HashSet::from([0]);
    let spec = to_spec(&selected, &enriched);
    assert_eq!(spec.default, DefaultAction::Reset);
    assert!(spec.files.contains_key("src/a.rs"));
    assert!(!spec.files.contains_key("src/b.rs"));
}

#[test]
fn unknown_function_is_error() {
    let h = make_hunk(0, "insert", "", "x\n");
    let enriched = vec![eh("a.rs", "modified", &h)];
    let expr = parse("functon(\"foo\")").unwrap();
    assert!(matches!(evaluate(&expr, &enriched).unwrap_err(), HunksetError::UnknownFunction { .. }));
}

#[test]
fn invalid_regex_is_error() {
    let h = make_hunk(0, "insert", "", "x\n");
    let enriched = vec![eh("a.rs", "modified", &h)];
    let expr = parse(r#"added(regex:"(unclosed")"#).unwrap();
    assert!(matches!(evaluate(&expr, &enriched).unwrap_err(), HunksetError::InvalidRegex { .. }));
}

#[test]
fn eval_on_empty_hunks() {
    let empty: Vec<EnrichedHunk> = vec![];
    assert!(run("all()", &empty).is_empty());
    assert!(run("none()", &empty).is_empty());
    assert!(run("type(insert)", &empty).is_empty());
}

#[test]
fn eval_extension_filter() {
    let h1 = make_hunk(0, "insert", "", "x\n");
    let h2 = make_hunk(1, "insert", "", "y\n");
    let enriched = vec![eh("src/lib.rs", "modified", &h1), eh("src/lib.py", "modified", &h2)];
    assert_eq!(run("extension(rs)", &enriched), HashSet::from([0]));
}

#[test]
fn eval_status_filter() {
    let h1 = make_hunk(0, "insert", "", "x\n");
    let h2 = make_hunk(1, "insert", "", "y\n");
    let enriched = vec![eh("a.rs", "modified", &h1), eh("b.rs", "added", &h2)];
    assert_eq!(run("status(added)", &enriched), HashSet::from([1]));
}

#[test]
fn eval_doc_import_toplevel() {
    let mut h1 = make_hunk(0, "insert", "", "/// doc\n");
    h1.semantic.is_doc_comment = true;
    let mut h2 = make_hunk(1, "insert", "", "use foo;\n");
    h2.semantic.is_import = true;
    let mut h3 = make_hunk(2, "insert", "", "const X: i32 = 1;\n");
    h3.semantic.is_toplevel = true;
    let enriched = vec![eh("a.rs", "modified", &h1), eh("a.rs", "modified", &h2), eh("a.rs", "modified", &h3)];
    assert_eq!(run("doc()", &enriched), HashSet::from([0]));
    assert_eq!(run("import()", &enriched), HashSet::from([1]));
    assert_eq!(run("toplevel()", &enriched), HashSet::from([2]));
}

#[test]
fn eval_depth_filter() {
    let mut h1 = make_hunk(0, "insert", "", "x\n");
    h1.semantic.nesting_depth = 0;
    let mut h2 = make_hunk(1, "insert", "", "y\n");
    h2.semantic.nesting_depth = 1;
    let mut h3 = make_hunk(2, "insert", "", "z\n");
    h3.semantic.nesting_depth = 2;
    let enriched = vec![eh("a.rs", "modified", &h1), eh("a.rs", "modified", &h2), eh("a.rs", "modified", &h3)];
    assert_eq!(run("depth(0)", &enriched), HashSet::from([0]));
    assert_eq!(run("depth(0..1)", &enriched), HashSet::from([0, 1]));
}

#[test]
fn eval_annotation_filter() {
    let mut h1 = make_hunk(0, "insert", "", "x\n");
    h1.semantic.annotations = vec!["#[test]".to_string()];
    let h2 = make_hunk(1, "insert", "", "y\n");
    let enriched = vec![eh("a.rs", "modified", &h1), eh("a.rs", "modified", &h2)];
    assert_eq!(run(r#"annotation("test")"#, &enriched), HashSet::from([0]));
    assert_eq!(run("annotation()", &enriched), HashSet::from([0]));
    assert_eq!(run(r#"decorator("test")"#, &enriched), HashSet::from([0]));
}

#[test]
fn eval_regex_content() {
    let h1 = make_hunk(0, "insert", "", "fn hello_world() {\n");
    let h2 = make_hunk(1, "insert", "", "let x = 1;\n");
    let enriched = vec![eh("a.rs", "modified", &h1), eh("a.rs", "modified", &h2)];
    assert_eq!(run(r#"added(regex:"fn\s+\w+")"#, &enriched), HashSet::from([0]));
}

#[test]
fn to_spec_multi_file() {
    let h1 = make_hunk(0, "insert", "", "x\n");
    let h2 = make_hunk(1, "insert", "", "y\n");
    let h3 = make_hunk(2, "delete", "z\n", "");
    let enriched = vec![
        eh("src/a.rs", "modified", &h1),
        eh("src/a.rs", "modified", &h2),
        eh("src/b.rs", "modified", &h3),
    ];
    let selected = HashSet::from([0, 2]);
    let spec = to_spec(&selected, &enriched);
    assert!(spec.files.contains_key("src/a.rs"));
    assert!(spec.files.contains_key("src/b.rs"));
    match spec.files.get("src/a.rs").unwrap() {
        FileSpec::Selection(hs) => assert_eq!(hs.ids.len(), 1),
        _ => panic!("expected Selection"),
    }
}

#[test]
fn to_spec_round_trip_keeps_exactly_the_selection() {
    let h1 = make_hunk(0, "insert", "", "x\n");
    let h2 = make_hunk(1, "insert", "", "y\n");
    let h3 = make_hunk(2, "delete", "z\n", "");
    let enriched = vec![eh("a.rs", "modified", &h1), eh("a.rs", "modified", &h2), eh("b.rs", "modified", &h3)];
    // indices past the end are ignored
    let spec = to_spec(&HashSet::from([1, 7]), &enriched);
    assert_eq!(spec.files.len(), 1);
    match spec.files.get("a.rs").unwrap() {
        FileSpec::Selection(hs) => {
            let sel = hs.to_selection();
            assert!(!sel.matches(0, &h1.id));
            assert!(sel.matches(1, &h2.id));
        }
        _ => panic!("expected Selection"),
    }
}

#[test]
fn id_prefix_selects_abbreviated_ids() {
    let h1 = make_hunk(0, "insert", "", "x\n");
    let h2 = make_hunk(0x1f, "insert", "", "y\n");
    let enriched = vec![eh("a.rs", "modified", &h1), eh("a.rs", "modified", &h2)];
    assert_eq!(run("id(\"hunk-0000\")", &enriched), HashSet::from([0, 1]));
    let full = format!("{:064X}", 0x1f);
    assert_eq!(run(&format!("id(\"{}\")", full), &enriched), HashSet::from([1]));
    assert!(run("id(\"not-an-id\")", &enriched).is_empty());
}

#[test]
fn exact_values_ignore_substrings_but_file_accepts_globs() {
    let h1 = make_hunk(0, "insert", "", "x\n");
    let enriched = vec![eh("src/lib.rs", "modified", &h1)];
    assert!(run("type(\"ins\")", &enriched).is_empty());
    assert!(run("file(\"lib.rs\")", &enriched).is_empty());
    assert_eq!(run("file(glob:\"*.rs\")", &enriched), HashSet::from([0]));
    assert_eq!(run("content(\"x\")", &enriched), HashSet::from([0]));
}

#[test]
fn function_and_scope_use_semantic_info() {
    let mut h1 = make_hunk(0, "insert", "", "x\n");
    h1.semantic.enclosing_function = Some("alpha".into());
    h1.semantic.enclosing_scope = Some("Widget".into());
    let h2 = make_hunk(1, "insert", "", "y\n");
    let enriched = vec![eh("a.rs", "modified", &h1), eh("a.rs", "modified", &h2)];
    assert_eq!(run("function(alpha)", &enriched), HashSet::from([0]));
    assert_eq!(run("scope(\"idg\")", &enriched), HashSet::from([0]));
    assert_eq!(run("~~function(alpha)", &enriched), HashSet::from([0]));
}

#[test]
fn regex_error_is_reported_before_unknown_name() {
    let empty: Vec<EnrichedHunk> = vec![];
    match evaluate(&parse(r#"nosuch(regex:"(")"#).unwrap(), &empty).unwrap_err() {
        HunksetError::InvalidRegex { pattern, .. } => assert_eq!(pattern, "("),
        other => panic!("expected invalid regex, got {:?}", other),
    }
    let err = evaluate(&parse(r#"added(regex:"(")"#).unwrap(), &empty).unwrap_err();
    assert!(err.display_with_context().starts_with("invalid regex '(': "));
}
