use jj_hunk::commands::{
    build_list_output, build_spec_template, build_summary_output, check_stdin_spec, check_template_format, commit,
    directory_group, extension_group, file_action, file_paths_for_entry, filter_hunks, finish_list_entry,
    format_file_header, group_files, is_binary_data, is_instructions_file, matches_any, normalize_patterns,
    normalize_spec_message, normalize_spec_only, path_glob_match, plan_diff, plan_list_entry, primary_path,
    read_plan, rename_info, render_text_output, render_text_summary_output, resolve_revisions, should_include_entry,
    spec_decision, spec_source, split, squash, status_char, tool_config_args, truncate_text, BinaryMode,
    DiffPlan, DiffSummaryEntry, FileAction, FileEntry, ListFormat, ListGrouping, ListMode, ListOptions,
    RenameInfo, SpecDecision, SpecSource, SpecTemplateEntry,
};
use jj_hunk::diff::{Hunk, HunkSelection, LineRange, SemanticInfo};
use jj_hunk::spec::{Action, DefaultAction, FileMap, FileSpec, HunkSelector, HunkSpec, Spec};

fn make_hunk(index: usize, hunk_type: &str, removed: &str, added: &str) -> Hunk {
    Hunk {
        index,
        id: format!("hunk-{:064x}", index),
        hunk_type: hunk_type.to_string(),
        removed: removed.to_string(),
        added: added.to_string(),
        before_range: LineRange { start: 3, length: removed.lines().count() },
        after_range: LineRange { start: 4, length: added.lines().count() },
        context: None,
        semantic: SemanticInfo::default(),
    }
}

fn entry(status: &str, path: &str, source: &str, target: &str) -> DiffSummaryEntry {
    DiffSummaryEntry {
        status: status.to_string(),
        path: path.to_string(),
        source: source.to_string(),
        target: target.to_string(),
    }
}

fn file(path: &str, status: &str, hunks: Vec<Hunk>) -> FileEntry {
    FileEntry { path: path.to_string(), status: status.to_string(), rename: None, hunks, binary: None, truncated: None }
}

fn strings(v: &[&str]) -> Vec<String> {
    v.iter().map(|s| s.to_string()).collect()
}

fn spec_with(path: &str, file_spec: FileSpec, default: DefaultAction) -> Spec {
    let mut files = FileMap::new();
    files.insert(path.to_string(), file_spec);
    Spec { files, default }
}

#[test]
fn revisions_for_a_revset() {
    assert_eq!(resolve_revisions(Some("abc")), (Some("(abc)-".to_string()), Some("abc".to_string())));
    assert_eq!(resolve_revisions(None), (Some("@-".to_string()), None));
}

#[test]
fn list_options_defaults() {
    let o = ListOptions::for_rev(Some("@-"));
    assert_eq!(o.rev.as_deref(), Some("@-"));
    assert_eq!(o.group, ListGrouping::Ungrouped);
    assert_eq!(o.format, ListFormat::Json);
    assert_eq!(o.mode, ListMode::Full);
    assert_eq!(o.binary, BinaryMode::Mark);
    assert!(o.includes.is_empty() && o.excludes.is_empty());
    assert!(ListOptions::for_rev(None).rev.is_none());
}

#[test]
fn primary_path_falls_back_to_target_then_source() {
    assert_eq!(primary_path(&entry("modified", "a.rs", "", "")), "a.rs");
    assert_eq!(primary_path(&entry("renamed", "", "old.rs", "new.rs")), "new.rs");
    assert_eq!(primary_path(&entry("removed", "", "gone.rs", "")), "gone.rs");
}

#[test]
fn rename_info_for_renames_and_copies() {
    let r = rename_info(&entry("renamed", "new.rs", "old.rs", "")).unwrap();
    assert_eq!((r.from.as_str(), r.to.as_str()), ("old.rs", "new.rs"));
    let r = rename_info(&entry("copied", "x", "a.rs", "b.rs")).unwrap();
    assert_eq!((r.from.as_str(), r.to.as_str()), ("a.rs", "b.rs"));
    assert!(rename_info(&entry("renamed", "new.rs", "", "")).is_none());
    assert!(rename_info(&entry("modified", "a.rs", "a.rs", "")).is_none());
}

#[test]
fn file_paths_by_status() {
    let p = file_paths_for_entry(&entry("added", "a.rs", "", ""), "a.rs");
    assert_eq!((p.before, p.after.as_deref()), (None, Some("a.rs")));
    let p = file_paths_for_entry(&entry("removed", "a.rs", "", ""), "a.rs");
    assert_eq!((p.before.as_deref(), p.after), (Some("a.rs"), None));
    let p = file_paths_for_entry(&entry("renamed", "n.rs", "o.rs", ""), "n.rs");
    assert_eq!((p.before.as_deref(), p.after.as_deref()), (Some("o.rs"), Some("n.rs")));
    let p = file_paths_for_entry(&entry("modified", "m.rs", "", ""), "m.rs");
    assert_eq!((p.before.as_deref(), p.after.as_deref()), (Some("m.rs"), Some("m.rs")));
}

#[test]
fn spec_decisions() {
    assert!(matches!(spec_decision(None, "a.rs"), SpecDecision::KeepAll));
    let keep = spec_with("a.rs", FileSpec::Action { action: Action::Keep }, DefaultAction::Reset);
    assert!(matches!(spec_decision(Some(&keep), "a.rs"), SpecDecision::KeepAll));
    assert!(matches!(spec_decision(Some(&keep), "b.rs"), SpecDecision::Skip));
    let reset = spec_with("a.rs", FileSpec::Action { action: Action::Reset }, DefaultAction::Keep);
    assert!(matches!(spec_decision(Some(&reset), "a.rs"), SpecDecision::Skip));
    assert!(matches!(spec_decision(Some(&reset), "b.rs"), SpecDecision::KeepAll));
    let empty = spec_with("a.rs", FileSpec::Selection(HunkSpec { hunks: vec![], ids: vec![] }), DefaultAction::Keep);
    assert!(matches!(spec_decision(Some(&empty), "a.rs"), SpecDecision::Skip));
    let some = spec_with(
        "a.rs",
        FileSpec::Selection(HunkSpec { hunks: vec![HunkSelector::Index(1)], ids: vec![] }),
        DefaultAction::Keep,
    );
    match spec_decision(Some(&some), "a.rs") {
        SpecDecision::KeepSelection(sel) => assert!(sel.matches(1, "x") && !sel.matches(0, "x")),
        _ => panic!("expected a selection"),
    }
}

#[test]
fn filter_keeps_selected_hunks_in_order() {
    let hunks = vec![make_hunk(0, "insert", "", "a\n"), make_hunk(1, "delete", "b\n", ""), make_hunk(2, "insert", "", "c\n")];
    let mut sel = HunkSelection::new();
    sel.indices.insert(2);
    sel.ids.insert(format!("hunk-{:064x}", 0));
    let kept = filter_hunks(hunks, &sel);
    assert_eq!(kept.iter().map(|h| h.index).collect::<Vec<_>>(), vec![0, 2]);
}

#[test]
fn patterns_split_on_commas_and_trim() {
    assert_eq!(normalize_patterns(&strings(&["src/**, docs/*", " ,", "a.rs"])), strings(&["src/**", "docs/*", "a.rs"]));
    assert!(normalize_patterns(&[]).is_empty());
}

#[test]
fn path_globs() {
    assert!(path_glob_match("src/**/*.rs", "src/a/b/c.rs"));
    assert!(path_glob_match("./src/*.rs", "src/lib.rs"));
    assert!(!path_glob_match("src/*.rs", "src/a/lib.rs"));
    assert!(path_glob_match("**", "anything/at/all"));
    assert!(path_glob_match("", ""));
    assert!(!path_glob_match("", "a"));
    assert!(path_glob_match("a?c", "abc"));
    assert!(matches_any(&strings(&["*.md", "src/*"]), "src/x"));
    assert!(!matches_any(&strings(&["*.md"]), "src/x"));
}

#[test]
fn include_and_exclude_entries() {
    let e = entry("renamed", "new/a.rs", "old/a.rs", "");
    assert!(should_include_entry(&e, &[], &[]));
    assert!(should_include_entry(&e, &strings(&["old/*"]), &[]));
    assert!(!should_include_entry(&e, &strings(&["docs/*"]), &[]));
    assert!(!should_include_entry(&e, &[], &strings(&["old/*"])));
}

#[test]
fn status_letters() {
    assert_eq!(status_char("modified"), "M");
    assert_eq!(status_char("added"), "A");
    assert_eq!(status_char("removed"), "D");
    assert_eq!(status_char("renamed"), "R");
    assert_eq!(status_char("copied"), "C");
    assert_eq!(status_char("weird"), "?");
}

#[test]
fn directory_and_extension_groups() {
    assert_eq!(directory_group("src/a/b.rs"), "src/a");
    assert_eq!(directory_group("b.rs"), ".");
    assert_eq!(extension_group("src/a/b.rs"), "rs");
    assert_eq!(extension_group("Makefile"), "<no-ext>");
}

#[test]
fn grouping_keeps_first_occurrence_order() {
    let files = vec![
        file("src/a.rs", "modified", vec![]),
        file("docs/x.md", "added", vec![]),
        file("src/b.rs", "added", vec![]),
    ];
    let groups = group_files(files, ListGrouping::Status);
    assert_eq!(groups.iter().map(|g| g.name.as_str()).collect::<Vec<_>>(), vec!["modified", "added"]);
    assert_eq!(groups[1].files.iter().map(|f| f.path.as_str()).collect::<Vec<_>>(), vec!["docs/x.md", "src/b.rs"]);
}

#[test]
fn summary_output_counts_hunks() {
    let files = vec![file("a.rs", "modified", vec![make_hunk(0, "insert", "", "x\n"), make_hunk(1, "insert", "", "y\n")])];
    let out = build_summary_output(files, ListGrouping::Ungrouped);
    let sums = out.files.unwrap();
    assert_eq!(sums[0].hunk_count, 2);
    assert!(out.groups.is_none());
    let out = build_summary_output(vec![file("src/a.rs", "modified", vec![])], ListGrouping::Directory);
    assert!(out.files.is_none());
    assert_eq!(out.groups.unwrap()[0].name, "src");
}

#[test]
fn spec_template_lists_ids_and_binary_keeps() {
    let mut bin = file("img.png", "added", vec![]);
    bin.binary = Some(true);
    let files = vec![file("a.rs", "modified", vec![make_hunk(0, "insert", "", "x\n")]), bin, file("empty.rs", "modified", vec![])];
    let t = build_spec_template(files);
    assert_eq!(t.default, "reset");
    assert_eq!(t.files.len(), 2);
    match &t.files[0] {
        (p, SpecTemplateEntry::Ids { ids }) => {
            assert_eq!(p, "a.rs");
            assert_eq!(ids, &vec![format!("hunk-{:064x}", 0)]);
        },
        _ => panic!("expected ids"),
    }
    match &t.files[1] {
        (p, SpecTemplateEntry::Action { action }) => assert_eq!((p.as_str(), action.as_str()), ("img.png", "keep")),
        _ => panic!("expected an action"),
    }
}

#[test]
fn text_rendering_of_a_listing() {
    let mut f = file("a.rs", "renamed", vec![make_hunk(0, "replace", "old\n", "new1\nnew2\n")]);
    f.rename = Some(RenameInfo { from: "b.rs".to_string(), to: "a.rs".to_string() });
    f.truncated = Some(true);
    assert_eq!(format_file_header(&f), "R a.rs (b.rs -> a.rs) [truncated]");
    let out = build_list_output(vec![f], ListGrouping::Ungrouped);
    let id = format!("hunk-{:064x}", 0);
    assert_eq!(
        render_text_output(&out),
        format!("R a.rs (b.rs -> a.rs) [truncated]\n  hunk 0 replace {id} (before 3+1 after 4+2)\n    - old\n    + new1\n    + new2\n")
    );
    let grouped = build_list_output(vec![file("x.rs", "added", vec![]), file("d/y.rs", "added", vec![])], ListGrouping::Directory);
    assert_eq!(render_text_output(&grouped), "<root>:\nA x.rs\n\nd:\nA d/y.rs\n");
    let empty = build_list_output(vec![], ListGrouping::Ungrouped);
    assert_eq!(render_text_output(&empty), "");
}

#[test]
fn text_rendering_of_a_summary() {
    let mut f = file("img.png", "added", vec![]);
    f.binary = Some(true);
    let out = build_summary_output(vec![f, file("a.rs", "modified", vec![make_hunk(0, "insert", "", "x\n")])], ListGrouping::Ungrouped);
    assert_eq!(render_text_summary_output(&out), "A img.png (0 hunks) [binary]\nM a.rs (1 hunks)\n");
}

#[test]
fn binary_detection() {
    assert!(!is_binary_data(b""));
    assert!(!is_binary_data("héllo\n".as_bytes()));
    assert!(is_binary_data(b"a\0b"));
    assert!(is_binary_data(&[0xff, 0xfe]));
}

#[test]
fn truncation_by_lines_and_bytes() {
    assert_eq!(truncate_text("a\nb\nc\n", None, Some(2)), ("a\nb\n".to_string(), true));
    assert_eq!(truncate_text("a\nb\n", None, Some(2)), ("a\nb\n".to_string(), false));
    assert_eq!(truncate_text("abc", None, Some(0)), (String::new(), true));
    assert_eq!(truncate_text("", None, Some(0)), (String::new(), false));
    assert_eq!(truncate_text("héllo", Some(2), None), ("h".to_string(), true));
    assert_eq!(truncate_text("hello", Some(5), None), ("hello".to_string(), false));
    assert_eq!(truncate_text("ab\ncd\nef", Some(4), Some(2)), ("ab\nc".to_string(), true));
}

#[test]
fn tool_config_arguments() {
    assert_eq!(
        tool_config_args(Some("/bin/jj \"hunk\""), false),
        strings(&[
            "--config",
            "merge-tools.jj-hunk.program=\"/bin/jj \\\"hunk\\\"\"",
            "--config",
            "merge-tools.jj-hunk.edit-args=[\"select\", \"$left\", \"$right\"]",
        ])
    );
    assert!(tool_config_args(None, true).is_empty());
}

#[test]
fn jj_invocations() {
    let s = split(Some("all()"), None, "msg", Some("xyz")).unwrap();
    assert_eq!(s.args, strings(&["split", "--tool=jj-hunk", "-m", "msg", "-r", "xyz"]));
    assert!(matches!(&s.source, SpecSource::Inline(t) if t == "all()"));
    assert_eq!(s.rev.as_deref(), Some("xyz"));
    let c = commit(None, Some("spec.json"), "m").unwrap();
    assert_eq!(c.args, strings(&["commit", "-i", "--tool=jj-hunk", "-m", "m"]));
    assert!(matches!(&c.source, SpecSource::File(p) if p == "spec.json"));
    assert!(c.rev.is_none());
    let q = squash(Some("-"), None, None).unwrap();
    assert_eq!(q.args, strings(&["squash", "-i", "--tool=jj-hunk"]));
    assert!(matches!(q.source, SpecSource::Stdin));
}

#[test]
fn jj_invocations_need_a_spec() {
    assert_eq!(squash(None, None, Some("@")).unwrap_err(), "Spec is required (or use --spec-file)");
    assert_eq!(split(None, Some(""), "m", None).unwrap_err(), "Spec file path is empty");
    assert_eq!(commit(None, None, "m").unwrap_err(), "Spec is required (or use --spec-file)");
}

#[test]
fn spec_sources() {
    assert!(matches!(spec_source(Some("x"), Some("f.json")), Ok(SpecSource::File(p)) if p == "f.json"));
    assert_eq!(spec_source(None, Some("")).unwrap_err(), "Spec file path is empty");
    assert!(matches!(spec_source(Some("-"), None), Ok(SpecSource::Stdin)));
    assert!(matches!(spec_source(Some("all()"), None), Ok(SpecSource::Inline(s)) if s == "all()"));
    assert_eq!(spec_source(None, None).unwrap_err(), "Spec is required (or use --spec-file)");
    assert_eq!(check_stdin_spec(" \n\t".to_string()).unwrap_err(), "Spec from stdin is empty");
    assert_eq!(check_stdin_spec(" {} ".to_string()).unwrap(), " {} ");
}

#[test]
fn listing_plans() {
    let e = entry("modified", "src/a.rs", "", "");
    let p = plan_list_entry(&e, &[], &[], None).unwrap();
    assert_eq!(p.path, "src/a.rs");
    assert!(matches!(p.decision, SpecDecision::KeepAll));
    assert!(plan_list_entry(&entry("modified", "", "", ""), &[], &[], None).is_none());
    assert!(plan_list_entry(&e, &strings(&["docs/*"]), &[], None).is_none());
    let reset = spec_with("other.rs", FileSpec::Action { action: Action::Keep }, DefaultAction::Reset);
    assert!(plan_list_entry(&e, &[], &[], Some(&reset)).is_none());
    let (path, paths) = read_plan(&entry("added", "n.rs", "", "")).unwrap();
    assert_eq!((path.as_str(), paths.before, paths.after.as_deref()), ("n.rs", None, Some("n.rs")));
    assert!(read_plan(&entry("added", "", "", "")).is_none());
}

#[test]
fn diff_plans_for_binary_content() {
    assert_eq!(plan_diff(b"a", b"b", BinaryMode::Skip), DiffPlan::Diff { binary: false });
    assert_eq!(plan_diff(b"a\0", b"b", BinaryMode::Skip), DiffPlan::Skip);
    assert_eq!(plan_diff(b"a", b"\0", BinaryMode::Mark), DiffPlan::Mark);
    assert_eq!(plan_diff(b"\0", b"", BinaryMode::Include), DiffPlan::Diff { binary: true });
}

#[test]
fn finishing_listed_entries() {
    let e = entry("renamed", "a.rs", "b.rs", "");
    let plan = plan_list_entry(&e, &[], &[], None).unwrap();
    let f = finish_list_entry(&e, plan, vec![make_hunk(0, "insert", "", "x\n")], false, true).unwrap();
    assert_eq!(f.path, "a.rs");
    assert_eq!(f.status, "renamed");
    assert_eq!(f.rename.as_ref().map(|r| r.from.as_str()), Some("b.rs"));
    assert_eq!(f.truncated, Some(true));
    assert_eq!(f.binary, None);
    let plan = plan_list_entry(&e, &[], &[], None).unwrap();
    assert!(finish_list_entry(&e, plan, vec![], false, false).is_none());
    let plan = plan_list_entry(&e, &[], &[], None).unwrap();
    let f = finish_list_entry(&e, plan, vec![], true, false).unwrap();
    assert_eq!(f.binary, Some(true));
    let sel = spec_with(
        "a.rs",
        FileSpec::Selection(HunkSpec { hunks: vec![HunkSelector::Index(1)], ids: vec![] }),
        DefaultAction::Reset,
    );
    let plan = plan_list_entry(&e, &[], &[], Some(&sel)).unwrap();
    let f = finish_list_entry(&e, plan, vec![make_hunk(0, "insert", "", "x\n"), make_hunk(1, "insert", "", "y\n")], false, false).unwrap();
    assert_eq!(f.hunks.iter().map(|h| h.index).collect::<Vec<_>>(), vec![1]);
}

#[test]
fn spec_templates_refuse_text() {
    assert_eq!(
        check_template_format(ListFormat::Text).unwrap_err(),
        "--spec-template does not support text output (use json or yaml)"
    );
    assert!(check_template_format(ListFormat::Yaml).is_ok());
}

#[test]
fn diff_editor_file_actions() {
    let s = spec_with("a.rs", FileSpec::Action { action: Action::Keep }, DefaultAction::Reset);
    assert!(matches!(file_action(&s, "a.rs"), FileAction::Keep));
    assert!(matches!(file_action(&s, "b.rs"), FileAction::Reset));
    let s = spec_with("a.rs", FileSpec::Action { action: Action::Reset }, DefaultAction::Keep);
    assert!(matches!(file_action(&s, "a.rs"), FileAction::Reset));
    assert!(matches!(file_action(&s, "b.rs"), FileAction::Keep));
    let s = spec_with("a.rs", FileSpec::Selection(HunkSpec { hunks: vec![], ids: vec![] }), DefaultAction::Keep);
    assert!(matches!(file_action(&s, "a.rs"), FileAction::Apply(sel) if sel.is_empty()));
    assert!(is_instructions_file("JJ-INSTRUCTIONS"));
    assert!(!is_instructions_file("src/JJ-INSTRUCTIONS.md"));
}

#[test]
fn spec_and_message_arguments() {
    let file = Some("s.json".to_string());
    assert_eq!(
        normalize_spec_message(Some("msg".to_string()), None, &file, "split").unwrap(),
        (None, "msg".to_string())
    );
    assert_eq!(
        normalize_spec_message(Some("x".to_string()), Some("m".to_string()), &file, "split").unwrap_err(),
        "split: omit <spec> when using --spec-file"
    );
    assert_eq!(normalize_spec_message(None, None, &file, "commit").unwrap_err(), "commit requires a commit message");
    assert_eq!(
        normalize_spec_message(Some("all()".to_string()), Some("m".to_string()), &None, "commit").unwrap(),
        (Some("all()".to_string()), "m".to_string())
    );
    assert_eq!(
        normalize_spec_message(None, Some("m".to_string()), &None, "split").unwrap_err(),
        "split requires a spec (or use --spec-file)"
    );
    assert_eq!(normalize_spec_only(None, &file, "squash").unwrap(), None);
    assert_eq!(
        normalize_spec_only(Some("x".to_string()), &file, "squash").unwrap_err(),
        "squash: omit <spec> when using --spec-file"
    );
    assert_eq!(normalize_spec_only(None, &None, "squash").unwrap_err(), "squash requires a spec (or use --spec-file)");
    assert_eq!(normalize_spec_only(Some("x".to_string()), &None, "squash").unwrap(), Some("x".to_string()));
}

#[test]
fn listing_with_a_spec_previews_the_selection() {
    let mut files = FileMap::new();
    files.insert("keep.rs".to_string(), FileSpec::Action { action: Action::Keep });
    files.insert("reset.rs".to_string(), FileSpec::Action { action: Action::Reset });
    files.insert("none.rs".to_string(), FileSpec::Selection(HunkSpec { hunks: vec![], ids: vec![] }));
    files.insert(
        "part.rs".to_string(),
        FileSpec::Selection(HunkSpec { hunks: vec![HunkSelector::Index(2)], ids: vec![] }),
    );
    let spec = Spec { files, default: DefaultAction::Reset };
    for path in ["keep.rs", "reset.rs", "none.rs", "part.rs", "other.rs"] {
        match (spec_decision(Some(&spec), path), file_action(&spec, path)) {
            (SpecDecision::KeepAll, FileAction::Keep) => {},
            (SpecDecision::Skip, FileAction::Reset) => {},
            (SpecDecision::Skip, FileAction::Apply(sel)) => assert!(sel.is_empty()),
            (SpecDecision::KeepSelection(a), FileAction::Apply(b)) => {
                assert_eq!(a.indices, b.indices);
                assert!(a.matches(2, "") && b.matches(2, ""));
            },
            _ => panic!("listing and selection disagree on {path}"),
        }
    }
}

#[test]
fn truncation_keeps_a_prefix() {
    let texts = ["", "a\nb\nc", "héllo\nwörld\n", "x\n\n\ny"];
    for text in texts {
        for max_bytes in [None, Some(0), Some(1), Some(3), Some(100)] {
            for max_lines in [None, Some(0), Some(1), Some(2)] {
                let (r, truncated) = truncate_text(text, max_bytes, max_lines);
                assert!(text.starts_with(r.as_str()));
                assert_eq!(truncated, r.len() < text.len());
                if let Some(b) = max_bytes {
                    assert!(r.len() <= b);
                }
            }
        }
    }
}

#[test]
fn grouping_keeps_every_file() {
    let files = vec![
        file("a/x.rs", "modified", vec![]),
        file("b/y.md", "added", vec![]),
        file("a/z.md", "added", vec![]),
        file("w", "removed", vec![]),
    ];
    for grouping in [ListGrouping::Directory, ListGrouping::Extension, ListGrouping::Status] {
        let files = files.iter().map(|f| file(&f.path, &f.status, vec![])).collect::<Vec<_>>();
        let groups = group_files(files, grouping);
        assert_eq!(groups.iter().map(|g| g.files.len()).sum::<usize>(), 4);
    }
}

#[test]
fn spec_template_read_back_keeps_listed_hunks() {
    let hunks = vec![make_hunk(0, "insert", "", "x\n"), make_hunk(7, "delete", "y\n", "")];
    let template = build_spec_template(vec![file("a.rs", "modified", hunks.clone())]);
    match &template.files[0] {
        (_, SpecTemplateEntry::Ids { ids }) => {
            let read = jj_hunk::spec::parse_hunk_ids(ids.clone()).unwrap();
            let selection = HunkSpec { hunks: vec![], ids: read }.to_selection();
            for h in &hunks {
                assert!(selection.matches(h.index, &h.id));
            }
        },
        _ => panic!("expected ids"),
    }
}

#[test]
fn spec_template_keeps_one_entry_per_path() {
    let files = vec![
        file("a.rs", "modified", vec![make_hunk(0, "insert", "", "x\n")]),
        file("b.rs", "modified", vec![make_hunk(1, "insert", "", "y\n")]),
        file("a.rs", "modified", vec![make_hunk(2, "insert", "", "z\n")]),
        file("a.rs", "modified", vec![]),
    ];
    let t = build_spec_template(files);
    assert_eq!(t.files.len(), 2);
    match &t.files[0] {
        (p, SpecTemplateEntry::Ids { ids }) => {
            assert_eq!(p, "a.rs");
            assert_eq!(ids, &vec![format!("hunk-{:064x}", 2)]);
        },
        _ => panic!("expected ids"),
    }
    assert_eq!(t.files[1].0, "b.rs");
}
