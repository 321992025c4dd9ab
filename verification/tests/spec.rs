use jj_hunk::diff::HUNK_ID_PREFIX;
use jj_hunk::spec::{parse_hunk_id, parse_hunk_ids, parse_hunk_selector, parse_hunk_selectors, HunkSelector, HunkSpec, SelectorInput};

#[test]
fn selectors_and_ids_merge_into_one_selection() {
    let id_inline = format!("{HUNK_ID_PREFIX}{}", "a".repeat(64));
    let id_from_ids = format!("{HUNK_ID_PREFIX}{}", "b".repeat(64));
    let hunks = parse_hunk_selectors(vec![SelectorInput::Index(0), SelectorInput::Text(id_inline.clone())]).unwrap();
    let ids = parse_hunk_ids(vec![format!("sha256:{}", "b".repeat(64))]).unwrap();
    let selection = HunkSpec { hunks, ids }.to_selection();
    assert!(selection.indices.contains(&0));
    assert!(selection.ids.contains(&id_inline));
    assert!(selection.ids.contains(&id_from_ids));
}

#[test]
fn string_index_selector_reads_as_index() {
    let hunks = parse_hunk_selectors(vec![SelectorInput::Text("1".to_string())]).unwrap();
    let selection = HunkSpec { hunks, ids: vec![] }.to_selection();
    assert!(selection.indices.contains(&1));
}

#[test]
fn selector_errors() {
    assert_eq!(parse_hunk_selector("  ").unwrap_err(), "Invalid hunk selector: empty value");
    assert_eq!(parse_hunk_selector("xyz").unwrap_err(), "Invalid hunk selector: xyz");
    assert!(matches!(parse_hunk_selector(" +7 "), Ok(HunkSelector::Index(7))));
    assert!(matches!(parse_hunk_selector("ABC"), Ok(HunkSelector::Id(id)) if id == "hunk-abc"));
    assert_eq!(parse_hunk_id("nope").unwrap_err(), "Invalid hunk id selector: nope");
    assert_eq!(parse_hunk_id(" sha256:FF ").unwrap(), "hunk-ff");
    let err = parse_hunk_selectors(vec![
        SelectorInput::Index(3),
        SelectorInput::Text("bad!".to_string()),
        SelectorInput::Text("".to_string()),
    ])
    .unwrap_err();
    assert_eq!(err, "Invalid hunk selector: bad!");
    assert_eq!(parse_hunk_ids(vec!["hunk-1".to_string(), "zz".to_string()]).unwrap_err(), "Invalid hunk id selector: zz");
}
