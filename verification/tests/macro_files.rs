use bambusa::macros::{export_macro_text, kept_macro_rows, macro_entries, parse_macro_entries, parse_macro_file};

#[test]
fn parses_a_valid_file() {
    let content = "# a comment\n; another\n\nvn:Việt Nam\nbtw:  by the way \n";
    let pairs = parse_macro_file(content).unwrap();
    assert_eq!(
        pairs,
        vec![("vn".to_string(), "Việt Nam".to_string()), ("btw".to_string(), "by the way".to_string()),]
    );
}

#[test]
fn rejects_a_line_without_a_colon() {
    assert!(parse_macro_file("vn:ok\nnot a macro line\n").is_err());
}

#[test]
fn rejects_empty_shortcut_or_expansion() {
    assert!(parse_macro_file(":value").is_err());
    assert!(parse_macro_file("key:").is_err());
}

#[test]
fn rejects_a_file_with_no_macros() {
    assert!(parse_macro_file("# only comments\n\n").is_err());
}

#[test]
fn stored_entries_read_back() {
    let pairs = vec![
        ("vn".to_string(), "Việt Nam".to_string()),
        ("btw".to_string(), "by the way".to_string()),
    ];
    let entries = macro_entries(&pairs);
    assert_eq!(entries, vec!["vn:Việt Nam".to_string(), "btw:by the way".to_string()]);
    assert_eq!(parse_macro_entries(&entries), pairs);
}

#[test]
fn stored_entries_of_nothing() {
    assert!(macro_entries(&[]).is_empty());
}

fn p(k: &str, v: &str) -> (String, String) {
    (k.to_string(), v.to_string())
}

#[test]
fn editor_rows_are_trimmed_and_filtered() {
    let rows = vec![p(" vn ", " Việt Nam "), p("", "x"), p("k", "  "), p("btw", "by the way")];
    assert_eq!(kept_macro_rows(&rows), vec![p("vn", "Việt Nam"), p("btw", "by the way")]);
}

#[test]
fn export_writes_one_line_per_shortcut() {
    let rows = vec![p(" vn ", " Việt Nam "), p("  ", "x"), p("k", "")];
    assert_eq!(export_macro_text(&rows), "vn:Việt Nam\nk:\n");
}

#[test]
fn export_then_import_gives_the_pairs_back() {
    let pairs = vec![p("vn", "Việt Nam"), p("btw", "by the way")];
    assert_eq!(parse_macro_file(&export_macro_text(&pairs)).unwrap(), pairs);
}
