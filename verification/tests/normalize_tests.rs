use kms_capture::capture::{ContextInput, FieldInput, normalize_context, normalize_entries,
    normalize_modalities};
use kms_capture::index::{render_string_list, render_string_pairs};
use kms_capture::text::{split_commas, trimmed, usize_to_dec};

#[test]
fn comma_strings_split_trim_and_drop_blanks() {
    let entries = normalize_entries(&FieldInput::Text(" a, b ,, c ,".to_string()));
    assert_eq!(entries, vec!["a".to_string(), "b".to_string(), "c".to_string()]);
    assert_eq!(split_commas("  ,  "), Vec::<String>::new());
    assert_eq!(split_commas("solo"), vec!["solo".to_string()]);
}

#[test]
fn list_entries_are_trimmed_and_blanks_dropped() {
    let entries = normalize_entries(&FieldInput::List(vec![
        " x ".to_string(),
        "".to_string(),
        "\t".to_string(),
        "y".to_string(),
    ]));
    assert_eq!(entries, vec!["x".to_string(), "y".to_string()]);
    assert!(normalize_entries(&FieldInput::Absent).is_empty());
}

#[test]
fn context_shapes_normalize() {
    assert!(normalize_context(&ContextInput::Absent).is_empty());
    assert!(normalize_context(&ContextInput::Text(String::new())).is_empty());
    assert_eq!(
        normalize_context(&ContextInput::Text("desk".to_string())),
        vec!["desk".to_string()]
    );
    assert_eq!(
        normalize_context(&ContextInput::Named(vec!["a".to_string(), "b".to_string()])),
        vec!["a".to_string(), "b".to_string()]
    );
}

#[test]
fn modalities_default_to_text() {
    assert_eq!(normalize_modalities(&None), vec!["text".to_string()]);
    assert_eq!(normalize_modalities(&Some(Vec::new())), vec!["text".to_string()]);
    assert_eq!(
        normalize_modalities(&Some(vec!["audio".to_string()])),
        vec!["audio".to_string()]
    );
}

#[test]
fn trimming_strips_whitespace_only_at_the_edges() {
    assert_eq!(trimmed(" \t a b \r\n"), "a b");
    assert_eq!(trimmed(""), "");
    assert_eq!(trimmed("   "), "");
}

#[test]
fn trimming_covers_unicode_whitespace() {
    assert_eq!(trimmed("\u{a0}x\u{2003}"), "x");
    assert_eq!(trimmed("\u{3000}\u{2028}"), "");
    let entries = normalize_entries(&FieldInput::List(vec![
        "\u{a0}".to_string(),
        "\u{a0}kept\u{202f}".to_string(),
    ]));
    assert_eq!(entries, vec!["kept".to_string()]);
}

#[test]
fn decimal_rendering_is_exact() {
    assert_eq!(usize_to_dec(0), "0");
    assert_eq!(usize_to_dec(7), "7");
    assert_eq!(usize_to_dec(1205), "1205");
}

#[test]
fn cache_column_renderings_are_exact() {
    assert_eq!(render_string_list(&Vec::new()), "[]");
    assert_eq!(
        render_string_list(&vec!["a".to_string(), "b".to_string()]),
        "[\"a\",\"b\"]"
    );
    assert_eq!(render_string_pairs(&Vec::new()), "{}");
    assert_eq!(
        render_string_pairs(&vec![("k".to_string(), "v".to_string())]),
        "{\"k\":\"v\"}"
    );
}
