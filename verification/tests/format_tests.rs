use kms_capture::capture::{ContextInput, FieldInput, MediaFile, RawCapture};
use kms_capture::config::VaultConfig;
use kms_capture::render::{format_capture, format_capture_at, get_relative_media_path};
use kms_capture::stamp::Stamp;

fn vault() -> VaultConfig {
    VaultConfig {
        path: "/v".to_string(),
        capture_dir: "c".to_string(),
        media_dir: "c/media".to_string(),
    }
}

fn stamp() -> Stamp {
    Stamp {
        canonical: "2024-01-02T03:04:05Z".to_string(),
        date: "2024-01-02".to_string(),
    }
}

fn empty_capture() -> RawCapture {
    RawCapture {
        timestamp: None,
        capture_id: None,
        content: None,
        clipboard: None,
        context: ContextInput::Absent,
        tags: FieldInput::Absent,
        sources: FieldInput::Absent,
        modalities: None,
        location: None,
        metadata: Vec::new(),
        media_files: Vec::new(),
        created_date: None,
        last_edited_date: None,
    }
}

#[test]
fn full_document_is_exact() {
    let mut c = empty_capture();
    c.content = Some("Hello world".to_string());
    c.tags = FieldInput::Text("a, b , ,c".to_string());
    c.sources = FieldInput::List(vec!["manual".to_string(), " web ".to_string()]);
    c.context = ContextInput::Text("reading".to_string());
    c.modalities = Some(vec!["text".to_string(), "image".to_string()]);
    let (doc, ts, id) = format_capture_at(&c, &vault(), &stamp());
    assert_eq!(ts, "2024-01-02T03:04:05Z");
    assert_eq!(id, "2024-01-02T03:04:05Z");
    let expected = "---\n\
        timestamp: 2024-01-02T03:04:05Z\n\
        id: 2024-01-02T03:04:05Z\n\
        aliases:\n\
        - 2024-01-02T03:04:05Z\n\
        capture_id: 2024-01-02T03:04:05Z\n\
        modalities:\n\
        - text\n\
        - image\n\
        context:\n\
        - reading\n\
        sources:\n\
        - manual\n\
        - web\n\
        tags:\n\
        - a\n\
        - b\n\
        - c\n\
        location: null\n\
        metadata: {}\n\
        processing_status: raw\n\
        created_date: 2024-01-02\n\
        last_edited_date: 2024-01-02\n\
        ---\n\
        ## Content\n\
        Hello world\n";
    assert_eq!(doc, expected);
}

#[test]
fn empty_fields_render_as_empty_blocks() {
    let (doc, _, _) = format_capture_at(&empty_capture(), &vault(), &stamp());
    assert!(doc.contains("\ncontext: []\n"));
    assert!(doc.contains("\nsources: []\n"));
    assert!(doc.contains("\ntags: []\n"));
    assert!(doc.contains("\nmodalities:\n- text\n"));
    assert!(doc.contains("\nlocation: null\n"));
    assert!(doc.contains("\nmetadata: {}\n"));
    assert!(!doc.contains("## Content"));
    assert!(!doc.contains("## Clipboard"));
}

#[test]
fn frontmatter_has_no_extra_newline_and_importance_defaults_null() {
    let mut c = empty_capture();
    c.content = Some("Hello world".to_string());
    c.tags = FieldInput::Text("test".to_string());
    c.sources = FieldInput::Text("manual".to_string());
    c.modalities = Some(vec!["text".to_string()]);
    let (doc, _, _) = format_capture_at(&c, &vault(), &stamp());
    assert!(doc.starts_with("---\n"), "frontmatter boundary missing");
    assert!(doc.contains("\n---\n"), "frontmatter boundary missing");
    let markers = doc
        .split('\n')
        .filter(|line| *line == "---")
        .count();
    assert_eq!(markers, 2);
    assert!(!doc.contains("importance: 0.5"));
}

#[test]
fn clipboard_single_line_is_fenced() {
    let mut c = empty_capture();
    c.clipboard = Some("one liner".to_string());
    let (doc, _, _) = format_capture_at(&c, &vault(), &stamp());
    assert!(doc.contains("## Clipboard\n```\none liner\n```\n"));
}

#[test]
fn clipboard_multiline_is_verbatim() {
    let mut c = empty_capture();
    c.clipboard = Some("two\nlines".to_string());
    let (doc, _, _) = format_capture_at(&c, &vault(), &stamp());
    assert!(doc.contains("## Clipboard\ntwo\nlines\n"));
    assert!(!doc.contains("```"));
}

#[test]
fn clipboard_already_fenced_is_verbatim() {
    let mut c = empty_capture();
    c.clipboard = Some("```rust".to_string());
    let (doc, _, _) = format_capture_at(&c, &vault(), &stamp());
    assert!(doc.contains("## Clipboard\n```rust\n"));
}

#[test]
fn media_sections_in_order() {
    let mut c = empty_capture();
    c.media_files = vec![
        MediaFile {
            path: "/shots/s.png".to_string(),
            mtype: "screenshot".to_string(),
            name: "s".to_string(),
        },
        MediaFile {
            path: "/v/c/media/a.wav".to_string(),
            mtype: "audio".to_string(),
            name: "a".to_string(),
        },
        MediaFile {
            path: "/v/c/media/i.png".to_string(),
            mtype: "image".to_string(),
            name: "i".to_string(),
        },
        MediaFile {
            path: "/v/c/media/d.pdf".to_string(),
            mtype: "document".to_string(),
            name: "d".to_string(),
        },
    ];
    let (doc, _, _) = format_capture_at(&c, &vault(), &stamp());
    let s = doc.find("## Screenshot\n/shots/s.png\n").expect("screenshot section");
    let a = doc.find("## Audio\n[Audio Recording](media/a.wav)\n").expect("audio section");
    let i = doc.find("## Image\n![Image](media/i.png)\n").expect("image section");
    let f = doc.find("## File\n[Attachment](media/d.pdf)\n").expect("file section");
    assert!(s < a && a < i && i < f);
}

#[test]
fn relative_media_path_falls_back_to_original() {
    assert_eq!(get_relative_media_path("/v/c/media/x.png", "/v/c"), "media/x.png");
    assert_eq!(get_relative_media_path("rel.png", "/v/c"), "rel.png");
}

#[test]
fn supplied_timestamp_is_canonicalized_to_utc() {
    let mut c = empty_capture();
    c.timestamp = Some("2024-01-02T03:04:05+02:00".to_string());
    let (doc, ts, id) = format_capture(&c, &vault());
    assert_eq!(ts, "2024-01-02T01:04:05Z");
    assert_eq!(id, "2024-01-02T01:04:05Z");
    assert!(doc.contains("timestamp: 2024-01-02T01:04:05Z\n"));
    assert!(doc.contains("created_date: 2024-01-02\n"));
}

#[test]
fn unparsable_timestamp_falls_back_without_failing() {
    let mut c = empty_capture();
    c.timestamp = Some("not a moment".to_string());
    c.capture_id = Some("keep-me".to_string());
    let (doc, ts, id) = format_capture(&c, &vault());
    assert_eq!(id, "keep-me");
    assert!(!ts.is_empty());
    assert!(doc.contains("capture_id: keep-me\n"));
}

#[test]
fn context_mapping_values_are_flattened() {
    let mut c = empty_capture();
    c.context = ContextInput::Named(vec!["office".to_string(), "morning".to_string()]);
    let (doc, _, _) = format_capture_at(&c, &vault(), &stamp());
    assert!(doc.contains("context:\n- office\n- morning\n"));
}
