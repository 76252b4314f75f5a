//! Capture formatter: the pure transformation from a raw capture to the
//! canonical on-disk document.  A document is a sequence of lines — a
//! header block of fixed-order key/value fields between two marker lines,
//! then the body sections — joined with a newline after every line.
//! The contract pins every line of the output.

use vstd::prelude::*;
use crate::capture::{
    ContextInput, FieldInput, MediaFile, RawCapture, context_entries_spec, entries_spec,
    modalities_spec, normalize_context, normalize_entries, normalize_modalities,
};
use crate::config::VaultConfig;
use crate::stamp::{Stamp, rfc3339_parse, resolve_stamp};
use crate::text::{
    blank, has_char, is_blank, join_lines, join_path, join_path_spec, lines_acc,
    lines_of, split_lines, starts_with_str, str_eq,
};

verus! {

// ---------------------------------------------------------------------
// Relative media paths
// ---------------------------------------------------------------------

/// What the path-difference computation yields: the relative route from
/// `base` to `p`, or nothing when none exists.  A function of the two
/// texts alone.
pub uninterp spec fn rel_path_of(p: Seq<char>, base: Seq<char>) -> Option<Seq<char>>;

/// Relies on pathdiff::diff_paths: the relative path from `base` to `p`,
/// a function of its two arguments, named by [`rel_path_of`].
#[verifier::external_body]
fn relative_to(p: &str, base: &str) -> (r: Option<String>)
    ensures
        r is Some <==> rel_path_of(p@, base@) is Some,
        r matches Some(s) ==> Some(s@) == rel_path_of(p@, base@),
{
    pathdiff::diff_paths(p, base).map(|pb| pb.to_string_lossy().to_string())
}

/// The path emitted for a media link: relative to the capture directory
/// when that can be computed, the original path unchanged otherwise.
pub open spec fn rel_spec(p: Seq<char>, base: Seq<char>) -> Seq<char> {
    match rel_path_of(p, base) {
        Option::Some(r) => r,
        Option::None => p,
    }
}

pub fn get_relative_media_path(p: &str, base: &str) -> (r: String)
    ensures
        r@ == rel_spec(p@, base@),
{
    match relative_to(p, base) {
        Some(r) => r,
        None => p.to_owned(),
    }
}

// ---------------------------------------------------------------------
// The line model of a document
// ---------------------------------------------------------------------

/// A `key: value` header line.
pub open spec fn kv_line(key: Seq<char>, v: Seq<char>) -> Seq<char> {
    key + ": "@ + v
}

/// The item lines of a block sequence, one `- value` line per item.
pub open spec fn list_lines(items: Seq<Seq<char>>) -> Seq<Seq<char>>
    decreases items.len(),
{
    if items.len() == 0 {
        Seq::empty()
    } else {
        list_lines(items.drop_last()).push("- "@ + items.last())
    }
}

/// A header field holding a sequence: `key: []` when empty, else a
/// `key:` line followed by one item line per entry.
pub open spec fn list_block(key: Seq<char>, items: Seq<Seq<char>>) -> Seq<Seq<char>> {
    if items.len() == 0 {
        seq![key + ": []"@]
    } else {
        seq![key + ":"@] + list_lines(items)
    }
}

/// The entry lines of a nested mapping, each indented two blanks.
pub open spec fn map_lines(pairs: Seq<(Seq<char>, Seq<char>)>) -> Seq<Seq<char>>
    decreases pairs.len(),
{
    if pairs.len() == 0 {
        Seq::empty()
    } else {
        map_lines(pairs.drop_last()).push("  "@ + kv_line(pairs.last().0, pairs.last().1))
    }
}

/// A header field holding a mapping: `key: {}` when empty, else a
/// `key:` line followed by one indented `k: v` line per entry.
pub open spec fn map_block(key: Seq<char>, pairs: Seq<(Seq<char>, Seq<char>)>) -> Seq<
    Seq<char>,
> {
    if pairs.len() == 0 {
        seq![key + ": {}"@]
    } else {
        seq![key + ":"@] + map_lines(pairs)
    }
}

/// The header lines, in their fixed order.
pub open spec fn header_lines(
    c: RawCapture,
    canon: Seq<char>,
    date: Seq<char>,
    id: Seq<char>,
) -> Seq<Seq<char>> {
    let created = match c.created_date {
        Option::Some(d) => d@,
        Option::None => date,
    };
    let edited = match c.last_edited_date {
        Option::Some(d) => d@,
        Option::None => date,
    };
    seq![kv_line("timestamp"@, canon), kv_line("id"@, id)] + list_block("aliases"@, seq![id])
        + seq![kv_line("capture_id"@, id)] + list_block("modalities"@, modalities_spec(c.modalities))
        + list_block("context"@, context_entries_spec(c.context)) + list_block(
        "sources"@,
        entries_spec(c.sources),
    ) + list_block("tags"@, entries_spec(c.tags)) + seq![
        kv_line(
            "location"@,
            match c.location {
                Option::Some(l) => l@,
                Option::None => "null"@,
            },
        ),
    ] + map_block("metadata"@, c.metadata.deep_view()) + seq![
        kv_line("processing_status"@, "raw"@),
        kv_line("created_date"@, created),
        kv_line("last_edited_date"@, edited),
    ]
}

/// The content section: heading plus the text's own lines, only when the
/// content is not blank.
pub open spec fn content_lines(c: RawCapture) -> Seq<Seq<char>> {
    match c.content {
        Option::Some(s) => if !is_blank(s@) {
            seq!["## Content"@] + lines_of(s@)
        } else {
            Seq::empty()
        },
        Option::None => Seq::empty(),
    }
}

/// The clipboard section: verbatim when it spans lines or already opens a
/// fence, otherwise wrapped in a fresh fence; only when not blank.
pub open spec fn clipboard_lines(c: RawCapture) -> Seq<Seq<char>> {
    match c.clipboard {
        Option::Some(s) => if !is_blank(s@) {
            if "```"@.is_prefix_of(s@) || s@.contains('\n') {
                seq!["## Clipboard"@] + lines_of(s@)
            } else {
                seq!["## Clipboard"@, "```"@, s@, "```"@]
            }
        } else {
            Seq::empty()
        },
        Option::None => Seq::empty(),
    }
}

/// The section of one media entry: screenshots emit the absolute path
/// verbatim, the others a link with the relative path.
pub open spec fn media_section(m: MediaFile, base: Seq<char>) -> Seq<Seq<char>> {
    if m.mtype@ == "screenshot"@ {
        seq!["## Screenshot"@, m.path@]
    } else if m.mtype@ == "audio"@ {
        seq!["## Audio"@, "[Audio Recording]("@ + rel_spec(m.path@, base) + ")"@]
    } else if m.mtype@ == "image"@ {
        seq!["## Image"@, "![Image]("@ + rel_spec(m.path@, base) + ")"@]
    } else {
        seq!["## File"@, "[Attachment]("@ + rel_spec(m.path@, base) + ")"@]
    }
}

/// The media sections, in submission order.
pub open spec fn media_lines(files: Seq<MediaFile>, base: Seq<char>) -> Seq<Seq<char>>
    decreases files.len(),
{
    if files.len() == 0 {
        Seq::empty()
    } else {
        media_lines(files.drop_last(), base) + media_section(files.last(), base)
    }
}

/// Every line of the document: a marker, the header, a marker, the body.
pub open spec fn capture_doc_lines(
    c: RawCapture,
    base: Seq<char>,
    canon: Seq<char>,
    date: Seq<char>,
    id: Seq<char>,
) -> Seq<Seq<char>> {
    seq!["---"@] + header_lines(c, canon, date, id) + seq!["---"@] + content_lines(c)
        + clipboard_lines(c) + media_lines(c.media_files@, base)
}

// ---------------------------------------------------------------------
// Emission
// ---------------------------------------------------------------------

fn push_line_str(lines: &mut Vec<String>, l: &str)
    ensures
        final(lines).deep_view() == old(lines).deep_view().push(l@),
{
    let ghost o = lines.deep_view();
    lines.push(l.to_owned());
    proof {
        assert(lines.deep_view() =~= o.push(l@));
    }
}

fn push_kv(lines: &mut Vec<String>, key: &str, v: &str)
    ensures
        final(lines).deep_view() == old(lines).deep_view().push(kv_line(key@, v@)),
{
    let mut l = key.to_owned();
    l.append(": ");
    l.append(v);
    proof {
        reveal_strlit(": ");
    }
    let ghost o = lines.deep_view();
    lines.push(l);
    proof {
        assert(lines.deep_view() =~= o.push(kv_line(key@, v@)));
    }
}

fn push_list_block(lines: &mut Vec<String>, key: &str, items: &Vec<String>)
    ensures
        final(lines).deep_view() == old(lines).deep_view() + list_block(
            key@,
            items.deep_view(),
        ),
{
    let ghost o = lines.deep_view();
    if items.len() == 0 {
        let mut l = key.to_owned();
        l.append(": []");
        proof {
            reveal_strlit(": []");
        }
        lines.push(l);
        proof {
            assert(items.deep_view().len() == 0);
            assert(lines.deep_view() =~= o + seq![key@ + ": []"@]);
        }
    } else {
        let mut l = key.to_owned();
        l.append(":");
        proof {
            reveal_strlit(":");
        }
        lines.push(l);
        let n = items.len();
        let mut i: usize = 0;
        proof {
            assert(items.deep_view().take(0) =~= Seq::<Seq<char>>::empty());
            assert(lines.deep_view() =~= o + seq![key@ + ":"@] + list_lines(
                items.deep_view().take(0),
            ));
        }
        while i < n
            invariant
                0 <= i <= n == items@.len(),
                lines.deep_view() =~= o + seq![key@ + ":"@] + list_lines(
                    items.deep_view().take(i as int),
                ),
            decreases n - i,
        {
            let mut l = "- ".to_owned();
            l.append(items[i].as_str());
            proof {
                reveal_strlit("- ");
            }
            let ghost cur = lines.deep_view();
            lines.push(l);
            proof {
                let next = items.deep_view().take(i as int + 1);
                assert(next.drop_last() =~= items.deep_view().take(i as int));
                assert(next.last() == items.deep_view()[i as int]);
                assert(lines.deep_view() =~= cur.push("- "@ + items.deep_view()[i as int]));
                assert(lines.deep_view() =~= o + seq![key@ + ":"@] + list_lines(next));
            }
            i = i + 1;
        }
        proof {
            assert(items.deep_view().take(n as int) =~= items.deep_view());
        }
    }
}

fn push_map_block(lines: &mut Vec<String>, key: &str, pairs: &Vec<(String, String)>)
    ensures
        final(lines).deep_view() == old(lines).deep_view() + map_block(
            key@,
            pairs.deep_view(),
        ),
{
    let ghost o = lines.deep_view();
    if pairs.len() == 0 {
        let mut l = key.to_owned();
        l.append(": {}");
        proof {
            reveal_strlit(": {}");
        }
        lines.push(l);
        proof {
            assert(pairs.deep_view().len() == 0);
            assert(lines.deep_view() =~= o + seq![key@ + ": {}"@]);
        }
    } else {
        let mut l = key.to_owned();
        l.append(":");
        proof {
            reveal_strlit(":");
        }
        lines.push(l);
        let n = pairs.len();
        let mut i: usize = 0;
        proof {
            assert(pairs.deep_view().take(0) =~= Seq::<(Seq<char>, Seq<char>)>::empty());
            assert(lines.deep_view() =~= o + seq![key@ + ":"@] + map_lines(
                pairs.deep_view().take(0),
            ));
        }
        while i < n
            invariant
                0 <= i <= n == pairs@.len(),
                lines.deep_view() =~= o + seq![key@ + ":"@] + map_lines(
                    pairs.deep_view().take(i as int),
                ),
            decreases n - i,
        {
            let mut l = "  ".to_owned();
            l.append(pairs[i].0.as_str());
            l.append(": ");
            l.append(pairs[i].1.as_str());
            proof {
                reveal_strlit("  ");
                reveal_strlit(": ");
                assert(pairs.deep_view()[i as int].0 == pairs@[i as int].0@);
                assert(pairs.deep_view()[i as int].1 == pairs@[i as int].1@);
                assert(l@ =~= "  "@ + kv_line(
                    pairs.deep_view()[i as int].0,
                    pairs.deep_view()[i as int].1,
                ));
            }
            let ghost the_line = l@;
            let ghost cur = lines.deep_view();
            lines.push(l);
            proof {
                let next = pairs.deep_view().take(i as int + 1);
                assert(next.drop_last() =~= pairs.deep_view().take(i as int));
                assert(next.last() == pairs.deep_view()[i as int]);
                assert(lines.deep_view() =~= cur.push(the_line));
                assert(lines.deep_view() =~= o + seq![key@ + ":"@] + map_lines(next));
            }
            i = i + 1;
        }
        proof {
            assert(pairs.deep_view().take(n as int) =~= pairs.deep_view());
        }
    }
}

fn push_all_lines(lines: &mut Vec<String>, v: &Vec<String>)
    ensures
        final(lines).deep_view() == old(lines).deep_view() + v.deep_view(),
{
    let ghost o = lines.deep_view();
    let n = v.len();
    let mut i: usize = 0;
    proof {
        assert(v.deep_view().take(0) =~= Seq::<Seq<char>>::empty());
        assert(lines.deep_view() =~= o + v.deep_view().take(0));
    }
    while i < n
        invariant
            0 <= i <= n == v@.len(),
            lines.deep_view() =~= o + v.deep_view().take(i as int),
        decreases n - i,
    {
        let ghost cur = lines.deep_view();
        lines.push(v[i].clone());
        proof {
            let next = v.deep_view().take(i as int + 1);
            assert(next.drop_last() =~= v.deep_view().take(i as int));
            assert(next.last() == v.deep_view()[i as int]);
            assert(lines.deep_view() =~= cur.push(v.deep_view()[i as int]));
        }
        i = i + 1;
    }
    proof {
        assert(v.deep_view().take(n as int) =~= v.deep_view());
    }
}

fn join_lines_exec(lines: &Vec<String>) -> (r: String)
    ensures
        r@ == join_lines(lines.deep_view()),
{
    let mut r = String::new();
    let n = lines.len();
    let mut i: usize = 0;
    proof {
        assert(lines.deep_view().take(0) =~= Seq::<Seq<char>>::empty());
        assert(r@ =~= join_lines(lines.deep_view().take(0)));
    }
    while i < n
        invariant
            0 <= i <= n == lines@.len(),
            r@ == join_lines(lines.deep_view().take(i as int)),
        decreases n - i,
    {
        r.append(lines[i].as_str());
        r.append("\n");
        proof {
            reveal_strlit("\n");
            assert("\n"@ =~= seq!['\n']);
            let next = lines.deep_view().take(i as int + 1);
            assert(next.drop_last() =~= lines.deep_view().take(i as int));
            assert(next.last() == lines.deep_view()[i as int]);
        }
        i = i + 1;
    }
    proof {
        assert(lines.deep_view().take(n as int) =~= lines.deep_view());
    }
    r
}

// ---------------------------------------------------------------------
// The formatter
// ---------------------------------------------------------------------

#[verifier::rlimit(80)]
fn emit_header(lines: &mut Vec<String>, c: &RawCapture, stamp: &Stamp, id: &str)
    ensures
        final(lines).deep_view() == old(lines).deep_view() + header_lines(
            *c,
            stamp.canonical@,
            stamp.date@,
            id@,
        ),
{
    let ghost o = lines.deep_view();
    let created: String = match &c.created_date {
        Some(d) => d.clone(),
        None => stamp.date.clone(),
    };
    let edited: String = match &c.last_edited_date {
        Some(d) => d.clone(),
        None => stamp.date.clone(),
    };
    push_kv(lines, "timestamp", stamp.canonical.as_str());
    push_kv(lines, "id", id);
    let mut aliases: Vec<String> = Vec::new();
    aliases.push(id.to_owned());
    proof {
        assert(aliases.deep_view() =~= seq![id@]);
    }
    push_list_block(lines, "aliases", &aliases);
    push_kv(lines, "capture_id", id);
    let modalities = normalize_modalities(&c.modalities);
    push_list_block(lines, "modalities", &modalities);
    let context = normalize_context(&c.context);
    push_list_block(lines, "context", &context);
    let sources = normalize_entries(&c.sources);
    push_list_block(lines, "sources", &sources);
    let tags = normalize_entries(&c.tags);
    push_list_block(lines, "tags", &tags);
    match &c.location {
        Some(l) => push_kv(lines, "location", l.as_str()),
        None => push_kv(lines, "location", "null"),
    }
    push_map_block(lines, "metadata", &c.metadata);
    push_kv(lines, "processing_status", "raw");
    push_kv(lines, "created_date", created.as_str());
    push_kv(lines, "last_edited_date", edited.as_str());
    proof {
        assert(lines.deep_view() =~= o + header_lines(*c, stamp.canonical@, stamp.date@, id@));
    }
}

/// Format a capture at a given resolved moment.  Returns the document
/// text, the canonical timestamp and the capture identity (the supplied
/// one, or the canonical timestamp when none was supplied).
pub fn format_capture_at(c: &RawCapture, vault: &VaultConfig, stamp: &Stamp) -> (r: (
    String,
    String,
    String,
))
    ensures
        r.1@ == stamp.canonical@,
        r.2@ == (match c.capture_id {
            Option::Some(id) => id@,
            Option::None => stamp.canonical@,
        }),
        r.0@ == join_lines(
            capture_doc_lines(
                *c,
                join_path_spec(vault.path@, vault.capture_dir@),
                stamp.canonical@,
                stamp.date@,
                r.2@,
            ),
        ),
{
    let id: String = match &c.capture_id {
        Some(i) => i.clone(),
        None => stamp.canonical.clone(),
    };
    let base = join_path(vault.path.as_str(), vault.capture_dir.as_str());

    let mut lines: Vec<String> = Vec::new();
    proof {
        assert(lines.deep_view() =~= Seq::<Seq<char>>::empty());
    }
    push_line_str(&mut lines, "---");
    proof {
        reveal_strlit("---");
    }
    emit_header(&mut lines, c, stamp, id.as_str());
    proof {
        assert(lines.deep_view() =~= seq!["---"@] + header_lines(
            *c,
            stamp.canonical@,
            stamp.date@,
            id@,
        ));
    }
    push_line_str(&mut lines, "---");
    let ghost with_header = lines.deep_view();

    // Body: content section
    match &c.content {
        Some(s) => {
            if !blank(s.as_str()) {
                push_line_str(&mut lines, "## Content");
                let body = split_lines(s.as_str());
                push_all_lines(&mut lines, &body);
                proof {
                    assert(lines.deep_view() =~= with_header + content_lines(*c));
                }
            }
        },
        None => {},
    }
    proof {
        assert(lines.deep_view() =~= with_header + content_lines(*c));
    }
    let ghost with_content = lines.deep_view();

    // Body: clipboard section
    match &c.clipboard {
        Some(s) => {
            if !blank(s.as_str()) {
                push_line_str(&mut lines, "## Clipboard");
                if starts_with_str(s.as_str(), "```") || has_char(s.as_str(), '\n') {
                    let body = split_lines(s.as_str());
                    push_all_lines(&mut lines, &body);
                } else {
                    push_line_str(&mut lines, "```");
                    push_line_str(&mut lines, s.as_str());
                    push_line_str(&mut lines, "```");
                }
                proof {
                    reveal_strlit("```");
                    assert(lines.deep_view() =~= with_content + clipboard_lines(*c));
                }
            }
        },
        None => {},
    }
    proof {
        reveal_strlit("```");
        assert(lines.deep_view() =~= with_content + clipboard_lines(*c));
    }
    let ghost with_clip = lines.deep_view();

    // Body: one section per media entry
    let nm = c.media_files.len();
    let mut i: usize = 0;
    proof {
        assert(c.media_files@.take(0) =~= Seq::<MediaFile>::empty());
        assert(lines.deep_view() =~= with_clip + media_lines(c.media_files@.take(0), base@));
    }
    while i < nm
        invariant
            0 <= i <= nm == c.media_files@.len(),
            lines.deep_view() =~= with_clip + media_lines(c.media_files@.take(i as int), base@),
            base@ == join_path_spec(vault.path@, vault.capture_dir@),
        decreases nm - i,
    {
        let m = &c.media_files[i];
        if str_eq(m.mtype.as_str(), "screenshot") {
            push_line_str(&mut lines, "## Screenshot");
            push_line_str(&mut lines, m.path.as_str());
        } else if str_eq(m.mtype.as_str(), "audio") {
            push_line_str(&mut lines, "## Audio");
            let rel = get_relative_media_path(m.path.as_str(), base.as_str());
            let mut l = "[Audio Recording](".to_owned();
            l.append(rel.as_str());
            l.append(")");
            push_line_str(&mut lines, l.as_str());
        } else if str_eq(m.mtype.as_str(), "image") {
            push_line_str(&mut lines, "## Image");
            let rel = get_relative_media_path(m.path.as_str(), base.as_str());
            let mut l = "![Image](".to_owned();
            l.append(rel.as_str());
            l.append(")");
            push_line_str(&mut lines, l.as_str());
        } else {
            push_line_str(&mut lines, "## File");
            let rel = get_relative_media_path(m.path.as_str(), base.as_str());
            let mut l = "[Attachment](".to_owned();
            l.append(rel.as_str());
            l.append(")");
            push_line_str(&mut lines, l.as_str());
        }
        proof {
            reveal_strlit("screenshot");
            reveal_strlit("audio");
            reveal_strlit("image");
            reveal_strlit("## Screenshot");
            reveal_strlit("## Audio");
            reveal_strlit("## Image");
            reveal_strlit("## File");
            reveal_strlit("[Audio Recording](");
            reveal_strlit("![Image](");
            reveal_strlit("[Attachment](");
            reveal_strlit(")");
            let next = c.media_files@.take(i as int + 1);
            assert(next.drop_last() =~= c.media_files@.take(i as int));
            assert(next.last() == c.media_files@[i as int]);
            assert(lines.deep_view() =~= with_clip + media_lines(next, base@));
        }
        i = i + 1;
    }
    proof {
        assert(c.media_files@.take(nm as int) =~= c.media_files@);
        assert(lines.deep_view() =~= capture_doc_lines(
            *c,
            join_path_spec(vault.path@, vault.capture_dir@),
            stamp.canonical@,
            stamp.date@,
            id@,
        ));
    }
    let doc = join_lines_exec(&lines);
    (doc, stamp.canonical.clone(), id)
}

// ---------------------------------------------------------------------
// The boundary law
// ---------------------------------------------------------------------

/// How many of the lines are the header/body marker.
pub open spec fn marker_count(lines: Seq<Seq<char>>) -> nat
    decreases lines.len(),
{
    if lines.len() == 0 {
        0
    } else {
        marker_count(lines.drop_last()) + (if lines.last() == "---"@ {
            1nat
        } else {
            0nat
        })
    }
}

proof fn lemma_marker_count_concat(a: Seq<Seq<char>>, b: Seq<Seq<char>>)
    ensures
        marker_count(a + b) == marker_count(a) + marker_count(b),
    decreases b.len(),
{
    if b.len() == 0 {
        assert(a + b =~= a);
    } else {
        assert((a + b).drop_last() =~= a + b.drop_last());
        assert((a + b).last() == b.last());
        lemma_marker_count_concat(a, b.drop_last());
    }
}

proof fn lemma_marker_count_zero(lines: Seq<Seq<char>>)
    requires
        forall|i: int| 0 <= i < lines.len() ==> lines[i] != "---"@,
    ensures
        marker_count(lines) == 0,
    decreases lines.len(),
{
    if lines.len() > 0 {
        lemma_marker_count_zero(lines.drop_last());
    }
}

proof fn lemma_no_marker_kv(key: Seq<char>, v: Seq<char>)
    requires
        key.len() > 0,
        key[0] != '-',
    ensures
        kv_line(key, v) != "---"@,
{
    reveal_strlit("---");
    assert(kv_line(key, v)[0] == key[0]);
    assert("---"@[0] == '-');
}

proof fn lemma_no_marker_list_lines(items: Seq<Seq<char>>)
    ensures
        marker_count(list_lines(items)) == 0,
    decreases items.len(),
{
    if items.len() > 0 {
        lemma_no_marker_list_lines(items.drop_last());
        reveal_strlit("---");
        reveal_strlit("- ");
        let l = "- "@ + items.last();
        assert(l[1] == ' ');
        assert("---"@[1] == '-');
        assert(list_lines(items).drop_last() =~= list_lines(items.drop_last()));
        assert(list_lines(items).last() == l);
    }
}

proof fn lemma_no_marker_list_block(key: Seq<char>, items: Seq<Seq<char>>)
    requires
        key.len() > 0,
        key[0] != '-',
    ensures
        marker_count(list_block(key, items)) == 0,
{
    reveal_strlit("---");
    assert("---"@[0] == '-');
    if items.len() == 0 {
        assert((key + ": []"@)[0] == key[0]);
        lemma_marker_count_zero(list_block(key, items));
    } else {
        assert((key + ":"@)[0] == key[0]);
        lemma_no_marker_list_lines(items);
        lemma_marker_count_concat(seq![key + ":"@], list_lines(items));
        lemma_marker_count_zero(seq![key + ":"@]);
    }
}

proof fn lemma_no_marker_map_lines(pairs: Seq<(Seq<char>, Seq<char>)>)
    ensures
        marker_count(map_lines(pairs)) == 0,
    decreases pairs.len(),
{
    if pairs.len() > 0 {
        lemma_no_marker_map_lines(pairs.drop_last());
        reveal_strlit("---");
        reveal_strlit("  ");
        let l = "  "@ + kv_line(pairs.last().0, pairs.last().1);
        assert(l[0] == ' ');
        assert("---"@[0] == '-');
        assert(map_lines(pairs).drop_last() =~= map_lines(pairs.drop_last()));
        assert(map_lines(pairs).last() == l);
    }
}

proof fn lemma_no_marker_map_block(key: Seq<char>, pairs: Seq<(Seq<char>, Seq<char>)>)
    requires
        key.len() > 0,
        key[0] != '-',
    ensures
        marker_count(map_block(key, pairs)) == 0,
{
    reveal_strlit("---");
    assert("---"@[0] == '-');
    if pairs.len() == 0 {
        assert((key + ": {}"@)[0] == key[0]);
        lemma_marker_count_zero(map_block(key, pairs));
    } else {
        assert((key + ":"@)[0] == key[0]);
        lemma_no_marker_map_lines(pairs);
        lemma_marker_count_concat(seq![key + ":"@], map_lines(pairs));
        lemma_marker_count_zero(seq![key + ":"@]);
    }
}

proof fn lemma_header_no_markers(c: RawCapture, canon: Seq<char>, date: Seq<char>, id: Seq<char>)
    ensures
        marker_count(header_lines(c, canon, date, id)) == 0,
{
    reveal_strlit("timestamp");
    reveal_strlit("id");
    reveal_strlit("aliases");
    reveal_strlit("capture_id");
    reveal_strlit("modalities");
    reveal_strlit("context");
    reveal_strlit("sources");
    reveal_strlit("tags");
    reveal_strlit("location");
    reveal_strlit("metadata");
    reveal_strlit("processing_status");
    reveal_strlit("created_date");
    reveal_strlit("last_edited_date");
    let created = match c.created_date {
        Option::Some(d) => d@,
        Option::None => date,
    };
    let edited = match c.last_edited_date {
        Option::Some(d) => d@,
        Option::None => date,
    };
    let loc = match c.location {
        Option::Some(l) => l@,
        Option::None => "null"@,
    };
    let a = seq![kv_line("timestamp"@, canon), kv_line("id"@, id)];
    let b = list_block("aliases"@, seq![id]);
    let d2 = seq![kv_line("capture_id"@, id)];
    let e = list_block("modalities"@, modalities_spec(c.modalities));
    let f = list_block("context"@, context_entries_spec(c.context));
    let g = list_block("sources"@, entries_spec(c.sources));
    let h = list_block("tags"@, entries_spec(c.tags));
    let i2 = seq![kv_line("location"@, loc)];
    let j = map_block("metadata"@, c.metadata.deep_view());
    let k = seq![
        kv_line("processing_status"@, "raw"@),
        kv_line("created_date"@, created),
        kv_line("last_edited_date"@, edited),
    ];
    lemma_no_marker_kv("timestamp"@, canon);
    lemma_no_marker_kv("id"@, id);
    lemma_no_marker_kv("capture_id"@, id);
    lemma_no_marker_kv("location"@, loc);
    lemma_no_marker_kv("processing_status"@, "raw"@);
    lemma_no_marker_kv("created_date"@, created);
    lemma_no_marker_kv("last_edited_date"@, edited);
    lemma_marker_count_zero(a);
    lemma_no_marker_list_block("aliases"@, seq![id]);
    lemma_marker_count_zero(d2);
    lemma_no_marker_list_block("modalities"@, modalities_spec(c.modalities));
    lemma_no_marker_list_block("context"@, context_entries_spec(c.context));
    lemma_no_marker_list_block("sources"@, entries_spec(c.sources));
    lemma_no_marker_list_block("tags"@, entries_spec(c.tags));
    lemma_marker_count_zero(i2);
    lemma_no_marker_map_block("metadata"@, c.metadata.deep_view());
    lemma_marker_count_zero(k);
    lemma_marker_count_concat(a, b);
    lemma_marker_count_concat(a + b, d2);
    lemma_marker_count_concat(a + b + d2, e);
    lemma_marker_count_concat(a + b + d2 + e, f);
    lemma_marker_count_concat(a + b + d2 + e + f, g);
    lemma_marker_count_concat(a + b + d2 + e + f + g, h);
    lemma_marker_count_concat(a + b + d2 + e + f + g + h, i2);
    lemma_marker_count_concat(a + b + d2 + e + f + g + h + i2, j);
    lemma_marker_count_concat(a + b + d2 + e + f + g + h + i2 + j, k);
    assert(header_lines(c, canon, date, id) == a + b + d2 + e + f + g + h + i2 + j + k);
}

proof fn lemma_lines_acc_no_newline(s: Seq<char>, cur: Seq<char>)
    requires
        !s.contains('\n'),
    ensures
        lines_acc(s, cur) == seq![cur + s],
    decreases s.len(),
{
    if s.len() == 0 {
        assert(cur + s =~= cur);
    } else {
        assert(s[0] != '\n');
        assert(!s.drop_first().contains('\n')) by {
            if s.drop_first().contains('\n') {
                let i = choose|i: int| 0 <= i < s.drop_first().len() && s.drop_first()[i] == '\n';
                assert(s[i + 1] == '\n');
            }
        }
        lemma_lines_acc_no_newline(s.drop_first(), cur.push(s[0]));
        assert(cur.push(s[0]) + s.drop_first() =~= cur + s);
    }
}

proof fn lemma_media_no_markers(files: Seq<MediaFile>, base: Seq<char>)
    requires
        forall|i: int|
            0 <= i < files.len() && (#[trigger] files[i].mtype)@ == "screenshot"@
                ==> files[i].path@ != "---"@,
    ensures
        marker_count(media_lines(files, base)) == 0,
    decreases files.len(),
{
    reveal_strlit("---");
    reveal_strlit("## Screenshot");
    reveal_strlit("## Audio");
    reveal_strlit("## Image");
    reveal_strlit("## File");
    reveal_strlit("[Audio Recording](");
    reveal_strlit("![Image](");
    reveal_strlit("[Attachment](");
    if files.len() > 0 {
        lemma_media_no_markers(files.drop_last(), base);
        let m = files.last();
        assert(marker_count(media_section(m, base)) == 0) by {
            assert("---"@[0] == '-');
            assert("## Screenshot"@[0] == '#');
            assert("## Audio"@[0] == '#');
            assert("## Image"@[0] == '#');
            assert("## File"@[0] == '#');
            assert(media_section(m, base)[0][0] == '#');
            if m.mtype@ == "screenshot"@ {
                assert(files[files.len() - 1].mtype@ == "screenshot"@);
                assert(m.path@ != "---"@);
                assert(media_section(m, base)[1] == m.path@);
            } else {
                assert(media_section(m, base)[1][0] == '[' || media_section(m, base)[1][0]
                    == '!');
            }
            assert(forall|i: int|
                0 <= i < media_section(m, base).len() ==> media_section(m, base)[i] != "---"@);
            lemma_marker_count_zero(media_section(m, base));
        }
        lemma_marker_count_concat(media_lines(files.drop_last(), base), media_section(m, base));
    }
}

/// The boundary law: the document holds the `---` marker line exactly
/// twice — once before and once after the header — as long as neither
/// free-text section carries a marker line of its own and no screenshot
/// path is itself the marker.
pub proof fn lemma_doc_boundary(
    c: RawCapture,
    base: Seq<char>,
    canon: Seq<char>,
    date: Seq<char>,
    id: Seq<char>,
)
    requires
        c.content matches Some(s) ==> !lines_of(s@).contains("---"@),
        c.clipboard matches Some(s) ==> !lines_of(s@).contains("---"@),
        forall|i: int|
            0 <= i < c.media_files@.len() && (#[trigger] c.media_files@[i].mtype)@
                == "screenshot"@ ==> c.media_files@[i].path@ != "---"@,
    ensures
        marker_count(capture_doc_lines(c, base, canon, date, id)) == 2,
{
    reveal_strlit("---");
    reveal_strlit("## Content");
    reveal_strlit("## Clipboard");
    reveal_strlit("```");
    let mk = seq!["---"@];
    let hd = header_lines(c, canon, date, id);
    let ct = content_lines(c);
    let cl = clipboard_lines(c);
    let md = media_lines(c.media_files@, base);
    assert(marker_count(mk) == 1) by {
        assert(mk.drop_last() =~= Seq::<Seq<char>>::empty());
        lemma_marker_count_zero(mk.drop_last());
        assert(mk.last() == "---"@);
    }
    lemma_header_no_markers(c, canon, date, id);
    assert(marker_count(ct) == 0) by {
        match c.content {
            Option::Some(s) => {
                if !is_blank(s@) {
                    assert("## Content"@[0] == '#');
                    assert("---"@[0] == '-');
                    assert(forall|i: int|
                        0 <= i < lines_of(s@).len() ==> lines_of(s@)[i] != "---"@);
                    lemma_marker_count_zero(lines_of(s@));
                    lemma_marker_count_concat(seq!["## Content"@], lines_of(s@));
                    lemma_marker_count_zero(seq!["## Content"@]);
                }
            },
            Option::None => {},
        }
    }
    assert(marker_count(cl) == 0) by {
        match c.clipboard {
            Option::Some(s) => {
                if !is_blank(s@) {
                    assert("## Clipboard"@[0] == '#');
                    assert("---"@[0] == '-');
                    if "```"@.is_prefix_of(s@) || s@.contains('\n') {
                        assert(forall|i: int|
                            0 <= i < lines_of(s@).len() ==> lines_of(s@)[i] != "---"@);
                        lemma_marker_count_zero(lines_of(s@));
                        lemma_marker_count_concat(seq!["## Clipboard"@], lines_of(s@));
                        lemma_marker_count_zero(seq!["## Clipboard"@]);
                    } else {
                        lemma_lines_acc_no_newline(s@, Seq::empty());
                        assert(lines_of(s@)[0] == Seq::<char>::empty() + s@);
                        assert(Seq::<char>::empty() + s@ =~= s@);
                        assert(s@ != "---"@);
                        assert("```"@[0] == '`');
                        lemma_marker_count_zero(seq!["## Clipboard"@, "```"@, s@, "```"@]);
                    }
                }
            },
            Option::None => {},
        }
    }
    lemma_media_no_markers(c.media_files@, base);
    lemma_marker_count_concat(mk, hd);
    lemma_marker_count_concat(mk + hd, mk);
    lemma_marker_count_concat(mk + hd + mk, ct);
    lemma_marker_count_concat(mk + hd + mk + ct, cl);
    lemma_marker_count_concat(mk + hd + mk + ct + cl, md);
    assert(capture_doc_lines(c, base, canon, date, id) == mk + hd + mk + ct + cl + md);
}

/// Format a capture, resolving its moment first: the supplied timestamp
/// when it parses, the current moment otherwise.
pub fn format_capture(c: &RawCapture, vault: &VaultConfig) -> (r: (String, String, String))
    ensures
        r.2@ == (match c.capture_id {
            Option::Some(id) => id@,
            Option::None => r.1@,
        }),
        (c.timestamp is Some && rfc3339_parse(c.timestamp->0@) is Some) ==> r.1@ == (rfc3339_parse(
            c.timestamp->0@,
        )->0).0,
        exists|date: Seq<char>|
            r.0@ == #[trigger] join_lines(
                capture_doc_lines(
                    *c,
                    join_path_spec(vault.path@, vault.capture_dir@),
                    r.1@,
                    date,
                    r.2@,
                ),
            ) && ((c.timestamp is Some && rfc3339_parse(c.timestamp->0@) is Some) ==> date
                == (rfc3339_parse(c.timestamp->0@)->0).1),
{
    let stamp = resolve_stamp(&c.timestamp);
    let r = format_capture_at(c, vault, &stamp);
    proof {
        let date = stamp.date@;
        assert(r.0@ == join_lines(
            capture_doc_lines(
                *c,
                join_path_spec(vault.path@, vault.capture_dir@),
                r.1@,
                date,
                r.2@,
            ),
        ));
    }
    r
}

} // verus!
