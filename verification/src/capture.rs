//! The capture data model and its normalization rules.  A raw capture
//! arrives as permissively typed fields (a tag list may be a
//! comma-separated string or a sequence; a context may be one string or a
//! set of named values); normalization turns each into a canonical ordered
//! sequence before any downstream logic sees it.

use vstd::prelude::*;
use crate::text::{split_commas, split_commas_spec, trimmed, trim_spec};

verus! {

/// A field that accepts either one comma-separated string or a sequence
/// of strings (tags, sources).
#[derive(Debug, Clone)]
pub enum FieldInput {
    Absent,
    Text(String),
    List(Vec<String>),
}

/// A context: one string, or the values of a named mapping (the names
/// are dropped).
#[derive(Debug, Clone)]
pub enum ContextInput {
    Absent,
    Text(String),
    Named(Vec<String>),
}

/// One attached media entry.
#[derive(Debug, Clone)]
pub struct MediaFile {
    pub path: String,
    pub mtype: String,
    pub name: String,
}

/// A raw capture as submitted, before normalization.  `location` and
/// `metadata` are opaque and pass through unchanged.
#[derive(Debug, Clone)]
pub struct RawCapture {
    pub timestamp: Option<String>,
    pub capture_id: Option<String>,
    pub content: Option<String>,
    pub clipboard: Option<String>,
    pub context: ContextInput,
    pub tags: FieldInput,
    pub sources: FieldInput,
    pub modalities: Option<Vec<String>>,
    pub location: Option<String>,
    pub metadata: Vec<(String, String)>,
    pub media_files: Vec<MediaFile>,
    pub created_date: Option<String>,
    pub last_edited_date: Option<String>,
}

/// A supplied list, each entry trimmed, blank entries dropped.
pub open spec fn clean_list_spec(v: Seq<Seq<char>>) -> Seq<Seq<char>>
    decreases v.len(),
{
    if v.len() == 0 {
        Seq::empty()
    } else {
        let rest = clean_list_spec(v.drop_last());
        if trim_spec(v.last()).len() > 0 {
            rest.push(trim_spec(v.last()))
        } else {
            rest
        }
    }
}

/// The normalized entries of a tag/source field: a string splits at the
/// commas, a list keeps its order; either way each entry is trimmed and
/// blank entries are dropped.
pub open spec fn entries_spec(f: FieldInput) -> Seq<Seq<char>> {
    match f {
        FieldInput::Absent => Seq::empty(),
        FieldInput::Text(s) => split_commas_spec(s@),
        FieldInput::List(v) => clean_list_spec(v.deep_view()),
    }
}

/// Trim a list and drop the blank entries.
pub fn clean_list(v: &Vec<String>) -> (r: Vec<String>)
    ensures
        r.deep_view() == clean_list_spec(v.deep_view()),
{
    let n = v.len();
    let mut out: Vec<String> = Vec::new();
    proof {
        assert(v.deep_view().take(0) =~= Seq::<Seq<char>>::empty());
        assert(clean_list_spec(Seq::<Seq<char>>::empty()) =~= Seq::<Seq<char>>::empty());
        assert(out.deep_view() =~= Seq::<Seq<char>>::empty());
    }
    let mut i: usize = 0;
    while i < n
        invariant
            0 <= i <= n == v@.len(),
            out.deep_view() == clean_list_spec(v.deep_view().take(i as int)),
        decreases n - i,
    {
        let ghost prefix = v.deep_view().take(i as int);
        let t = trimmed(v[i].as_str());
        proof {
            let next = v.deep_view().take(i as int + 1);
            assert(next.drop_last() =~= prefix);
            assert(next.last() == v.deep_view()[i as int]);
        }
        if t.as_str().unicode_len() > 0 {
            let ghost old_out = out.deep_view();
            out.push(t);
            proof {
                assert(out.deep_view() =~= old_out.push(trim_spec(v.deep_view()[i as int])));
            }
        }
        i = i + 1;
    }
    proof {
        assert(v.deep_view().take(n as int) =~= v.deep_view());
    }
    out
}

/// Normalize a tag/source field into its entries.
pub fn normalize_entries(f: &FieldInput) -> (r: Vec<String>)
    ensures
        r.deep_view() == entries_spec(*f),
{
    match f {
        FieldInput::Absent => {
            let r: Vec<String> = Vec::new();
            proof {
                assert(r.deep_view() =~= Seq::<Seq<char>>::empty());
            }
            r
        },
        FieldInput::Text(s) => split_commas(s.as_str()),
        FieldInput::List(v) => clean_list(v),
    }
}

/// The normalized context entries: a non-empty string stands alone, an
/// empty one vanishes, named values keep their order.
pub open spec fn context_entries_spec(c: ContextInput) -> Seq<Seq<char>> {
    match c {
        ContextInput::Absent => Seq::empty(),
        ContextInput::Text(s) => if s@.len() == 0 {
            Seq::empty()
        } else {
            seq![s@]
        },
        ContextInput::Named(v) => v.deep_view(),
    }
}

pub fn normalize_context(c: &ContextInput) -> (r: Vec<String>)
    ensures
        r.deep_view() == context_entries_spec(*c),
{
    match c {
        ContextInput::Absent => {
            let r: Vec<String> = Vec::new();
            proof {
                assert(r.deep_view() =~= Seq::<Seq<char>>::empty());
            }
            r
        },
        ContextInput::Text(s) => {
            if s.as_str().unicode_len() == 0 {
                let r: Vec<String> = Vec::new();
                proof {
                    assert(r.deep_view() =~= Seq::<Seq<char>>::empty());
                }
                r
            } else {
                let mut r: Vec<String> = Vec::new();
                r.push(s.clone());
                proof {
                    assert(r.deep_view() =~= seq![s@]);
                }
                r
            }
        },
        ContextInput::Named(v) => v.clone(),
    }
}

/// The normalized modalities: the supplied ones, or `text` when none.
pub open spec fn modalities_spec(m: Option<Vec<String>>) -> Seq<Seq<char>> {
    match m {
        Option::Some(v) => if v@.len() > 0 {
            v.deep_view()
        } else {
            seq!["text"@]
        },
        Option::None => seq!["text"@],
    }
}

pub fn normalize_modalities(m: &Option<Vec<String>>) -> (r: Vec<String>)
    ensures
        r.deep_view() == modalities_spec(*m),
{
    match m {
        Some(v) => {
            if v.len() > 0 {
                v.clone()
            } else {
                let mut r: Vec<String> = Vec::new();
                r.push("text".to_owned());
                proof {
                    assert(r.deep_view() =~= seq!["text"@]);
                }
                r
            }
        },
        None => {
            let mut r: Vec<String> = Vec::new();
            r.push("text".to_owned());
            proof {
                assert(r.deep_view() =~= seq!["text"@]);
            }
            r
        },
    }
}

} // verus!
