//! Capture store policy: where a capture document goes and under which
//! name.  A capture's candidate name is `<id>.md`; when taken, the lowest
//! positive suffix `<id>_<n>.md` that is free is chosen, so an existing
//! capture file is never overwritten.  The writing itself (create the
//! directories, write a temporary sibling, rename it into place) happens
//! outside this library, following the plan computed here.

use vstd::prelude::*;
use crate::capture::RawCapture;
use crate::config::AppConfig;
use crate::render::{capture_doc_lines, format_capture};
use crate::stamp::rfc3339_parse;
use crate::text::{
    dec_str, join_lines, join_path, join_path_spec, lemma_dec_str_injective, lemma_dec_str_len,
    usize_to_dec, vec_contains_str,
};

verus! {

/// What a persist reports: where the document went and whether the
/// destination was confirmed to exist afterwards.
#[derive(Debug, Clone)]
pub struct CaptureResult {
    pub saved_to: String,
    pub verified: bool,
}

/// The candidate file names of a capture: the bare name first, then the
/// positive suffixes in order.
pub open spec fn candidate_name(id: Seq<char>, n: nat) -> Seq<char> {
    if n == 0 {
        id + ".md"@
    } else {
        id + "_"@ + dec_str(n) + ".md"@
    }
}

/// What the naming policy promises of a chosen name: it is not among the
/// existing names, and it is the first candidate that is free.
pub open spec fn chosen_name_ok(id: Seq<char>, existing: Seq<Seq<char>>, r: Seq<char>) -> bool {
    &&& !existing.contains(r)
    &&& exists|n: nat|
        r == #[trigger] candidate_name(id, n) && (forall|m: nat|
            m < n ==> existing.contains(#[trigger] candidate_name(id, m)))
}

/// Distinct candidate indices give distinct names.
pub proof fn lemma_candidate_injective(id: Seq<char>, a: nat, b: nat)
    requires
        candidate_name(id, a) == candidate_name(id, b),
    ensures
        a == b,
{
    reveal_strlit(".md");
    reveal_strlit("_");
    assert(".md"@.len() == 3);
    assert("_"@.len() == 1);
    lemma_dec_str_len(a);
    lemma_dec_str_len(b);
    if a == 0 && b == 0 {
    } else if a != 0 && b != 0 {
        let sa = candidate_name(id, a);
        let sb = candidate_name(id, b);
        assert(sa.len() == id.len() + 1 + dec_str(a).len() + 3);
        assert(sb.len() == id.len() + 1 + dec_str(b).len() + 3);
        assert(dec_str(a).len() == dec_str(b).len());
        assert(dec_str(a) =~= sa.subrange(id.len() as int + 1, sa.len() as int - 3));
        assert(dec_str(b) =~= sb.subrange(id.len() as int + 1, sb.len() as int - 3));
        lemma_dec_str_injective(a, b);
    } else if a == 0 {
        assert(candidate_name(id, a).len() == id.len() + 3);
        assert(candidate_name(id, b).len() == id.len() + 1 + dec_str(b).len() + 3);
        assert(false);
    } else {
        assert(candidate_name(id, b).len() == id.len() + 3);
        assert(candidate_name(id, a).len() == id.len() + 1 + dec_str(a).len() + 3);
        assert(false);
    }
}

/// A set holding the first `n` candidates has at least `n` elements.
proof fn lemma_candidates_bound(id: Seq<char>, s: Set<Seq<char>>, n: nat)
    requires
        s.finite(),
        forall|m: nat| m < n ==> s.contains(#[trigger] candidate_name(id, m)),
    ensures
        s.len() >= n,
    decreases n,
{
    if n > 0 {
        let last = candidate_name(id, (n - 1) as nat);
        assert(s.contains(last));
        let s2 = s.remove(last);
        assert forall|m: nat| m < (n - 1) as nat implies s2.contains(
            #[trigger] candidate_name(id, m),
        ) by {
            if candidate_name(id, m) == last {
                lemma_candidate_injective(id, m, (n - 1) as nat);
                assert(false);
            }
        }
        lemma_candidates_bound(id, s2, (n - 1) as nat);
    }
}

/// Choose the file name for a capture: `<id>.md` when free among the
/// existing names, else `<id>_<n>.md` with the lowest positive `n` free.
/// The chosen name never collides with an existing one.
pub fn unique_capture_name(id: &str, existing: &Vec<String>) -> (r: String)
    ensures
        chosen_name_ok(id@, existing.deep_view(), r@),
{
    let mut base = id.to_owned();
    base.append(".md");
    proof {
        assert(base@ =~= candidate_name(id@, 0));
    }
    if !vec_contains_str(existing, base.as_str()) {
        return base;
    }
    let cap = existing.len();
    let mut n: usize = 1;
    loop
        invariant
            cap == existing@.len(),
            1 <= n <= existing@.len() + 1,
            forall|m: nat| m < n ==> existing.deep_view().contains(#[trigger] candidate_name(id@, m)),
        decreases existing@.len() + 1 - n,
    {
        let mut cand = id.to_owned();
        cand.append("_");
        cand.append(usize_to_dec(n).as_str());
        cand.append(".md");
        proof {
            assert(cand@ =~= candidate_name(id@, n as nat));
        }
        if !vec_contains_str(existing, cand.as_str()) {
            return cand;
        }
        proof {
            let names = existing.deep_view();
            assert forall|m: nat| m < (n + 1) as nat implies names.to_set().contains(
                #[trigger] candidate_name(id@, m),
            ) by {
                assert(names.contains(candidate_name(id@, m)));
            }
            names.lemma_cardinality_of_set();
            lemma_candidates_bound(id@, names.to_set(), (n + 1) as nat);
            assert(n + 1 <= cap);
        }
        n = n + 1;
    }
}

/// Persisting twice with the same identity never overwrites: the second
/// chosen name differs from the first and from everything older.
pub proof fn lemma_no_overwrite(
    id: Seq<char>,
    existing: Seq<Seq<char>>,
    r1: Seq<char>,
    r2: Seq<char>,
)
    requires
        chosen_name_ok(id, existing, r1),
        chosen_name_ok(id, existing.push(r1), r2),
    ensures
        r2 != r1,
        !existing.contains(r1),
        !existing.contains(r2),
{
    assert(existing.push(r1)[existing.len() as int] == r1);
    assert(existing.push(r1).contains(r1));
    if existing.contains(r2) {
        let i = choose|i: int| 0 <= i < existing.len() && existing[i] == r2;
        assert(existing.push(r1)[i] == r2);
        assert(existing.push(r1).contains(r2));
        assert(false);
    }
}

/// On a fresh vault the first two persists of one identity go to the bare
/// name and the first suffixed name, two distinct files.
pub proof fn lemma_fresh_vault_names(id: Seq<char>, r1: Seq<char>, r2: Seq<char>)
    requires
        chosen_name_ok(id, Seq::empty(), r1),
        chosen_name_ok(id, Seq::empty().push(r1), r2),
    ensures
        r1 == candidate_name(id, 0),
        r2 == candidate_name(id, 1),
        r1 != r2,
{
    let e0 = Seq::<Seq<char>>::empty();
    let e1 = e0.push(r1);
    let n1 = choose|n: nat|
        r1 == #[trigger] candidate_name(id, n) && (forall|m: nat|
            m < n ==> e0.contains(#[trigger] candidate_name(id, m)));
    if n1 > 0 {
        assert(e0.contains(candidate_name(id, 0)));
        assert(false);
    }
    let n2 = choose|n: nat|
        r2 == #[trigger] candidate_name(id, n) && (forall|m: nat|
            m < n ==> e1.contains(#[trigger] candidate_name(id, m)));
    assert(e1[0] == r1);
    if n2 == 0 {
        assert(r2 == r1);
        assert(e1.contains(r2));
        assert(false);
    }
    if n2 > 1 {
        assert(e1.contains(candidate_name(id, 1)));
        let i = choose|i: int| 0 <= i < e1.len() && e1[i] == candidate_name(id, 1);
        assert(e1[i] == r1);
        lemma_candidate_injective(id, 0, 1);
        assert(false);
    }
    if r1 == r2 {
        lemma_candidate_injective(id, 0, 1);
        assert(false);
    }
}

/// Every candidate name ends in the document extension.
pub proof fn lemma_candidate_ends_md(id: Seq<char>, n: nat)
    ensures
        candidate_name(id, n).len() >= 3,
        candidate_name(id, n).skip(candidate_name(id, n).len() - 3) =~= ".md"@,
{
    reveal_strlit(".md");
    assert(".md"@.len() == 3);
    if n > 0 {
        lemma_dec_str_len(n);
    }
}

/// The temporary sibling of a chosen name: the extension replaced.
pub open spec fn tmp_name_spec(name: Seq<char>) -> Seq<char> {
    name.take(name.len() - 3) + ".tmp"@
}

/// Everything a persist needs done, computed up front: the directories
/// to ensure, the collision-free destination, the temporary sibling to
/// write first, and the document text itself.
#[derive(Debug, Clone)]
pub struct PersistPlan {
    pub capture_dir: String,
    pub media_dir: String,
    pub file_name: String,
    pub file_path: String,
    pub tmp_path: String,
    pub document: String,
    pub timestamp: String,
    pub capture_id: String,
}

/// Plan the persisting of one capture given the resolved configuration
/// and the file names already present in the capture directory.
pub fn plan_persist(c: &RawCapture, cfg: &AppConfig, existing: &Vec<String>) -> (p: PersistPlan)
    ensures
        p.capture_dir@ == join_path_spec(cfg.vault.path@, cfg.vault.capture_dir@),
        p.media_dir@ == join_path_spec(cfg.vault.path@, cfg.vault.media_dir@),
        p.capture_id@ == (match c.capture_id {
            Option::Some(id) => id@,
            Option::None => p.timestamp@,
        }),
        chosen_name_ok(p.capture_id@, existing.deep_view(), p.file_name@),
        p.file_path@ == join_path_spec(p.capture_dir@, p.file_name@),
        p.tmp_path@ == join_path_spec(p.capture_dir@, tmp_name_spec(p.file_name@)),
        (c.timestamp is Some && rfc3339_parse(c.timestamp->0@) is Some) ==> p.timestamp@
            == (rfc3339_parse(c.timestamp->0@)->0).0,
        exists|date: Seq<char>|
            p.document@ == #[trigger] join_lines(
                capture_doc_lines(*c, p.capture_dir@, p.timestamp@, date, p.capture_id@),
            ) && ((c.timestamp is Some && rfc3339_parse(c.timestamp->0@) is Some) ==> date == (
            rfc3339_parse(c.timestamp->0@)->0).1),
{
    let capture_dir = join_path(cfg.vault.path.as_str(), cfg.vault.capture_dir.as_str());
    let media_dir = join_path(cfg.vault.path.as_str(), cfg.vault.media_dir.as_str());
    let (document, timestamp, capture_id) = format_capture(c, &cfg.vault);
    let file_name = unique_capture_name(capture_id.as_str(), existing);
    let file_path = join_path(capture_dir.as_str(), file_name.as_str());
    let nlen = file_name.as_str().unicode_len();
    proof {
        let n = choose|n: nat|
            file_name@ == #[trigger] candidate_name(capture_id@, n) && (forall|m: nat|
                m < n ==> existing.deep_view().contains(#[trigger] candidate_name(capture_id@, m)));
        lemma_candidate_ends_md(capture_id@, n);
    }
    let mut tmp_name = file_name.as_str().substring_char(0, nlen - 3).to_owned();
    tmp_name.append(".tmp");
    proof {
        assert(file_name@.subrange(0, nlen - 3) =~= file_name@.take(nlen - 3));
        assert(tmp_name@ =~= tmp_name_spec(file_name@));
    }
    let tmp_path = join_path(capture_dir.as_str(), tmp_name.as_str());
    let p = PersistPlan {
        capture_dir,
        media_dir,
        file_name,
        file_path,
        tmp_path,
        document,
        timestamp,
        capture_id,
    };
    proof {
        let date = choose|date: Seq<char>|
            p.document@ == #[trigger] join_lines(
                capture_doc_lines(
                    *c,
                    join_path_spec(cfg.vault.path@, cfg.vault.capture_dir@),
                    p.timestamp@,
                    date,
                    p.capture_id@,
                ),
            ) && ((c.timestamp is Some && rfc3339_parse(c.timestamp->0@) is Some) ==> date == (
            rfc3339_parse(c.timestamp->0@)->0).1);
        assert(p.document@ == join_lines(
            capture_doc_lines(*c, p.capture_dir@, p.timestamp@, date, p.capture_id@),
        ) && ((c.timestamp is Some && rfc3339_parse(c.timestamp->0@) is Some) ==> date == (
        rfc3339_parse(c.timestamp->0@)->0).1));
    }
    p
}

} // verus!
