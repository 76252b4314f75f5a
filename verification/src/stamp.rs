//! Timestamps.  A capture's moment is carried as a pair of plain strings:
//! the canonical second-precision rendering (used as the default capture
//! identity) and the calendar date (used as the default for the date
//! fields).  Parsing and rendering are chrono's work, behind trusted
//! wrappers; an unparsable or missing timestamp falls back to "now" and
//! never fails.

use vstd::prelude::*;

verus! {

/// A resolved moment: its canonical text and its calendar date.
#[derive(Debug, Clone)]
pub struct Stamp {
    pub canonical: String,
    pub date: String,
}

/// What parsing a timestamp text yields: the canonical second-precision
/// rendering and the calendar date of the parsed moment, or nothing when
/// the text does not parse.  A function of the text alone.
pub uninterp spec fn rfc3339_parse(s: Seq<char>) -> Option<(Seq<char>, Seq<char>)>;

/// Relies on chrono's DateTime::parse_from_rfc3339, to_rfc3339_opts with
/// second precision and a Z suffix, and date_naive: all are functions of
/// the parsed text alone, named together by [`rfc3339_parse`].
#[verifier::external_body]
fn parse_rfc3339(s: &str) -> (r: Option<Stamp>)
    ensures
        r is Some <==> rfc3339_parse(s@) is Some,
        r matches Some(st) ==> Some((st.canonical@, st.date@)) == rfc3339_parse(s@),
{
    match chrono::DateTime::parse_from_rfc3339(s) {
        Ok(d) => {
            let u = d.with_timezone(&chrono::Utc);
            Some(Stamp {
                canonical: u.to_rfc3339_opts(chrono::SecondsFormat::Secs, true),
                date: u.date_naive().to_string(),
            })
        },
        Err(_) => None,
    }
}

/// Relies on chrono::Utc::now with the same renderings: the current
/// moment; nothing is promised of it.
#[verifier::external_body]
pub fn now_stamp() -> (r: Stamp) {
    let u = chrono::Utc::now();
    Stamp {
        canonical: u.to_rfc3339_opts(chrono::SecondsFormat::Secs, true),
        date: u.date_naive().to_string(),
    }
}

/// The moment a capture resolves to: its own timestamp when supplied and
/// parsable, the current moment otherwise (never a failure).
pub fn resolve_stamp(ts: &Option<String>) -> (r: Stamp)
    ensures
        (ts is Some && rfc3339_parse(ts->0@) is Some) ==> Some((r.canonical@, r.date@))
            == rfc3339_parse(ts->0@),
{
    match ts {
        Some(s) => match parse_rfc3339(s.as_str()) {
            Some(st) => st,
            None => now_stamp(),
        },
        None => now_stamp(),
    }
}

} // verus!
