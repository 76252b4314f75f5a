//! Suggestion index: a relational store of the historical tag, source and
//! context values of every capture, with frequency and recency metadata,
//! and the ranking that turns them into auto-complete suggestions.
//!
//! The store is an sqlite database behind trusted wrappers; what comes
//! back from it depends on what is on disk, so nothing is promised of a
//! fetch.  The ranking itself is a pure, exactly specified function of
//! the fetched rows, and every read operation degrades to an empty result
//! instead of failing.

use vstd::prelude::*;
use crate::capture::{ContextInput, RawCapture, normalize_entries};
use crate::config::AppConfig;
use crate::stamp::now_stamp;
use crate::text::{
    blank, common_prefix, common_prefix_len, contains_seq, contains_str, is_blank,
    starts_with_str, str_eq, trimmed,
};

verus! {

/// One ranked suggestion: a historical value, how often it was used and
/// when last.  The color is reserved for the user interface and is
/// always empty here.
#[derive(Debug)]
pub struct SuggestionItem {
    pub value: String,
    pub count: i64,
    pub last_used: String,
    pub color: String,
}

/// Whether a value has been recorded for a field.
#[derive(Debug, Clone)]
pub struct Exists {
    pub exists: bool,
}

/// The field values of the most recent capture, each category present
/// only when it has rows; the context is a single most-recent value.
#[derive(Debug, Clone)]
pub struct RecentValues {
    pub tags: Option<Vec<String>>,
    pub sources: Option<Vec<String>>,
    pub context: Option<Vec<String>>,
}

/// The database file of a resolved configuration.
pub fn db_path(cfg: &AppConfig) -> (r: String)
    ensures
        r@ == cfg.database.path@,
{
    cfg.database.path.clone()
}

// ---------------------------------------------------------------------
// Trusted items: the sqlite connection
// ---------------------------------------------------------------------

#[verifier::external_type_specification]
#[verifier::external_body]
pub struct ExConnection(rusqlite::Connection);

/// Relies on rusqlite::Connection::open: a handle on the database file,
/// `None` when it cannot be opened.
#[verifier::external_body]
fn open_connection(path: &str) -> (r: Option<rusqlite::Connection>) {
    rusqlite::Connection::open(path).ok()
}

/// Relies on rusqlite::Connection::execute_batch: runs the statements
/// against the database; whether they took effect depends on what is on
/// disk, so only success is reported.
#[verifier::external_body]
fn exec_batch(conn: &rusqlite::Connection, sql: &str) -> (ok: bool) {
    conn.execute_batch(sql).is_ok()
}

/// Relies on rusqlite::Connection::execute with params_from_iter: runs
/// one parameterized statement; only success is reported.
#[verifier::external_body]
fn exec_sql(conn: &rusqlite::Connection, sql: &str, args: &Vec<String>) -> (ok: bool) {
    conn.execute(sql, rusqlite::params_from_iter(args.iter())).is_ok()
}

/// Relies on rusqlite prepare/query_map: the rows of a three-column
/// text/integer/text query, empty on any storage error.  What comes back
/// depends on the database file, so nothing more is promised.
#[verifier::external_body]
fn query_rows3(conn: &rusqlite::Connection, sql: &str, args: &Vec<String>) -> (r: Vec<
    (String, i64, String),
>) {
    let mut out: Vec<(String, i64, String)> = Vec::new();
    if let Ok(mut stmt) = conn.prepare(sql) {
        let rows = stmt.query_map(rusqlite::params_from_iter(args.iter()), |row| {
            Ok((row.get(0)?, row.get(1)?, row.get(2)?))
        });
        if let Ok(it) = rows {
            for item in it.flatten() {
                out.push(item);
            }
        }
    }
    out
}

/// Relies on rusqlite prepare/query_map: the rows of a one-column text
/// query, empty on any storage error.
#[verifier::external_body]
fn query_strings(conn: &rusqlite::Connection, sql: &str, args: &Vec<String>) -> (r: Vec<String>) {
    let mut out: Vec<String> = Vec::new();
    if let Ok(mut stmt) = conn.prepare(sql) {
        let rows = stmt.query_map(rusqlite::params_from_iter(args.iter()), |row| row.get(0));
        if let Ok(it) = rows {
            for item in it.flatten() {
                out.push(item);
            }
        }
    }
    out
}

/// Relies on rusqlite::Connection::query_row: the single integer of a
/// count query, zero on any storage error.
#[verifier::external_body]
fn query_count(conn: &rusqlite::Connection, sql: &str, args: &Vec<String>) -> (r: i64) {
    conn.query_row(sql, rusqlite::params_from_iter(args.iter()), |row| row.get(0)).unwrap_or(0)
}

// ---------------------------------------------------------------------
// Schema and fields
// ---------------------------------------------------------------------

/// Create the tables and indexes if they are not there yet; idempotent,
/// and failures are absorbed (the index is a best-effort cache).
fn init_database(conn: &rusqlite::Connection) {
    let _ = exec_batch(
        conn,
        "CREATE TABLE IF NOT EXISTS captures (id INTEGER PRIMARY KEY AUTOINCREMENT, capture_id TEXT UNIQUE NOT NULL, timestamp TEXT NOT NULL, content TEXT, context TEXT, modalities TEXT, location TEXT, metadata TEXT, created_date TEXT, last_edited_date TEXT, file_path TEXT); CREATE TABLE IF NOT EXISTS tags (id INTEGER PRIMARY KEY AUTOINCREMENT, value TEXT NOT NULL, capture_id TEXT NOT NULL, timestamp TEXT NOT NULL); CREATE TABLE IF NOT EXISTS sources (id INTEGER PRIMARY KEY AUTOINCREMENT, value TEXT NOT NULL, capture_id TEXT NOT NULL, timestamp TEXT NOT NULL); CREATE TABLE IF NOT EXISTS contexts (id INTEGER PRIMARY KEY AUTOINCREMENT, value TEXT NOT NULL, capture_id TEXT NOT NULL, timestamp TEXT NOT NULL); CREATE TABLE IF NOT EXISTS media_files (id INTEGER PRIMARY KEY AUTOINCREMENT, capture_id TEXT NOT NULL, file_path TEXT NOT NULL, file_type TEXT, file_name TEXT, timestamp TEXT NOT NULL); CREATE INDEX IF NOT EXISTS idx_tags_value ON tags (value); CREATE INDEX IF NOT EXISTS idx_sources_value ON sources (value); CREATE INDEX IF NOT EXISTS idx_contexts_value ON contexts (value); CREATE INDEX IF NOT EXISTS idx_captures_timestamp ON captures (timestamp);",
    );
}

/// The three queryable fields.
#[derive(Debug, Clone, Copy, PartialEq, Eq, Structural)]
pub enum FieldKind {
    Tag,
    Source,
    Context,
}

/// The field a selector names, if any: unknown selectors yield nothing,
/// never a failure.
pub open spec fn parse_field_spec(f: Seq<char>) -> Option<FieldKind> {
    if f == "tag"@ {
        Option::Some(FieldKind::Tag)
    } else if f == "source"@ {
        Option::Some(FieldKind::Source)
    } else if f == "context"@ {
        Option::Some(FieldKind::Context)
    } else {
        Option::None
    }
}

pub fn parse_field(f: &str) -> (r: Option<FieldKind>)
    ensures
        r == parse_field_spec(f@),
{
    if str_eq(f, "tag") {
        Some(FieldKind::Tag)
    } else if str_eq(f, "source") {
        Some(FieldKind::Source)
    } else if str_eq(f, "context") {
        Some(FieldKind::Context)
    } else {
        None
    }
}

/// The table of a field.
pub open spec fn table_name_spec(k: FieldKind) -> Seq<char> {
    match k {
        FieldKind::Tag => "tags"@,
        FieldKind::Source => "sources"@,
        FieldKind::Context => "contexts"@,
    }
}

fn table_name(k: FieldKind) -> (r: &'static str)
    ensures
        r@ == table_name_spec(k),
{
    match k {
        FieldKind::Tag => "tags",
        FieldKind::Source => "sources",
        FieldKind::Context => "contexts",
    }
}

// ---------------------------------------------------------------------
// Recording a capture
// ---------------------------------------------------------------------

/// A value quoted for the denormalized cache columns.
pub open spec fn quoted(s: Seq<char>) -> Seq<char> {
    seq!['"'] + s + seq!['"']
}

/// The items of a rendered list, quoted and comma-separated.
pub open spec fn inner_list_spec(v: Seq<Seq<char>>) -> Seq<char>
    decreases v.len(),
{
    if v.len() == 0 {
        Seq::empty()
    } else if v.len() == 1 {
        quoted(v[0])
    } else {
        inner_list_spec(v.drop_last()) + ","@ + quoted(v.last())
    }
}

/// A list of strings rendered as one cache-column text, compact-JSON
/// style without escaping (the column is never parsed back).
pub open spec fn render_list_spec(v: Seq<Seq<char>>) -> Seq<char> {
    "["@ + inner_list_spec(v) + "]"@
}

pub fn render_string_list(v: &Vec<String>) -> (r: String)
    ensures
        r@ == render_list_spec(v.deep_view()),
{
    let n = v.len();
    let mut r = "[".to_owned();
    let mut i: usize = 0;
    proof {
        assert(v.deep_view().take(0) =~= Seq::<Seq<char>>::empty());
        assert(r@ =~= "["@ + inner_list_spec(v.deep_view().take(0)));
    }
    while i < n
        invariant
            0 <= i <= n == v@.len(),
            r@ == "["@ + inner_list_spec(v.deep_view().take(i as int)),
        decreases n - i,
    {
        if i > 0 {
            r.append(",");
        }
        r.append("\"");
        r.append(v[i].as_str());
        r.append("\"");
        proof {
            reveal_strlit(",");
            reveal_strlit("\"");
            assert("\""@ =~= seq!['"']);
            let next = v.deep_view().take(i as int + 1);
            assert(next.drop_last() =~= v.deep_view().take(i as int));
            assert(next.last() == v.deep_view()[i as int]);
            if i == 0 {
                assert(inner_list_spec(next) =~= quoted(v.deep_view()[0]));
            }
            assert(r@ =~= "["@ + inner_list_spec(next));
        }
        i = i + 1;
    }
    r.append("]");
    proof {
        reveal_strlit("]");
        assert(v.deep_view().take(n as int) =~= v.deep_view());
        assert(r@ =~= render_list_spec(v.deep_view()));
    }
    r
}

/// The entries of a rendered mapping, `"k":"v"` comma-separated.
pub open spec fn inner_pairs_spec(v: Seq<(Seq<char>, Seq<char>)>) -> Seq<char>
    decreases v.len(),
{
    if v.len() == 0 {
        Seq::empty()
    } else if v.len() == 1 {
        quoted(v[0].0) + ":"@ + quoted(v[0].1)
    } else {
        inner_pairs_spec(v.drop_last()) + ","@ + quoted(v.last().0) + ":"@ + quoted(v.last().1)
    }
}

/// A string mapping rendered as one cache-column text.
pub open spec fn render_pairs_spec(v: Seq<(Seq<char>, Seq<char>)>) -> Seq<char> {
    "{"@ + inner_pairs_spec(v) + "}"@
}

pub fn render_string_pairs(v: &Vec<(String, String)>) -> (r: String)
    ensures
        r@ == render_pairs_spec(v.deep_view()),
{
    let n = v.len();
    let mut r = "{".to_owned();
    let mut i: usize = 0;
    proof {
        assert(v.deep_view().take(0) =~= Seq::<(Seq<char>, Seq<char>)>::empty());
        assert(r@ =~= "{"@ + inner_pairs_spec(v.deep_view().take(0)));
    }
    while i < n
        invariant
            0 <= i <= n == v@.len(),
            r@ == "{"@ + inner_pairs_spec(v.deep_view().take(i as int)),
        decreases n - i,
    {
        if i > 0 {
            r.append(",");
        }
        r.append("\"");
        r.append(v[i].0.as_str());
        r.append("\":\"");
        r.append(v[i].1.as_str());
        r.append("\"");
        proof {
            reveal_strlit(",");
            reveal_strlit("\"");
            reveal_strlit("\":\"");
            reveal_strlit(":");
            assert("\""@ =~= seq!['"']);
            let next = v.deep_view().take(i as int + 1);
            assert(next.drop_last() =~= v.deep_view().take(i as int));
            assert(next.last() == v.deep_view()[i as int]);
            assert(v.deep_view()[i as int].0 == v@[i as int].0@);
            assert(v.deep_view()[i as int].1 == v@[i as int].1@);
            if i == 0 {
                assert(inner_pairs_spec(next) =~= quoted(v.deep_view()[0].0) + ":"@ + quoted(
                    v.deep_view()[0].1,
                ));
            }
            assert(r@ =~= "{"@ + inner_pairs_spec(next));
        }
        i = i + 1;
    }
    r.append("}");
    proof {
        reveal_strlit("}");
        assert(v.deep_view().take(n as int) =~= v.deep_view());
        assert(r@ =~= render_pairs_spec(v.deep_view()));
    }
    r
}

/// Record one capture in the index: upsert its denormalized row, then
/// append one row per tag and source, one per non-blank string context,
/// and one per media entry.  Rows are only ever inserted, never updated,
/// which keeps the full history for recency ranking.  Storage failures
/// are absorbed: the index is a derived, best-effort cache.
pub fn store_capture_data(db_file: &str, capture: &RawCapture) {
    let conn = match open_connection(db_file) {
        Some(c) => c,
        None => {
            return ;
        },
    };
    init_database(&conn);

    let ts = now_stamp().canonical;
    let capture_id: String = match &capture.capture_id {
        Some(id) => id.clone(),
        None => ts.clone(),
    };

    let content: String = match &capture.content {
        Some(s) => s.clone(),
        None => String::new(),
    };
    let context_text: String = match &capture.context {
        ContextInput::Text(s) => s.clone(),
        _ => String::new(),
    };
    let modalities_list: Vec<String> = match &capture.modalities {
        Some(v) => v.clone(),
        None => Vec::new(),
    };
    let location_text: String = match &capture.location {
        Some(l) => {
            let mut q = "\"".to_owned();
            q.append(l.as_str());
            q.append("\"");
            q
        },
        None => "null".to_owned(),
    };
    let created: String = match &capture.created_date {
        Some(d) => d.clone(),
        None => String::new(),
    };
    let edited: String = match &capture.last_edited_date {
        Some(d) => d.clone(),
        None => String::new(),
    };

    let mut row_args: Vec<String> = Vec::new();
    row_args.push(capture_id.clone());
    row_args.push(ts.clone());
    row_args.push(content);
    row_args.push(context_text);
    row_args.push(render_string_list(&modalities_list));
    row_args.push(location_text);
    row_args.push(render_string_pairs(&capture.metadata));
    row_args.push(created);
    row_args.push(edited);
    row_args.push(String::new());
    let _ = exec_sql(
        &conn,
        "INSERT OR REPLACE INTO captures (capture_id, timestamp, content, context, modalities, location, metadata, created_date, last_edited_date, file_path) VALUES (?1, ?2, ?3, ?4, ?5, ?6, ?7, ?8, ?9, ?10)",
        &row_args,
    );

    let tags = normalize_entries(&capture.tags);
    for i in 0..tags.len() {
        let mut args: Vec<String> = Vec::new();
        args.push(tags[i].clone());
        args.push(capture_id.clone());
        args.push(ts.clone());
        let _ = exec_sql(
            &conn,
            "INSERT INTO tags (value, capture_id, timestamp) VALUES (?1, ?2, ?3)",
            &args,
        );
    }

    let sources = normalize_entries(&capture.sources);
    for i in 0..sources.len() {
        let mut args: Vec<String> = Vec::new();
        args.push(sources[i].clone());
        args.push(capture_id.clone());
        args.push(ts.clone());
        let _ = exec_sql(
            &conn,
            "INSERT INTO sources (value, capture_id, timestamp) VALUES (?1, ?2, ?3)",
            &args,
        );
    }

    match &capture.context {
        ContextInput::Text(s) => {
            let t = trimmed(s.as_str());
            if t.as_str().unicode_len() > 0 {
                let mut args: Vec<String> = Vec::new();
                args.push(t);
                args.push(capture_id.clone());
                args.push(ts.clone());
                let _ = exec_sql(
                    &conn,
                    "INSERT INTO contexts (value, capture_id, timestamp) VALUES (?1, ?2, ?3)",
                    &args,
                );
            }
        },
        _ => {},
    }

    for i in 0..capture.media_files.len() {
        let mut args: Vec<String> = Vec::new();
        args.push(capture.media_files[i].path.clone());
        args.push(capture.media_files[i].mtype.clone());
        args.push(capture.media_files[i].name.clone());
        args.push(capture_id.clone());
        args.push(ts.clone());
        let _ = exec_sql(
            &conn,
            "INSERT INTO media_files (file_path, file_type, file_name, capture_id, timestamp) VALUES (?1, ?2, ?3, ?4, ?5)",
            &args,
        );
    }
}

// ---------------------------------------------------------------------
// Reading back
// ---------------------------------------------------------------------

/// The answer an exact-match count gives: the value exists when at
/// least one row holds it.
pub fn exists_of(count: i64) -> (r: Exists)
    ensures
        r.exists == (count > 0),
{
    Exists { exists: count > 0 }
}

/// Whether an exact value has been recorded for a field.  An unknown
/// field selector yields `false`, never a failure, as does any storage
/// error (the count degrades to zero).  Whatever count the storage
/// reports is turned into the answer by [`exists_of`].
pub fn suggestion_exists(db_file: &str, field: &str, value: &str) -> (r: Exists)
    ensures
        parse_field_spec(field@) is None ==> !r.exists,
{
    let kind = match parse_field(field) {
        Some(k) => k,
        None => {
            return exists_of(0);
        },
    };
    let conn = match open_connection(db_file) {
        Some(c) => c,
        None => {
            return exists_of(0);
        },
    };
    init_database(&conn);
    let mut sql = "SELECT COUNT(*) FROM ".to_owned();
    sql.append(table_name(kind));
    sql.append(" WHERE value = ?1");
    let mut args: Vec<String> = Vec::new();
    args.push(value.to_owned());
    let count = query_count(&conn, sql.as_str(), &args);
    exists_of(count)
}

/// Assemble the answer of a recent-values lookup: each category is
/// present exactly when it has rows, and the context is a single value.
pub fn assemble_recent(tags: Vec<String>, sources: Vec<String>, context: Option<String>) -> (r:
    RecentValues)
    ensures
        tags@.len() == 0 <==> r.tags is None,
        tags@.len() > 0 ==> r.tags == Some(tags),
        sources@.len() == 0 <==> r.sources is None,
        sources@.len() > 0 ==> r.sources == Some(sources),
        context is None <==> r.context is None,
        context is Some ==> (r.context is Some && r.context->0@.len() == 1 && r.context->0@[0]
            == context->0),
{
    let t: Option<Vec<String>> = if tags.len() > 0 {
        Some(tags)
    } else {
        None
    };
    let s: Option<Vec<String>> = if sources.len() > 0 {
        Some(sources)
    } else {
        None
    };
    let c: Option<Vec<String>> = match context {
        Some(v) => {
            let mut one: Vec<String> = Vec::new();
            one.push(v);
            Some(one)
        },
        None => None,
    };
    RecentValues { tags: t, sources: s, context: c }
}

// ---------------------------------------------------------------------
// Scoring and ranking
// ---------------------------------------------------------------------

/// What lowercasing yields: a function of the characters alone.
pub uninterp spec fn lower_of(s: Seq<char>) -> Seq<char>;

/// Relies on str::to_lowercase: the result depends on the characters
/// alone, named by [`lower_of`]; an empty string stays empty.
#[verifier::external_body]
fn lowercase(s: &str) -> (r: String)
    ensures
        r@ == lower_of(s@),
        s@.len() == 0 ==> r@.len() == 0,
{
    s.to_lowercase()
}

/// The popularity boost of a candidate: ten per use, capped at 100.
pub open spec fn boost_spec(count: int) -> int {
    if count * 10 < 100 {
        count * 10
    } else {
        100
    }
}

/// The score of one lowered candidate against the lowered query, `None`
/// when the candidate is excluded.  The branch order is part of the
/// contract: equal, then prefix, then substring, then the longest common
/// leading run (a candidate sharing no leading character is excluded).
pub open spec fn score_spec(vl: Seq<char>, ql: Seq<char>, count: int) -> Option<int> {
    if vl == ql {
        Option::Some(1000 + boost_spec(count))
    } else if ql.is_prefix_of(vl) {
        Option::Some(800 + boost_spec(count))
    } else if contains_seq(vl, ql) {
        Option::Some(600 + boost_spec(count))
    } else if common_prefix(vl, ql) > 0 {
        Option::Some(common_prefix(vl, ql) * 50 + boost_spec(count))
    } else {
        Option::None
    }
}

fn score_item(value: &str, ql: &str, count: i64) -> (r: Option<u128>)
    requires
        0 <= count,
    ensures
        r is Some <==> score_spec(lower_of(value@), ql@, count as int) is Some,
        r matches Some(s) ==> s as int == score_spec(lower_of(value@), ql@, count as int)->0,
{
    let vl = lowercase(value);
    let boost: u128 = if count >= 10 {
        100
    } else {
        (count as u128) * 10
    };
    if str_eq(vl.as_str(), ql) {
        Some(1000 + boost)
    } else if starts_with_str(vl.as_str(), ql) {
        Some(800 + boost)
    } else if contains_str(vl.as_str(), ql) {
        Some(600 + boost)
    } else {
        let common = common_prefix_len(vl.as_str(), ql);
        if common > 0 {
            Some((common as u128) * 50 + boost)
        } else {
            None
        }
    }
}

/// The scored candidates of a fetched row sequence, in table order.
pub open spec fn scored_seq(rows: Seq<SuggestionItem>, ql: Seq<char>) -> Seq<
    (int, SuggestionItem),
>
    decreases rows.len(),
{
    if rows.len() == 0 {
        Seq::empty()
    } else {
        let rest = scored_seq(rows.drop_last(), ql);
        match score_spec(lower_of(rows.last().value@), ql, rows.last().count as int) {
            Option::Some(s) => rest.push((s, rows.last())),
            Option::None => rest,
        }
    }
}

/// Stable insertion of one scored candidate into a descending sequence:
/// it goes after every candidate scoring at least as much.
pub open spec fn insert_desc(
    x: (int, SuggestionItem),
    s: Seq<(int, SuggestionItem)>,
) -> Seq<(int, SuggestionItem)>
    decreases s.len(),
{
    if s.len() == 0 {
        seq![x]
    } else if x.0 > s[0].0 {
        seq![x] + s
    } else {
        seq![s[0]] + insert_desc(x, s.drop_first())
    }
}

/// Stable sort by score descending: candidates inserted in their given
/// order, ties keeping the earlier candidate first.
pub open spec fn sort_desc(s: Seq<(int, SuggestionItem)>) -> Seq<(int, SuggestionItem)>
    decreases s.len(),
{
    if s.len() == 0 {
        Seq::empty()
    } else {
        insert_desc(s.last(), sort_desc(s.drop_last()))
    }
}

/// The candidates without their scores.
pub open spec fn drop_scores(s: Seq<(int, SuggestionItem)>) -> Seq<SuggestionItem>
    decreases s.len(),
{
    if s.len() == 0 {
        Seq::empty()
    } else {
        drop_scores(s.drop_last()).push(s.last().1)
    }
}

/// The first `k` of a sequence, or all of it when shorter.
pub open spec fn take_at_most(s: Seq<SuggestionItem>, k: int) -> Seq<SuggestionItem> {
    if s.len() <= k {
        s
    } else {
        s.take(k)
    }
}

/// The ranked suggestions for a query: with a blank query, the first
/// `limit` rows in their given (recency) order; otherwise the scored
/// candidates, stably sorted by score descending, the first `limit`.
pub open spec fn rank_spec(rows: Seq<SuggestionItem>, q: Seq<char>, limit: int) -> Seq<
    SuggestionItem,
> {
    if is_blank(q) {
        take_at_most(rows, limit)
    } else {
        take_at_most(drop_scores(sort_desc(scored_seq(rows, lower_of(q)))), limit)
    }
}

/// The mathematical view of the executable scored pairs.
pub open spec fn scored_view(s: Seq<(u128, SuggestionItem)>) -> Seq<(int, SuggestionItem)> {
    Seq::new(s.len(), |i: int| (s[i].0 as int, s[i].1))
}

proof fn lemma_insert_desc_at(x: (int, SuggestionItem), s: Seq<(int, SuggestionItem)>, idx: int)
    requires
        0 <= idx <= s.len(),
        forall|j: int| 0 <= j < idx ==> s[j].0 >= x.0,
        idx < s.len() ==> s[idx].0 < x.0,
    ensures
        insert_desc(x, s) == s.take(idx) + seq![x] + s.skip(idx),
    decreases idx,
{
    if idx == 0 {
        if s.len() == 0 {
            assert(insert_desc(x, s) =~= s.take(0) + seq![x] + s.skip(0));
        } else {
            assert(x.0 > s[0].0);
            assert(seq![x] + s =~= s.take(0) + seq![x] + s.skip(0));
        }
    } else {
        assert(s[0].0 >= x.0);
        let rest = s.drop_first();
        assert(rest =~= s.skip(1));
        assert(forall|j: int| 0 <= j < idx - 1 ==> rest[j] == s[j + 1]);
        lemma_insert_desc_at(x, rest, idx - 1);
        assert(seq![s[0]] + (rest.take(idx - 1) + seq![x] + rest.skip(idx - 1)) =~= s.take(idx)
            + seq![x] + s.skip(idx));
    }
}

fn insert_sorted(sorted: &mut Vec<(u128, SuggestionItem)>, x: (u128, SuggestionItem))
    ensures
        scored_view(final(sorted)@) == insert_desc(
            (x.0 as int, x.1),
            scored_view(old(sorted)@),
        ),
{
    let n = sorted.len();
    let mut idx: usize = 0;
    while idx < n && sorted[idx].0 >= x.0
        invariant
            0 <= idx <= n == sorted@.len(),
            sorted@ == old(sorted)@,
            forall|j: int| 0 <= j < idx ==> sorted@[j].0 >= x.0,
        decreases n - idx,
    {
        idx = idx + 1;
    }
    let ghost sv = scored_view(sorted@);
    let ghost xi = (x.0 as int, x.1);
    proof {
        assert(forall|j: int| 0 <= j < idx ==> sv[j].0 >= xi.0);
        assert(idx < n ==> sv[idx as int].0 < xi.0);
        lemma_insert_desc_at(xi, sv, idx as int);
    }
    sorted.insert(idx, x);
    proof {
        assert(scored_view(sorted@) =~= sv.take(idx as int) + seq![xi] + sv.skip(idx as int));
    }
}

/// Reverse a vector (so that popping yields the original order).
fn reversed<T>(v: Vec<T>) -> (r: Vec<T>)
    ensures
        r@.len() == v@.len(),
        forall|j: int| 0 <= j < v@.len() ==> r@[j] == v@[v@.len() - 1 - j],
{
    let mut v = v;
    let ghost orig = v@;
    let mut r: Vec<T> = Vec::new();
    while v.len() > 0
        invariant
            v@.len() + r@.len() == orig.len(),
            v@ == orig.take(v@.len() as int),
            forall|j: int| 0 <= j < r@.len() ==> r@[j] == orig[orig.len() - 1 - j],
        decreases v@.len(),
    {
        let ghost k = v@.len() - 1;
        let x = v.pop().unwrap();
        proof {
            assert(orig.take(k + 1)[k] == orig[k]);
        }
        r.push(x);
        proof {
            assert(orig.take(k + 1).subrange(0, k) =~= orig.take(k));
        }
    }
    r
}

/// Keep only the first `limit` entries.
fn take_first(v: &mut Vec<SuggestionItem>, limit: usize)
    ensures
        final(v)@ == take_at_most(old(v)@, limit as int),
{
    proof {
        assert(old(v)@.take(old(v)@.len() as int) =~= old(v)@);
    }
    while v.len() > limit
        invariant
            v@ == old(v)@.take(v@.len() as int),
            v@.len() <= old(v)@.len(),
            v@.len() >= limit || v@ == old(v)@,
        decreases v@.len(),
    {
        let ghost k = v@.len() - 1;
        let _ = v.pop();
        proof {
            assert(old(v)@.take(k + 1).subrange(0, k) =~= old(v)@.take(k));
        }
    }
    proof {
        if old(v)@.len() <= limit {
            assert(old(v)@.take(old(v)@.len() as int) =~= old(v)@);
        }
    }
}

/// Rank fetched rows against a query: the exact specification of the
/// suggestion ordering.  Row counts are occurrence counts and so never
/// negative.
pub fn rank_suggestions(rows: Vec<SuggestionItem>, query: &str, limit: usize) -> (r: Vec<
    SuggestionItem,
>)
    requires
        forall|i: int| 0 <= i < rows@.len() ==> 0 <= #[trigger] rows@[i].count,
    ensures
        r@ == rank_spec(rows@, query@, limit as int),
        forall|i: int| 0 <= i < r@.len() ==> rows@.contains(#[trigger] r@[i]),
{
    proof {
        lemma_rank_members(rows@, query@, limit as int);
    }
    let ghost orig = rows@;
    if blank(query) {
        let mut out = rows;
        take_first(&mut out, limit);
        return out;
    }
    let ql = lowercase(query);

    let mut rev = reversed(rows);
    let mut scored: Vec<(u128, SuggestionItem)> = Vec::new();
    proof {
        assert(orig.take(0) =~= Seq::<SuggestionItem>::empty());
        assert(scored_view(scored@) =~= scored_seq(orig.take(0), ql@));
    }
    while rev.len() > 0
        invariant
            rev@.len() <= orig.len(),
            forall|j: int| 0 <= j < rev@.len() ==> rev@[j] == orig[orig.len() - 1 - j],
            scored_view(scored@) == scored_seq(orig.take(orig.len() - rev@.len()), ql@),
            ql@ == lower_of(query@),
            forall|i: int| 0 <= i < orig.len() ==> 0 <= #[trigger] orig[i].count,
        decreases rev@.len(),
    {
        let ghost k = orig.len() - rev@.len();
        let x = rev.pop().unwrap();
        proof {
            assert(x == orig[k]);
        }
        let sc = score_item(x.value.as_str(), ql.as_str(), x.count);
        let ghost pre = scored_view(scored@);
        match sc {
            Some(s) => {
                scored.push((s, x));
                proof {
                    assert(scored_view(scored@) =~= pre.push((s as int, orig[k])));
                }
            },
            None => {},
        }
        proof {
            let next = orig.take(k + 1);
            assert(next.drop_last() =~= orig.take(k));
            assert(next.last() == orig[k]);
            assert(scored_view(scored@) =~= scored_seq(next, ql@));
        }
    }
    proof {
        assert(orig.take(orig.len() as int) =~= orig);
    }

    let ghost sc_orig = scored@;
    let ghost allscored = scored_view(sc_orig);
    let mut srev = reversed(scored);
    let mut sorted: Vec<(u128, SuggestionItem)> = Vec::new();
    proof {
        assert(allscored.take(0) =~= Seq::<(int, SuggestionItem)>::empty());
        assert(scored_view(sorted@) =~= sort_desc(allscored.take(0)));
    }
    while srev.len() > 0
        invariant
            srev@.len() <= sc_orig.len(),
            forall|j: int| 0 <= j < srev@.len() ==> srev@[j] == sc_orig[sc_orig.len() - 1 - j],
            scored_view(sorted@) == sort_desc(allscored.take(sc_orig.len() - srev@.len())),
            allscored == scored_view(sc_orig),
        decreases srev@.len(),
    {
        let ghost k = sc_orig.len() - srev@.len();
        let x = srev.pop().unwrap();
        proof {
            assert(x == sc_orig[k]);
            assert(allscored[k] == (sc_orig[k].0 as int, sc_orig[k].1));
        }
        insert_sorted(&mut sorted, x);
        proof {
            let next = allscored.take(k + 1);
            assert(next.drop_last() =~= allscored.take(k));
            assert(next.last() == allscored[k]);
            assert(scored_view(sorted@) =~= sort_desc(next));
        }
    }
    proof {
        assert(allscored.take(sc_orig.len() as int) =~= allscored);
    }

    let ghost s_exec = sorted@;
    let ghost sorted_view_final = scored_view(s_exec);
    let mut drev = reversed(sorted);
    let mut out: Vec<SuggestionItem> = Vec::new();
    proof {
        assert(sorted_view_final.take(0) =~= Seq::<(int, SuggestionItem)>::empty());
        assert(out@ =~= drop_scores(sorted_view_final.take(0)));
    }
    while drev.len() > 0
        invariant
            drev@.len() <= s_exec.len(),
            forall|j: int| 0 <= j < drev@.len() ==> drev@[j] == s_exec[s_exec.len() - 1 - j],
            out@ == drop_scores(sorted_view_final.take(s_exec.len() - drev@.len())),
            sorted_view_final == scored_view(s_exec),
        decreases drev@.len(),
    {
        let ghost k = s_exec.len() - drev@.len();
        let x = drev.pop().unwrap();
        proof {
            assert(x == s_exec[k]);
            assert(sorted_view_final[k] == (s_exec[k].0 as int, s_exec[k].1));
        }
        let (_, item) = x;
        out.push(item);
        proof {
            let next = sorted_view_final.take(k + 1);
            assert(next.drop_last() =~= sorted_view_final.take(k));
            assert(next.last() == sorted_view_final[k]);
            assert(out@ =~= drop_scores(next));
        }
    }
    proof {
        assert(sorted_view_final.take(s_exec.len() as int) =~= sorted_view_final);
    }
    take_first(&mut out, limit);
    out
}

proof fn lemma_insert_desc_members(x: (int, SuggestionItem), s: Seq<(int, SuggestionItem)>)
    ensures
        insert_desc(x, s).len() == s.len() + 1,
        forall|i: int|
            0 <= i < insert_desc(x, s).len() ==> (#[trigger] insert_desc(x, s)[i] == x
                || s.contains(insert_desc(x, s)[i])),
    decreases s.len(),
{
    if s.len() == 0 {
    } else if x.0 > s[0].0 {
        assert forall|i: int| 0 <= i < insert_desc(x, s).len() implies (
        #[trigger] insert_desc(x, s)[i] == x || s.contains(insert_desc(x, s)[i])) by {
            if i >= 1 {
                assert(insert_desc(x, s)[i] == s[i - 1]);
            }
        }
    } else {
        let rest = insert_desc(x, s.drop_first());
        lemma_insert_desc_members(x, s.drop_first());
        assert forall|i: int| 0 <= i < insert_desc(x, s).len() implies (
        #[trigger] insert_desc(x, s)[i] == x || s.contains(insert_desc(x, s)[i])) by {
            if i == 0 {
                assert(insert_desc(x, s)[0] == s[0]);
            } else {
                assert(insert_desc(x, s)[i] == rest[i - 1]);
                if rest[i - 1] != x {
                    let j = choose|j: int|
                        0 <= j < s.drop_first().len() && s.drop_first()[j] == rest[i - 1];
                    assert(s[j + 1] == rest[i - 1]);
                }
            }
        }
    }
}

proof fn lemma_sort_desc_members(s: Seq<(int, SuggestionItem)>)
    ensures
        sort_desc(s).len() == s.len(),
        forall|i: int|
            0 <= i < sort_desc(s).len() ==> s.contains(#[trigger] sort_desc(s)[i]),
    decreases s.len(),
{
    if s.len() > 0 {
        let rest = s.drop_last();
        lemma_sort_desc_members(rest);
        lemma_insert_desc_members(s.last(), sort_desc(rest));
        assert forall|i: int| 0 <= i < sort_desc(s).len() implies s.contains(
            #[trigger] sort_desc(s)[i],
        ) by {
            let y = sort_desc(s)[i];
            if y == s.last() {
                assert(s[s.len() - 1] == y);
            } else {
                assert(sort_desc(rest).contains(y));
                let j = choose|j: int| 0 <= j < sort_desc(rest).len() && sort_desc(rest)[j] == y;
                let k = choose|k: int| 0 <= k < rest.len() && rest[k] == y;
                assert(s[k] == y);
            }
        }
    }
}

proof fn lemma_scored_members(rows: Seq<SuggestionItem>, ql: Seq<char>)
    ensures
        forall|i: int|
            0 <= i < scored_seq(rows, ql).len() ==> rows.contains(
                (#[trigger] scored_seq(rows, ql)[i]).1,
            ),
    decreases rows.len(),
{
    if rows.len() > 0 {
        let rest = rows.drop_last();
        lemma_scored_members(rest, ql);
        assert forall|i: int| 0 <= i < scored_seq(rows, ql).len() implies rows.contains(
            (#[trigger] scored_seq(rows, ql)[i]).1,
        ) by {
            let p = scored_seq(rows, ql)[i];
            if i < scored_seq(rest, ql).len() {
                assert(scored_seq(rest, ql)[i] == p);
                assert(rest.contains(p.1));
                let k = choose|k: int| 0 <= k < rest.len() && rest[k] == p.1;
                assert(rows[k] == p.1);
            } else {
                assert(p.1 == rows.last());
                assert(rows[rows.len() - 1] == p.1);
            }
        }
    }
}

proof fn lemma_drop_scores_indexes(s: Seq<(int, SuggestionItem)>)
    ensures
        drop_scores(s).len() == s.len(),
        forall|i: int| 0 <= i < s.len() ==> #[trigger] drop_scores(s)[i] == s[i].1,
    decreases s.len(),
{
    if s.len() > 0 {
        lemma_drop_scores_indexes(s.drop_last());
        assert forall|i: int| 0 <= i < s.len() implies #[trigger] drop_scores(s)[i]
            == s[i].1 by {
            if i < s.len() - 1 {
                assert(drop_scores(s.drop_last())[i] == s.drop_last()[i].1);
            }
        }
    }
}

/// Ranking invents nothing: every ranked suggestion is one of the given
/// rows, unchanged.
pub proof fn lemma_rank_members(rows: Seq<SuggestionItem>, q: Seq<char>, limit: int)
    requires
        0 <= limit,
    ensures
        forall|i: int|
            0 <= i < rank_spec(rows, q, limit).len() ==> rows.contains(
                #[trigger] rank_spec(rows, q, limit)[i],
            ),
{
    if is_blank(q) {
        assert forall|i: int| 0 <= i < rank_spec(rows, q, limit).len() implies rows.contains(
            #[trigger] rank_spec(rows, q, limit)[i],
        ) by {
            assert(rank_spec(rows, q, limit)[i] == rows[i]);
        }
    } else {
        let scored = scored_seq(rows, lower_of(q));
        let sorted = sort_desc(scored);
        lemma_scored_members(rows, lower_of(q));
        lemma_sort_desc_members(scored);
        lemma_drop_scores_indexes(sorted);
        assert forall|i: int| 0 <= i < rank_spec(rows, q, limit).len() implies rows.contains(
            #[trigger] rank_spec(rows, q, limit)[i],
        ) by {
            assert(rank_spec(rows, q, limit)[i] == drop_scores(sorted)[i]);
            assert(drop_scores(sorted)[i] == sorted[i].1);
            assert(scored.contains(sorted[i]));
            let j = choose|j: int| 0 <= j < scored.len() && scored[j] == sorted[i];
            assert(rows.contains(scored[j].1));
        }
    }
}

/// An exact match outranks every other candidate, whatever either
/// count: the exact score is at least 1000, and no other candidate can
/// reach it while the query stays short enough (eighteen characters or
/// fewer) that a long common leading run cannot overtake it.
pub proof fn lemma_exact_score_dominates(
    other: Seq<char>,
    ql: Seq<char>,
    c_exact: int,
    c_other: int,
)
    requires
        other != ql,
        ql.len() <= 18,
        0 <= c_exact,
        0 <= c_other,
        score_spec(other, ql, c_other) is Some,
    ensures
        score_spec(ql, ql, c_exact)->0 > score_spec(other, ql, c_other)->0,
{
    assert(0 <= boost_spec(c_exact) <= 100);
    assert(0 <= boost_spec(c_other) <= 100);
    if !ql.is_prefix_of(other) && !contains_seq(other, ql) {
        crate::text::lemma_common_prefix_le(other, ql);
        if common_prefix(other, ql) == ql.len() {
            crate::text::lemma_common_prefix_full(other, ql);
            assert(false);
        }
    }
}

proof fn lemma_insert_desc_head(x: (int, SuggestionItem), s: Seq<(int, SuggestionItem)>)
    ensures
        insert_desc(x, s).len() == s.len() + 1,
        insert_desc(x, s)[0].0 >= x.0,
        s.len() > 0 ==> insert_desc(x, s)[0].0 >= s[0].0,
    decreases s.len(),
{
    if s.len() > 0 && !(x.0 > s[0].0) {
        lemma_insert_desc_head(x, s.drop_first());
    }
}

/// The head of the sort outscores every scored candidate.
pub proof fn lemma_sort_desc_head(s: Seq<(int, SuggestionItem)>)
    requires
        s.len() > 0,
    ensures
        sort_desc(s).len() == s.len(),
        forall|i: int| 0 <= i < s.len() ==> sort_desc(s)[0].0 >= #[trigger] s[i].0,
    decreases s.len(),
{
    let rest = s.drop_last();
    lemma_insert_desc_head(s.last(), sort_desc(rest));
    if rest.len() > 0 {
        lemma_sort_desc_head(rest);
        assert forall|i: int| 0 <= i < s.len() implies sort_desc(s)[0].0 >= #[trigger] s[i].0 by {
            if i < s.len() - 1 {
                assert(rest[i] == s[i]);
                assert(sort_desc(rest)[0].0 >= rest[i].0);
            }
        }
    }
}

/// The fetched aggregates turned into suggestion rows, order preserved:
/// the value and last-use stamp unchanged, the count clamped at zero (an
/// occurrence count is never negative), the color always empty.
pub fn items_of(raw: Vec<(String, i64, String)>) -> (r: Vec<SuggestionItem>)
    ensures
        r@.len() == raw@.len(),
        forall|i: int|
            0 <= i < raw@.len() ==> {
                &&& (#[trigger] r@[i]).value@ == raw@[i].0@
                &&& r@[i].count == (if raw@[i].1 < 0 {
                    0i64
                } else {
                    raw@[i].1
                })
                &&& r@[i].last_used@ == raw@[i].2@
                &&& r@[i].color@.len() == 0
            },
{
    let ghost orig = raw@;
    let mut rev = reversed(raw);
    let mut rows: Vec<SuggestionItem> = Vec::new();
    while rev.len() > 0
        invariant
            rev@.len() <= orig.len(),
            forall|j: int| 0 <= j < rev@.len() ==> rev@[j] == orig[orig.len() - 1 - j],
            rows@.len() == orig.len() - rev@.len(),
            forall|i: int|
                0 <= i < rows@.len() ==> {
                    &&& (#[trigger] rows@[i]).value@ == orig[i].0@
                    &&& rows@[i].count == (if orig[i].1 < 0 {
                        0i64
                    } else {
                        orig[i].1
                    })
                    &&& rows@[i].last_used@ == orig[i].2@
                    &&& rows@[i].color@.len() == 0
                },
        decreases rev@.len(),
    {
        let ghost k = orig.len() - rev@.len();
        let x = rev.pop().unwrap();
        proof {
            assert(x == orig[k]);
        }
        let (value, count, last_used) = x;
        rows.push(
            SuggestionItem {
                value,
                count: if count < 0 {
                    0
                } else {
                    count
                },
                last_used,
                color: String::new(),
            },
        );
    }
    rows
}

/// The ranked auto-complete suggestions for a field and query, at most
/// `limit` of them; an unknown field or unreadable storage yields an
/// empty sequence, never a failure.  Whatever aggregates the storage
/// reports are turned into rows by [`items_of`] and ordered exactly by
/// [`rank_spec`] through [`rank_suggestions`].
pub fn get_suggestions(db_file: &str, field: &str, query: &str, limit: usize) -> (r: Vec<
    SuggestionItem,
>)
    ensures
        parse_field_spec(field@) is None ==> r@ == Seq::<SuggestionItem>::empty(),
        r@.len() <= limit,
        forall|i: int|
            0 <= i < r@.len() ==> 0 <= (#[trigger] r@[i]).count && r@[i].color@.len() == 0,
{
    let empty: Vec<SuggestionItem> = Vec::new();
    proof {
        assert(empty@ =~= Seq::<SuggestionItem>::empty());
    }
    let kind = match parse_field(field) {
        Some(k) => k,
        None => {
            return empty;
        },
    };
    let conn = match open_connection(db_file) {
        Some(c) => c,
        None => {
            return empty;
        },
    };
    init_database(&conn);
    let mut sql = "SELECT value, COUNT(*) as count, MAX(timestamp) as last_used FROM ".to_owned();
    sql.append(table_name(kind));
    sql.append(" GROUP BY value ORDER BY last_used DESC");
    let no_args: Vec<String> = Vec::new();
    let raw = query_rows3(&conn, sql.as_str(), &no_args);
    let rows = items_of(raw);
    let ghost rows_view = rows@;
    let r = rank_suggestions(rows, query, limit);
    proof {
        assert forall|i: int| 0 <= i < r@.len() implies 0 <= (#[trigger] r@[i]).count
            && r@[i].color@.len() == 0 by {
            assert(rows_view.contains(r@[i]));
            let j = choose|j: int| 0 <= j < rows_view.len() && rows_view[j] == r@[i];
        }
    }
    r
}

/// The tag, source and context values of the single most recent capture,
/// each category only when it has rows; empty when no capture exists or
/// the storage cannot be read.
pub fn recent_values(db_file: &str) -> (r: RecentValues)
    ensures
        r.tags matches Some(t) ==> t@.len() > 0,
        r.sources matches Some(s) ==> s@.len() > 0,
        r.context matches Some(c) ==> c@.len() == 1,
{
    let empty = RecentValues { tags: None, sources: None, context: None };
    let conn = match open_connection(db_file) {
        Some(c) => c,
        None => {
            return empty;
        },
    };
    init_database(&conn);
    let no_args: Vec<String> = Vec::new();
    let mut cids = query_strings(
        &conn,
        "SELECT capture_id FROM captures ORDER BY timestamp DESC LIMIT 1",
        &no_args,
    );
    if cids.len() == 0 {
        return empty;
    }
    let cid = cids.remove(0);
    let mut args: Vec<String> = Vec::new();
    args.push(cid);
    let tags = query_strings(
        &conn,
        "SELECT value FROM tags WHERE capture_id = ?1 ORDER BY timestamp DESC",
        &args,
    );
    let sources = query_strings(
        &conn,
        "SELECT value FROM sources WHERE capture_id = ?1 ORDER BY timestamp DESC",
        &args,
    );
    let mut ctxs = query_strings(
        &conn,
        "SELECT value FROM contexts WHERE capture_id = ?1 ORDER BY timestamp DESC LIMIT 1",
        &args,
    );
    let context: Option<String> = if ctxs.len() > 0 {
        Some(ctxs.remove(0))
    } else {
        None
    };
    assemble_recent(tags, sources, context)
}

} // verus!
