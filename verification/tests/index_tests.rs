use kms_capture::capture::{ContextInput, FieldInput, RawCapture};
use kms_capture::index::{
    Exists, SuggestionItem, get_suggestions, rank_suggestions, recent_values, store_capture_data,
    suggestion_exists,
};

fn item(value: &str, count: i64, last_used: &str) -> SuggestionItem {
    SuggestionItem {
        value: value.to_string(),
        count,
        last_used: last_used.to_string(),
        color: String::new(),
    }
}

fn capture(id: &str, tags: &str, sources: &str, context: &str) -> RawCapture {
    RawCapture {
        timestamp: None,
        capture_id: Some(id.to_string()),
        content: Some("body".to_string()),
        clipboard: None,
        context: if context.is_empty() {
            ContextInput::Absent
        } else {
            ContextInput::Text(context.to_string())
        },
        tags: if tags.is_empty() {
            FieldInput::Absent
        } else {
            FieldInput::Text(tags.to_string())
        },
        sources: if sources.is_empty() {
            FieldInput::Absent
        } else {
            FieldInput::Text(sources.to_string())
        },
        modalities: None,
        location: None,
        metadata: Vec::new(),
        media_files: Vec::new(),
        created_date: None,
        last_edited_date: None,
    }
}

const BAD_DB: &str = "/nonexistent-kms-dir/suggestions.db";

#[test]
fn ranking_prefers_prefix_then_count() {
    let rows = vec![item("alpha", 5, "t3"), item("albert", 1, "t2"), item("beta", 9, "t1")];
    let ranked = rank_suggestions(rows, "al", 10);
    let values: Vec<&str> = ranked.iter().map(|s| s.value.as_str()).collect();
    assert_eq!(values, vec!["alpha", "albert"]);
}

#[test]
fn exact_query_ranks_exact_match_first() {
    let rows = vec![item("alpha", 5, "t3"), item("albert", 1, "t2"), item("beta", 9, "t1")];
    let ranked = rank_suggestions(rows, "beta", 10);
    assert_eq!(ranked[0].value, "beta");

    let rows2 = vec![item("beta", 0, "t3"), item("betamax", 999, "t2")];
    let ranked2 = rank_suggestions(rows2, "beta", 10);
    assert_eq!(ranked2[0].value, "beta");
}

#[test]
fn ranking_is_case_insensitive() {
    let rows = vec![item("Alpha", 1, "t2"), item("beta", 1, "t1")];
    let ranked = rank_suggestions(rows, "ALP", 10);
    let values: Vec<&str> = ranked.iter().map(|s| s.value.as_str()).collect();
    assert_eq!(values, vec!["Alpha"]);
}

#[test]
fn substring_outranks_common_prefix_only() {
    let rows = vec![item("prefix-ish", 0, "t2"), item("has core inside", 0, "t1")];
    let ranked = rank_suggestions(rows, "core", 10);
    assert_eq!(ranked[0].value, "has core inside");
}

#[test]
fn common_leading_run_scores_and_zero_run_excludes() {
    let rows = vec![item("cornet", 0, "t2"), item("zzz", 0, "t1")];
    let ranked = rank_suggestions(rows, "core", 10);
    let values: Vec<&str> = ranked.iter().map(|s| s.value.as_str()).collect();
    assert_eq!(values, vec!["cornet"]);
}

#[test]
fn blank_query_keeps_recency_order_up_to_limit() {
    let rows = vec![item("newest", 1, "t3"), item("older", 7, "t2"), item("oldest", 9, "t1")];
    let ranked = rank_suggestions(rows, "  ", 2);
    let values: Vec<&str> = ranked.iter().map(|s| s.value.as_str()).collect();
    assert_eq!(values, vec!["newest", "older"]);
}

#[test]
fn equal_scores_keep_recency_order() {
    let rows = vec![item("alpine", 2, "t3"), item("alpaca", 2, "t2")];
    let ranked = rank_suggestions(rows, "alp", 10);
    let values: Vec<&str> = ranked.iter().map(|s| s.value.as_str()).collect();
    assert_eq!(values, vec!["alpine", "alpaca"]);
}

#[test]
fn unknown_field_yields_empty_and_false() {
    let suggestions = get_suggestions(BAD_DB, "bogus", "x", 10);
    assert!(suggestions.is_empty());
    let e: Exists = suggestion_exists(BAD_DB, "bogus", "x");
    assert!(!e.exists);
}

#[test]
fn unreadable_storage_degrades_to_empty() {
    let suggestions = get_suggestions(BAD_DB, "tag", "x", 10);
    assert!(suggestions.is_empty());
    assert!(!suggestion_exists(BAD_DB, "tag", "x").exists);
}

#[test]
fn recent_values_on_empty_index_is_empty() {
    let rv = recent_values(BAD_DB);
    assert!(rv.tags.is_none());
    assert!(rv.sources.is_none());
    assert!(rv.context.is_none());
}

#[test]
fn recent_values_after_one_capture_holds_its_tags_only() {
    let db = "file:kms_recent_one?mode=memory&cache=shared";
    let keeper = rusqlite::Connection::open(db).expect("shared memory db");
    store_capture_data(db, &capture("c1", "a,b", "", ""));
    let rv = recent_values(db);
    assert_eq!(rv.tags, Some(vec!["a".to_string(), "b".to_string()]));
    assert!(rv.sources.is_none());
    assert!(rv.context.is_none());
    drop(keeper);
}

#[test]
fn recent_values_follows_the_latest_capture() {
    let db = "file:kms_recent_two?mode=memory&cache=shared";
    let keeper = rusqlite::Connection::open(db).expect("shared memory db");
    store_capture_data(db, &capture("c1", "old", "feed", "desk"));
    keeper
        .execute("UPDATE captures SET timestamp = '2020-01-01T00:00:00Z' WHERE capture_id = 'c1'", [])
        .expect("age the first capture");
    store_capture_data(db, &capture("c2", "fresh", "", "train"));
    let rv = recent_values(db);
    assert_eq!(rv.tags, Some(vec!["fresh".to_string()]));
    assert!(rv.sources.is_none());
    assert_eq!(rv.context, Some(vec!["train".to_string()]));
    drop(keeper);
}

#[test]
fn suggestions_come_back_from_recorded_captures() {
    let db = "file:kms_suggest?mode=memory&cache=shared";
    let keeper = rusqlite::Connection::open(db).expect("shared memory db");
    store_capture_data(db, &capture("c1", "alpha, albert", "", ""));
    store_capture_data(db, &capture("c2", "alpha", "", ""));
    store_capture_data(db, &capture("c3", "beta", "", ""));
    let ranked = get_suggestions(db, "tag", "al", 10);
    let values: Vec<&str> = ranked.iter().map(|s| s.value.as_str()).collect();
    assert_eq!(values, vec!["alpha", "albert"]);
    assert_eq!(ranked[0].count, 2);
    assert_eq!(ranked[0].color, "");
    assert!(suggestion_exists(db, "tag", "alpha").exists);
    assert!(!suggestion_exists(db, "tag", "alp").exists);
    drop(keeper);
}

#[test]
fn context_and_source_fields_are_queryable() {
    let db = "file:kms_fields?mode=memory&cache=shared";
    let keeper = rusqlite::Connection::open(db).expect("shared memory db");
    store_capture_data(db, &capture("c1", "", "wiki", "  desk  "));
    assert!(suggestion_exists(db, "source", "wiki").exists);
    assert!(suggestion_exists(db, "context", "desk").exists);
    assert!(!suggestion_exists(db, "context", "  desk  ").exists);
    drop(keeper);
}

#[test]
fn limit_caps_the_suggestions() {
    let rows = vec![item("alpha", 1, "t3"), item("alps", 1, "t2"), item("albert", 1, "t1")];
    let ranked = rank_suggestions(rows, "al", 2);
    assert_eq!(ranked.len(), 2);
}

#[test]
fn fetched_aggregates_become_rows_with_clamped_counts() {
    let rows = kms_capture::index::items_of(vec![
        ("a".to_string(), 3, "t2".to_string()),
        ("b".to_string(), -7, "t1".to_string()),
    ]);
    assert_eq!(rows.len(), 2);
    assert_eq!(rows[0].value, "a");
    assert_eq!(rows[0].count, 3);
    assert_eq!(rows[0].last_used, "t2");
    assert_eq!(rows[0].color, "");
    assert_eq!(rows[1].count, 0);
}

#[test]
fn exists_answer_follows_the_count() {
    assert!(kms_capture::index::exists_of(1).exists);
    assert!(kms_capture::index::exists_of(42).exists);
    assert!(!kms_capture::index::exists_of(0).exists);
    assert!(!kms_capture::index::exists_of(-1).exists);
}
