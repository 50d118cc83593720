use snaptext::history::{
    parse_history_source, str_to_source, HistoryRecord, HistorySource, HistoryStore, NewHistoryRecord,
    MAX_HISTORY_RECORDS,
};

fn record(index: usize) -> NewHistoryRecord {
    NewHistoryRecord {
        source: HistorySource::Selection,
        source_text: format!("source {index}"),
        target_lang: "en".to_owned(),
        translated_text: format!("translated {index}"),
    }
}

#[test]
fn inserts_and_reads_recent_records() {
    let mut store = HistoryStore::in_memory().expect("history store");
    store.insert(record(1)).expect("insert record 1");
    store.insert(record(2)).expect("insert record 2");

    let recent = store.recent(10).expect("recent history");

    assert_eq!(recent.len(), 2);
    assert_eq!(recent[0].source_text, "source 2");
    assert_eq!(recent[1].source_text, "source 1");
}

#[test]
fn recent_uses_row_id_as_tiebreaker_when_timestamps_match() {
    let mut store = HistoryStore::in_memory().expect("history store");
    for index in 1..=3 {
        store.insert_at(record(index), 42).expect("insert timestamped record");
    }

    let recent = store.recent(10).expect("recent history");

    assert_eq!(recent.len(), 3);
    assert_eq!(recent[0].source_text, "source 3");
    assert_eq!(recent[1].source_text, "source 2");
    assert_eq!(recent[2].source_text, "source 1");
}

#[test]
fn clear_removes_all_records() {
    let mut store = HistoryStore::in_memory().expect("history store");
    store.insert(record(1)).expect("insert record");
    store.clear().expect("clear history");

    assert!(store.recent(10).expect("recent history").is_empty());
}

#[test]
fn keeps_only_latest_five_hundred_records() {
    let mut store = HistoryStore::in_memory().expect("history store");
    for index in 0..(MAX_HISTORY_RECORDS + 25) {
        store.insert(record(index)).expect("insert record");
    }

    let recent = store
        .recent(MAX_HISTORY_RECORDS + 25)
        .expect("recent history");

    assert_eq!(recent.len(), MAX_HISTORY_RECORDS);
    assert_eq!(recent.first().expect("newest").source_text, "source 524");
    assert_eq!(recent.last().expect("oldest kept").source_text, "source 25");
    assert!(recent.iter().all(|record| record.source_text != "source 24"));
}

#[test]
fn prune_keeps_newest_row_ids_when_timestamps_match() {
    let mut store = HistoryStore::in_memory().expect("history store");
    for index in 0..(MAX_HISTORY_RECORDS + 10) {
        let _ = store.insert_at(record(index), 42);
    }

    let recent = store
        .recent(MAX_HISTORY_RECORDS + 10)
        .expect("recent history");

    assert_eq!(recent.len(), MAX_HISTORY_RECORDS);
    assert_eq!(
        recent.first().expect("newest").source_text,
        format!("source {}", MAX_HISTORY_RECORDS + 9)
    );
    assert_eq!(recent.last().expect("oldest kept").source_text, "source 10");
    assert!(recent.iter().all(|record| record.source_text != "source 9"));
}

#[test]
fn recent_limit_is_capped_to_history_retention_size() {
    let mut store = HistoryStore::in_memory().expect("history store");
    for index in 0..(MAX_HISTORY_RECORDS + 1) {
        store.insert(record(index)).expect("insert record");
    }

    let recent = store
        .recent(MAX_HISTORY_RECORDS * 2)
        .expect("recent history");

    assert_eq!(recent.len(), MAX_HISTORY_RECORDS);
    assert_eq!(recent.first().expect("newest").source_text, "source 500");
    assert_eq!(recent.last().expect("oldest kept").source_text, "source 1");
}

#[test]
fn insert_rejects_empty_translated_text() {
    let mut store = HistoryStore::in_memory().expect("history store");
    let mut record = record(1);
    record.translated_text = " \n\t".to_owned();

    let err = store.insert(record).expect_err("empty translated text");

    assert!(err.message().contains("translated text cannot be empty"));
    assert!(store.recent(10).expect("recent history").is_empty());
}

#[test]
fn insert_rejects_empty_source_text() {
    let mut store = HistoryStore::in_memory().expect("history store");
    let mut record = record(1);
    record.source_text = " \n\t".to_owned();

    let err = store.insert(record).expect_err("empty source text");

    assert!(err.message().contains("source text cannot be empty"));
    assert!(store.recent(10).expect("recent history").is_empty());
}

#[test]
fn insert_rejects_empty_target_language() {
    let mut store = HistoryStore::in_memory().expect("history store");
    let mut record = record(1);
    record.target_lang = " \n\t".to_owned();

    let err = store.insert(record).expect_err("empty target language");

    assert!(err.message().contains("target language cannot be empty"));
    assert!(store.recent(10).expect("recent history").is_empty());
}

#[test]
fn recent_zero_returns_no_records() {
    let mut store = HistoryStore::in_memory().expect("history store");
    store.insert(record(1)).expect("insert record");

    let recent = store.recent(0).expect("recent history");

    assert!(recent.is_empty());
}

#[test]
fn recent_rejects_invalid_source_values_from_storage() {
    let err = str_to_source("clipboard").expect_err("invalid history source");

    assert!(err.message().contains("invalid history source"));
}

#[test]
fn stored_record_is_read_back_by_id() {
    let mut store = HistoryStore::in_memory().expect("history store");
    let first = store.insert_at(record(1), 10).expect("insert first");
    let second = store.insert_at(record(2), 5).expect("insert second");

    let found = store.get(first.id).expect("first is stored");

    assert_eq!(found.source_text, "source 1");
    assert_eq!(found.created_at, 10);
    assert_eq!(second.id, first.id + 1);
    assert!(store.get(99).is_none());
    let recent = store.recent(10).expect("recent history");
    assert_eq!(recent[0].source_text, "source 1");
    assert_eq!(recent[1].source_text, "source 2");
}

#[test]
fn ids_keep_counting_after_clear() {
    let mut store = HistoryStore::in_memory().expect("history store");
    let first = store.insert_at(record(1), 1).expect("insert");
    store.clear().expect("clear");
    let second = store.insert_at(record(2), 2).expect("insert after clear");

    assert_eq!(second.id, first.id + 1);
    assert_eq!(store.len(), 1);
}

#[test]
fn history_source_names_parse_after_trimming() {
    assert_eq!(parse_history_source(" screenshot ").expect("screenshot"), HistorySource::Screenshot);
    assert_eq!(parse_history_source("image").expect("image"), HistorySource::Image);
    let err = parse_history_source("clipboard").expect_err("unknown source");
    assert_eq!(err.message(), "config failed: unsupported history source: clipboard");
}

fn stored(id: i64, created_at: i64, text: &str) -> HistoryRecord {
    HistoryRecord {
        id,
        created_at,
        source: HistorySource::Text,
        source_text: text.to_owned(),
        target_lang: "en".to_owned(),
        translated_text: format!("{text}!"),
    }
}

#[test]
fn restored_history_keeps_rows_and_ids() {
    let mut store = HistoryStore::restore(vec![stored(7, 20, "b"), stored(3, 20, "a"), stored(9, 5, "c")], 10)
        .expect("restored");

    let recent = store.recent(10).expect("recent");
    assert_eq!(recent.iter().map(|r| r.id).collect::<Vec<_>>(), vec![7, 3, 9]);

    let next = store.insert_at(record(1), 30).expect("insert");
    assert_eq!(next.id, 10);
}

#[test]
fn restored_history_refuses_inconsistent_rows() {
    let out_of_order = HistoryStore::restore(vec![stored(1, 5, "a"), stored(2, 9, "b")], 3);
    let repeated = HistoryStore::restore(vec![stored(2, 9, "a"), stored(2, 5, "b")], 3);
    let too_high = HistoryStore::restore(vec![stored(3, 9, "a")], 3);
    let blank = HistoryStore::restore(vec![stored(1, 9, " ")], 3);

    for result in [out_of_order, repeated, too_high, blank] {
        assert!(result
            .err()
            .expect("refused")
            .message()
            .contains("stored history records are inconsistent"));
    }
}

#[test]
fn stored_history_reads_back_as_it_was() {
    let mut store = HistoryStore::in_memory().expect("history store");
    let mut last = 0;
    for index in 0..5 {
        last = store.insert_at(record(index), 100 + (index as i64 % 2)).expect("insert").id;
    }
    let saved = store.recent(MAX_HISTORY_RECORDS).expect("recent");
    let expected: Vec<i64> = saved.iter().map(|r| r.id).collect();

    let restored = HistoryStore::restore(saved, last + 1).expect("restored");
    let again: Vec<i64> = restored
        .recent(MAX_HISTORY_RECORDS)
        .expect("recent")
        .iter()
        .map(|r| r.id)
        .collect();

    assert_eq!(again, expected);
}
