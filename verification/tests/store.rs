//! The history store: full-fidelity round trip, repetition, search, pinning,
//! pruning, and encryption.

use cling::errors::StoreError;
use cling::schema::migrate;
use cling::store::{
    add_capture_at, count_sync, delete_sync, get_entry_sync, prune_at, prepare,
    query_sync, retention_cutoff, search_sync, set_pinned_sync, Store, StoreConfig,
};
use cling::traits::HistoryStore;
use cling::types::{AppId, MimeBlob, PreviewKind};

fn t(mime: &str, bytes: &[u8]) -> MimeBlob {
    MimeBlob {
        mime: mime.to_string(),
        bytes: bytes.to_vec(),
    }
}

fn src(id: &str) -> AppId {
    AppId {
        id: Some(id.into()),
        label: Some(id.into()),
    }
}

fn connection() -> rusqlite::Connection {
    let mut conn = rusqlite::Connection::open_in_memory().unwrap();
    migrate(&mut conn).unwrap();
    conn
}

fn add(conn: &mut rusqlite::Connection, text: &str, now: i64) -> i64 {
    add_capture_at(conn, vec![t("text/plain", text.as_bytes())], src("a"), u64::MAX, now).unwrap()
}

#[test]
fn roundtrip_text_and_rich_full_fidelity() {
    let mut s = Store::open_memory(None).unwrap();
    let id = s
        .add_capture(
            vec![
                t("text/plain;charset=utf-8", b"hello world"),
                t("text/html", b"<b>hello</b> world"),
            ],
            src("gedit"),
            u64::MAX,
        )
        .unwrap();

    let entry = s.get_entry(id).unwrap().expect("entry exists");
    assert_eq!(entry.targets.len(), 2);
    // Both text targets are present and verbatim.
    let plain = entry.text().unwrap();
    assert_eq!(plain, "hello world");
    assert!(entry.targets.iter().any(|x| x.mime == "text/html"));
    assert_eq!(entry.origin.as_deref(), Some("gedit"));
}

#[test]
fn consecutive_identical_capture_dedups() {
    let mut s = Store::open_memory(None).unwrap();
    let id1 = s
        .add_capture(vec![t("text/plain", b"same")], src("a"), u64::MAX)
        .unwrap();
    let id2 = s
        .add_capture(vec![t("text/plain", b"same")], src("a"), u64::MAX)
        .unwrap();
    // The same content back to back counts a use and makes no new row.
    assert_eq!(id1, id2);
    assert_eq!(s.count().unwrap(), 1);
    let entry = s.get_entry(id1).unwrap().unwrap();
    assert_eq!(entry.use_count, 2);
}

#[test]
fn different_capture_does_not_dedup() {
    let mut s = Store::open_memory(None).unwrap();
    let _ = s.add_capture(vec![t("text/plain", b"aaa")], src("a"), u64::MAX);
    let _ = s.add_capture(vec![t("text/plain", b"bbb")], src("a"), u64::MAX);
    assert_eq!(s.count().unwrap(), 2);
}

#[test]
fn fts_search_ranks_and_matches() {
    let mut s = Store::open_memory(None).unwrap();
    for w in ["alpha bravo", "charlie delta", "bravo zulu"] {
        let _ = s.add_capture(vec![t("text/plain", w.as_bytes())], src("a"), u64::MAX);
    }
    let res = s.search("bravo", 10).unwrap();
    let previews: Vec<String> = res.into_iter().filter_map(|r| r.preview_text).collect();
    assert!(previews.iter().any(|p| p.contains("alpha bravo")));
    assert!(previews.iter().any(|p| p.contains("bravo zulu")));
    assert!(!previews.iter().any(|p| p.contains("charlie")));
}

#[test]
fn pinned_survives_prune() {
    let mut s = Store::open_memory(None).unwrap();
    let pinned = s
        .add_capture(vec![t("text/plain", b"keep me")], src("a"), u64::MAX)
        .unwrap();
    s.set_pinned(pinned, true).unwrap();
    for i in 0..20 {
        let _ = s.add_capture(
            vec![t("text/plain", format!("x{i}").as_bytes())],
            src("a"),
            u64::MAX,
        );
    }
    let removed = s.prune(5, None).unwrap();
    assert!(removed > 0);
    assert!(s.get_entry(pinned).unwrap().is_some());
}

#[test]
fn encryption_round_trip_and_wrong_key_locked() {
    // A new database accepts any key, so the wrong key needs an existing file.
    let path = "/tmp/cling-test-enc.clingdb";

    // Create and write with the correct passphrase.
    {
        let mut s = Store::open(path, Some("correct horse battery staple")).unwrap();
        s.clear().unwrap();
        let id = s
            .add_capture(vec![t("text/plain", b"secret")], src("a"), u64::MAX)
            .unwrap();
        assert!(s.get_entry(id).unwrap().is_some());
    }

    // Opening it with the wrong passphrase must fail.
    let bad = Store::open(path, Some("wrong key"));
    assert!(
        bad.is_err(),
        "wrong passphrase must fail to open an existing encrypted DB"
    );
    assert_eq!(bad.err(), Some(StoreError::Locked));
    assert_eq!(Store::open(path, None).err(), Some(StoreError::Locked));

    // Opening it with the correct passphrase still works.
    let mut s = Store::open(path, Some("correct horse battery staple")).unwrap();
    let rows = s.query(0, 10, None).unwrap();
    assert_eq!(rows.len(), 1);
}

#[test]
fn delete_and_clear() {
    let mut s = Store::open_memory(None).unwrap();
    let a = s
        .add_capture(vec![t("text/plain", b"a")], src("x"), u64::MAX)
        .unwrap();
    let b = s
        .add_capture(vec![t("text/plain", b"b")], src("x"), u64::MAX)
        .unwrap();
    s.delete(&[a]).unwrap();
    assert!(s.get_entry(a).unwrap().is_none());
    assert!(s.get_entry(b).unwrap().is_some());
    s.clear().unwrap();
    assert_eq!(s.count().unwrap(), 0);
}

#[test]
fn query_lists_newest_first() {
    let mut s = Store::open_memory(None).unwrap();
    for w in ["first", "second", "third"] {
        let _ = s.add_capture(vec![t("text/plain", w.as_bytes())], src("a"), u64::MAX);
    }
    let rows = s.query(0, 10, None).unwrap();
    let previews: Vec<String> = rows.into_iter().filter_map(|r| r.preview_text).collect();
    assert_eq!(previews[0], "third");
    assert_eq!(previews.last().unwrap(), &"first");
}

#[test]
fn default_config_allows_fifty_mebibytes() {
    assert_eq!(StoreConfig::default().max_blob_bytes, 50 * 1024 * 1024);
}

#[test]
fn a_capture_is_stored_with_its_metadata() {
    let mut conn = connection();
    let id = add_capture_at(
        &mut conn,
        vec![t("image/png", &[0, 1, 2, 255]), t("text/plain", b"caption")],
        src("viewer"),
        u64::MAX,
        1234,
    )
    .unwrap();
    assert_eq!(id, 1);
    let e = get_entry_sync(&mut conn, id).unwrap().unwrap();
    assert_eq!(e.id, 1);
    assert_eq!(e.ts, 1234);
    assert!(!e.pinned);
    assert_eq!(e.group, None);
    assert_eq!(e.origin, Some("viewer".to_string()));
    assert_eq!(e.use_count, 1);
    assert_eq!(e.preview_kind, PreviewKind::Image);
    assert_eq!(e.size_bytes, 11);
    assert!(e.targets.contains(&t("image/png", &[0, 1, 2, 255])));
    assert!(e.targets.contains(&t("text/plain", b"caption")));
    assert_eq!(e.targets.len(), 2);
}

#[test]
fn targets_over_the_limit_are_left_out() {
    let mut conn = connection();
    let id = add_capture_at(
        &mut conn,
        vec![t("text/plain", b"four"), t("text/html", b"<i>longer</i>")],
        AppId::default(),
        4,
        1,
    )
    .unwrap();
    let e = get_entry_sync(&mut conn, id).unwrap().unwrap();
    assert_eq!(e.targets, vec![t("text/plain", b"four")]);
    // The size is that of all targets, and the kind that of all of them.
    assert_eq!(e.size_bytes, 17);
    assert_eq!(e.preview_kind, PreviewKind::Rich);
    assert_eq!(e.origin, None);
    assert_eq!(search_sync(&mut conn, "longer", 10).unwrap().len(), 0);
    assert_eq!(search_sync(&mut conn, "four", 10).unwrap().len(), 1);
}

#[test]
fn the_last_of_two_targets_with_one_mime_is_stored() {
    let mut conn = connection();
    let twice = vec![t("text/plain", b"one"), t("text/plain", b"two")];
    let id = add_capture_at(&mut conn, twice.clone(), src("a"), u64::MAX, 1).unwrap();
    let e = get_entry_sync(&mut conn, id).unwrap().unwrap();
    assert_eq!(e.targets, vec![t("text/plain", b"two")]);
    // Such a capture is not the same as what was stored of it.
    let again = add_capture_at(&mut conn, twice, src("a"), u64::MAX, 2).unwrap();
    assert_ne!(again, id);
}

#[test]
fn only_the_newest_entry_is_repeated() {
    let mut conn = connection();
    let a = add(&mut conn, "a", 1);
    let b = add(&mut conn, "b", 2);
    let c = add(&mut conn, "a", 3);
    assert_ne!(a, c);
    assert_eq!(count_sync(&mut conn).unwrap(), 3);
    // An entry from the past does not become the newest one.
    let d = add(&mut conn, "b", 2);
    assert_ne!(d, b);
    assert_eq!(add(&mut conn, "a", 4), c);
    // The order of the targets does not matter, but their bytes do.
    let pair = vec![t("text/plain", b"x"), t("text/html", b"y")];
    let swapped = vec![t("text/html", b"y"), t("text/plain", b"x")];
    let changed = vec![t("text/html", b"z"), t("text/plain", b"x")];
    let e = add_capture_at(&mut conn, pair, src("a"), u64::MAX, 5).unwrap();
    assert_eq!(add_capture_at(&mut conn, swapped, src("b"), u64::MAX, 6).unwrap(), e);
    assert_ne!(add_capture_at(&mut conn, changed, src("b"), u64::MAX, 7).unwrap(), e);
    let entry = get_entry_sync(&mut conn, e).unwrap().unwrap();
    assert_eq!(entry.use_count, 2);
    assert_eq!(entry.ts, 5);
}

#[test]
fn pages_are_clamped_and_ordered() {
    let mut conn = connection();
    for i in 0..10 {
        add(&mut conn, &format!("entry {i}"), 100 + i);
    }
    let ids = |rows: Vec<cling::types::EntrySummary>| -> Vec<i64> {
        rows.into_iter().map(|r| r.id).collect()
    };
    assert_eq!(ids(query_sync(&mut conn, 0, 3, None).unwrap()), vec![10, 9, 8]);
    assert_eq!(ids(query_sync(&mut conn, 8, 3, None).unwrap()), vec![2, 1]);
    assert_eq!(ids(query_sync(&mut conn, 20, 3, None).unwrap()), Vec::<i64>::new());
    assert_eq!(ids(query_sync(&mut conn, -5, 0, None).unwrap()), vec![10]);
    assert_eq!(query_sync(&mut conn, 0, 100_000, None).unwrap().len(), 10);
    // With one time, the higher id comes first.
    add(&mut conn, "late a", 500);
    add(&mut conn, "late b", 500);
    assert_eq!(ids(query_sync(&mut conn, 0, 2, None).unwrap()), vec![12, 11]);
}

#[test]
fn previews_are_shortened_to_160_characters() {
    let mut conn = connection();
    let long: String = "\u{e9}".repeat(161);
    add(&mut conn, &long, 1);
    let rows = query_sync(&mut conn, 0, 1, None).unwrap();
    let preview = rows[0].preview_text.clone().unwrap();
    assert_eq!(preview.chars().count(), 161);
    assert!(preview.ends_with('\u{2026}'));
    assert!(preview.starts_with('\u{e9}'));
    // Bytes that are not UTF-8 have no preview.
    add_capture_at(&mut conn, vec![t("text/plain", &[0xff])], src("a"), u64::MAX, 2).unwrap();
    assert_eq!(query_sync(&mut conn, 0, 1, None).unwrap()[0].preview_text, None);
    // Neither has an image.
    add_capture_at(&mut conn, vec![t("image/png", &[1])], src("a"), u64::MAX, 3).unwrap();
    let row = query_sync(&mut conn, 0, 1, None).unwrap().remove(0);
    assert_eq!(row.preview_text, None);
    assert_eq!(row.preview_kind, PreviewKind::Image);
    assert_eq!(row.size_bytes, 1);
}

#[test]
fn search_goes_by_the_beginnings_of_words() {
    let mut conn = connection();
    add(&mut conn, "Meeting notes", 1);
    add_capture_at(
        &mut conn,
        vec![t("text/html", b"<p class=\"secret\">Quarterly <b>report</b></p>")],
        src("a"),
        u64::MAX,
        2,
    )
    .unwrap();
    assert_eq!(search_sync(&mut conn, "meet", 10).unwrap().len(), 1);
    assert_eq!(search_sync(&mut conn, "eeting", 10).unwrap().len(), 0);
    assert_eq!(search_sync(&mut conn, "meet rep", 10).unwrap().len(), 0);
    assert_eq!(search_sync(&mut conn, "quarter rep", 10).unwrap().len(), 1);
    // Tags are not indexed, and punctuation does not break the query.
    assert_eq!(search_sync(&mut conn, "secret", 10).unwrap().len(), 0);
    assert_eq!(search_sync(&mut conn, "\"meet\" OR (", 10).unwrap().len(), 0);
    assert_eq!(search_sync(&mut conn, "\"meet\" *(", 10).unwrap().len(), 1);
    // Nothing to search for lists the newest entries.
    let newest = search_sync(&mut conn, " ?! ", 1).unwrap();
    assert_eq!(newest.len(), 1);
    assert_eq!(newest[0].id, 2);
}

#[test]
fn an_entry_with_both_plain_types_is_listed_once() {
    let mut conn = connection();
    let both = vec![
        t("text/plain;charset=utf-8", b"needle two"),
        t("text/plain", b"needle one"),
    ];
    let id = add_capture_at(&mut conn, both, src("a"), u64::MAX, 5).unwrap();
    let rows = query_sync(&mut conn, 0, 10, None).unwrap();
    assert_eq!(rows.len(), 1);
    assert_eq!(rows[0].id, id);
    assert_eq!(rows[0].preview_text.as_deref(), Some("needle one"));
    assert_eq!(count_sync(&mut conn).unwrap(), 1);
    add(&mut conn, "hay", 6);
    let other = add(&mut conn, "another needle", 7);
    let found = search_sync(&mut conn, "needle", 10).unwrap();
    assert_eq!(found.iter().filter(|s| s.id == id).count(), 1);
    assert_eq!(found.iter().filter(|s| s.id == other).count(), 1);
    assert_eq!(found.len(), 2);
    assert_eq!(search_sync(&mut conn, "needle", 1).unwrap().len(), 1);
}

#[test]
fn the_other_plain_type_previews_an_entry_too() {
    let mut conn = connection();
    let only = vec![t("text/plain;charset=utf-8", b"utf"), t("text/html", b"<b>h</b>")];
    add_capture_at(&mut conn, only, src("a"), u64::MAX, 1).unwrap();
    add_capture_at(&mut conn, vec![t("image/png", b"p")], src("a"), u64::MAX, 2).unwrap();
    let rows = query_sync(&mut conn, 0, 10, None).unwrap();
    assert_eq!(rows[0].preview_text, None);
    assert_eq!(rows[1].preview_text.as_deref(), Some("utf"));
}

#[test]
fn a_better_match_comes_first() {
    let mut conn = connection();
    add(&mut conn, "needle in a long text with many other words around it", 1);
    let best = add(&mut conn, "needle needle", 2);
    add(&mut conn, "a needle, and then some more words that do not matter here", 3);
    let found = search_sync(&mut conn, "needle", 10).unwrap();
    assert_eq!(found.len(), 3);
    assert_eq!(found[0].id, best);
}

#[test]
fn an_entry_with_two_indexed_texts_is_found_once() {
    let mut conn = connection();
    let gone = add(&mut conn, "needle of old", 1);
    // What expires leaves its indexed text behind, and its id to the next entry.
    assert_eq!(prune_at(&mut conn, 10, Some(5)).unwrap(), 1);
    let id = add(&mut conn, "needle of now", 9);
    assert_eq!(id, gone);
    assert_eq!(search_sync(&mut conn, "needle", 10).unwrap().len(), 1);
}

#[test]
fn deleting_takes_the_named_entries_only() {
    let mut conn = connection();
    let a = add(&mut conn, "apple", 1);
    let b = add(&mut conn, "banana", 2);
    let c = add(&mut conn, "cherry", 3);
    delete_sync(&mut conn, &[]).unwrap();
    assert_eq!(count_sync(&mut conn).unwrap(), 3);
    delete_sync(&mut conn, &[a, c, 99]).unwrap();
    assert_eq!(count_sync(&mut conn).unwrap(), 1);
    assert!(get_entry_sync(&mut conn, a).unwrap().is_none());
    assert_eq!(get_entry_sync(&mut conn, b).unwrap().unwrap().text(), Some("banana"));
    assert_eq!(search_sync(&mut conn, "apple", 10).unwrap().len(), 0);
    assert_eq!(search_sync(&mut conn, "banana", 10).unwrap().len(), 1);
}

#[test]
fn pruning_takes_the_oldest_unpinned_entries() {
    let mut conn = connection();
    for i in 1..=6 {
        add(&mut conn, &format!("p{i}"), i);
    }
    set_pinned_sync(&mut conn, 1, true).unwrap();
    assert_eq!(prune_at(&mut conn, 4, None).unwrap(), 2);
    assert!(get_entry_sync(&mut conn, 1).unwrap().unwrap().pinned);
    assert!(get_entry_sync(&mut conn, 2).unwrap().is_none());
    assert!(get_entry_sync(&mut conn, 3).unwrap().is_none());
    assert!(get_entry_sync(&mut conn, 4).unwrap().is_some());
    assert_eq!(prune_at(&mut conn, 4, None).unwrap(), 0);
    // The age limit comes first, and counts.
    assert_eq!(prune_at(&mut conn, 2, Some(6)).unwrap(), 2);
    assert_eq!(count_sync(&mut conn).unwrap(), 2);
    assert!(get_entry_sync(&mut conn, 6).unwrap().is_some());
    // Pinned entries stay, whatever the limits.
    assert_eq!(prune_at(&mut conn, 0, Some(i64::MAX)).unwrap(), 1);
    assert_eq!(prune_at(&mut conn, i64::MIN, None).unwrap(), 0);
    assert_eq!(count_sync(&mut conn).unwrap(), 1);
    set_pinned_sync(&mut conn, 1, false).unwrap();
    assert_eq!(prune_at(&mut conn, i64::MIN, None).unwrap(), 1);
    assert_eq!(count_sync(&mut conn).unwrap(), 0);
}

#[test]
fn retention_is_counted_in_days() {
    assert_eq!(retention_cutoff(1_000_000_000_000, 1), 999_913_600_000);
    assert_eq!(retention_cutoff(0, 30), -2_592_000_000);
    let mut s = Store::open_memory(None).unwrap();
    s.add_capture(vec![t("text/plain", b"new")], src("a"), u64::MAX).unwrap();
    assert_eq!(s.prune(10, Some(1)).unwrap(), 0);
    assert_eq!(s.prune(10, Some(-1)).unwrap(), 1);
}

#[test]
fn groups_must_exist() {
    let mut s = Store::open_memory(None).unwrap();
    let id = s.add_capture(vec![t("text/plain", b"g")], src("a"), u64::MAX).unwrap();
    s.set_group(id, None).unwrap();
    let refused = s.set_group(id, Some(7)).unwrap_err();
    assert_eq!(refused, StoreError::Db("FOREIGN KEY constraint failed".to_string()));
    // An entry that is not there has no group to set.
    s.set_group(99, Some(7)).unwrap();
    assert_eq!(s.query(0, 10, Some(7)).unwrap().len(), 0);
    assert_eq!(s.query(0, 10, None).unwrap().len(), 1);
}

#[test]
fn uses_are_counted() {
    let mut s = Store::open_memory(None).unwrap();
    let id = s.add_capture(vec![t("text/plain", b"u")], src("a"), u64::MAX).unwrap();
    s.bump_use_count(id).unwrap();
    s.bump_use_count(id).unwrap();
    s.bump_use_count(99).unwrap();
    assert_eq!(s.get_entry(id).unwrap().unwrap().use_count, 3);
}

#[test]
fn migrating_again_changes_nothing() {
    let mut conn = connection();
    let id = add(&mut conn, "kept", 1);
    migrate(&mut conn).unwrap();
    assert!(get_entry_sync(&mut conn, id).unwrap().is_some());
    assert_eq!(count_sync(&mut conn).unwrap(), 1);
}

#[test]
fn a_higher_version_is_kept() {
    let mut conn = connection();
    let version = |conn: &rusqlite::Connection| -> String {
        conn.query_row("SELECT value FROM meta WHERE key = 'schema_version'", [], |r| r.get(0))
            .unwrap()
    };
    assert_eq!(version(&conn), "1");
    conn.execute("UPDATE meta SET value = '2'", []).unwrap();
    migrate(&mut conn).unwrap();
    assert_eq!(version(&conn), "2");
    conn.execute("UPDATE meta SET value = '0'", []).unwrap();
    migrate(&mut conn).unwrap();
    assert_eq!(version(&conn), "1");
}

#[test]
fn new_ids_follow_the_highest() {
    let mut conn = connection();
    assert_eq!(add(&mut conn, "a", 1), 1);
    assert_eq!(add(&mut conn, "b", 2), 2);
    assert_eq!(add(&mut conn, "a", 3), 3);
    assert_eq!(get_entry_sync(&mut conn, 1).unwrap().unwrap().use_count, 1);
    delete_sync(&mut conn, &[2]).unwrap();
    assert_eq!(add(&mut conn, "c", 4), 4);
    delete_sync(&mut conn, &[3, 4]).unwrap();
    assert_eq!(add(&mut conn, "d", 5), 2);
}

#[test]
fn a_connection_is_prepared_in_place() {
    let mut conn = rusqlite::Connection::open_in_memory().unwrap();
    prepare(&mut conn, Some("pass")).unwrap();
    assert_eq!(add(&mut conn, "x", 1), 1);
    prepare(&mut conn, Some("pass")).unwrap();
    assert_eq!(count_sync(&mut conn).unwrap(), 1);
}

#[test]
fn a_search_for_nothing_is_the_first_page() {
    let mut conn = connection();
    add(&mut conn, "one", 1);
    add(&mut conn, "two", 2);
    let first = query_sync(&mut conn, 0, 10, None).unwrap();
    assert_eq!(search_sync(&mut conn, "?! ()", 10).unwrap(), first);
    assert_eq!(search_sync(&mut conn, "", 10).unwrap(), first);
}

#[test]
fn targets_last_until_they_are_deleted() {
    let mut conn = connection();
    let blob = t("application/octet-stream", &[0xff, 0, 0xc3]);
    let all = vec![blob.clone(), t("text/plain", b""), t("x/y", b"z")];
    let id = add_capture_at(&mut conn, all.clone(), src("a"), u64::MAX, 1).unwrap();
    add(&mut conn, "later", 2);
    set_pinned_sync(&mut conn, id, true).unwrap();
    delete_sync(&mut conn, &[2]).unwrap();
    prune_at(&mut conn, 1, Some(9)).unwrap();
    migrate(&mut conn).unwrap();
    let kept = get_entry_sync(&mut conn, id).unwrap().unwrap().targets;
    assert_eq!(kept.len(), all.len());
    assert!(all.iter().all(|x| kept.contains(x)));
}

#[test]
fn an_encrypted_store_in_memory_works() {
    let mut s = Store::open_memory(Some("pass")).unwrap();
    let id = s.add_capture(vec![t("text/plain", b"m")], src("a"), u64::MAX).unwrap();
    assert_eq!(s.get_entry(id).unwrap().unwrap().text(), Some("m"));
}

#[test]
fn a_store_is_made_of_a_connection() {
    let mut s = Store::over(rusqlite::Connection::open_in_memory().unwrap(), None).unwrap();
    assert_eq!(s.count().unwrap(), 0);
    let id = s.add_capture(vec![t("text/plain", b"kept")], src("a"), u64::MAX).unwrap();
    assert_eq!(id, 1);
    // What an earlier store wrote is there when the file is opened again.
    let path = "/tmp/cling-test-plain.clingdb";
    {
        let mut first = Store::open(path, None).unwrap();
        first.clear().unwrap();
        first.add_capture(vec![t("text/plain", b"old")], src("a"), u64::MAX).unwrap();
    }
    let mut again = Store::over(rusqlite::Connection::open(path).unwrap(), None).unwrap();
    assert_eq!(again.query(0, 10, None).unwrap()[0].preview_text, Some("old".to_string()));
}

#[test]
fn a_missing_directory_is_a_database_error() {
    match Store::open("/tmp/cling-no-such-directory/x/y.clingdb", None) {
        Err(StoreError::Db(m)) => assert!(m.contains("unable to open database file")),
        _ => panic!("opened a database in a missing directory"),
    }
}
