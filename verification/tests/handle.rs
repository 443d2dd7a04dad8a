//! A handle that can be opened again: while it waits it answers `Locked`, it
//! opens with the right passphrase, and it rejects a wrong one.

use cling::errors::StoreError;
use cling::handle::StoreHandle;
use cling::store::Store;
use cling::traits::HistoryStore;
use cling::types::{AppId, MimeBlob};
use cling::unlock::{outcome_of_reopen, passphrase_from, socket_name, unlock_with, UnlockOutcome};

fn t(mime: &str, b: &[u8]) -> MimeBlob {
    MimeBlob {
        mime: mime.into(),
        bytes: b.to_vec(),
    }
}

#[test]
fn pending_handle_reports_locked() {
    let path = "/tmp/cling-handle-pending.clingdb".to_string();

    // Create an encrypted database first, so that a wrong key is rejected.
    {
        let _ = Store::open(&path, Some("correct")).unwrap();
    }

    let mut h = StoreHandle::pending(path.clone());
    assert!(!h.is_open());
    // Every operation reports Locked while the handle is closed.
    assert!(matches!(
        h.add_capture(vec![t("text/plain", b"x")], AppId::default(), u64::MAX)
            .err(),
        Some(StoreError::Locked)
    ));
    assert!(matches!(h.count().err(), Some(StoreError::Locked)));

    // A wrong passphrase does not open it.
    let err = h.reopen("nope").unwrap_err();
    assert!(matches!(err, StoreError::Locked | StoreError::Db(_)));
    assert_eq!(err, StoreError::Locked);
    assert!(!h.is_open());

    // The right passphrase does.
    h.reopen("correct").unwrap();
    assert!(h.is_open());
}

#[test]
fn handle_reopen_round_trip() {
    let path = "/tmp/cling-handle2-reopen.clingdb".to_string();

    // Create the encrypted database first.
    {
        let mut store = Store::open(&path, Some("hunter2")).unwrap();
        store.clear().unwrap();
        let mut store_h = StoreHandle::opened(store, Some(path.clone()));
        let id = store_h
            .add_capture(vec![t("text/plain", b"secret")], AppId::default(), u64::MAX)
            .unwrap();
        assert!(store_h.get_entry(id).unwrap().is_some());
    }

    // Now start locked, and open with the right passphrase.
    let mut h = StoreHandle::pending(path.clone());
    assert!(!h.is_open());
    h.reopen("hunter2").unwrap();
    assert!(h.is_open());

    let rows = h.query(0, 10, None).unwrap();
    assert_eq!(rows.len(), 1);
}

#[test]
fn every_method_of_a_closed_handle_is_locked() {
    let mut h = StoreHandle::pending("/tmp/cling-handle-closed.clingdb".to_string());
    let locked = Some(StoreError::Locked);
    assert_eq!(h.query(0, 1, None).err(), locked);
    assert_eq!(h.search("x", 1).err(), locked);
    assert_eq!(h.get_entry(1).err(), locked);
    assert_eq!(h.delete(&[]).err(), locked);
    assert_eq!(h.set_pinned(1, true).err(), locked);
    assert_eq!(h.set_group(1, None).err(), locked);
    assert_eq!(h.clear().err(), locked);
    assert_eq!(h.bump_use_count(1).err(), locked);
    assert_eq!(h.count().err(), locked);
    assert_eq!(h.prune(1, None).err(), locked);
}

#[test]
fn a_store_in_memory_cannot_be_reopened() {
    let mut h = StoreHandle::opened(Store::open_memory(None).unwrap(), None);
    assert!(h.is_open());
    assert_eq!(
        h.reopen("x").err(),
        Some(StoreError::Db("in-memory store cannot be reopened".to_string()))
    );
    assert!(h.is_open());
    assert_eq!(h.count().unwrap(), 0);
}

#[test]
fn the_passphrase_comes_without_line_ends() {
    assert_eq!(passphrase_from(b"hunter2\r\n\n"), Some("hunter2".to_string()));
    assert_eq!(passphrase_from(b" two words "), Some(" two words ".to_string()));
    assert_eq!(passphrase_from(b"a\nb"), Some("a\nb".to_string()));
    assert_eq!(passphrase_from(b"\n\r"), None);
    assert_eq!(passphrase_from(b""), None);
    assert_eq!(passphrase_from(&[0xff, b'x']), Some("\u{fffd}x".to_string()));
}

#[test]
fn reopening_decides_the_unlock() {
    assert_eq!(outcome_of_reopen(Ok(())), Ok(UnlockOutcome::Unlocked));
    assert_eq!(outcome_of_reopen(Err(StoreError::Locked)), Ok(UnlockOutcome::Rejected));
    assert_eq!(
        outcome_of_reopen(Err(StoreError::Db("disk full".to_string()))),
        Err("reopen: database error: disk full".to_string())
    );
    assert_eq!(socket_name(4711), "cling-unlock-4711.sock");
}

#[test]
fn the_dialog_unlocks_a_handle() {
    let path = "/tmp/cling-handle-dialog.clingdb".to_string();
    {
        let _ = Store::open(&path, Some("open sesame")).unwrap();
    }
    let mut h = StoreHandle::pending(path);
    assert_eq!(unlock_with(&mut h, b"\n"), Ok(UnlockOutcome::Cancelled));
    assert_eq!(unlock_with(&mut h, b"close sesame\n"), Ok(UnlockOutcome::Rejected));
    assert!(!h.is_open());
    assert_eq!(unlock_with(&mut h, b"open sesame\n"), Ok(UnlockOutcome::Unlocked));
    assert!(h.is_open());
}
