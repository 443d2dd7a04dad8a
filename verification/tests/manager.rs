//! The capture manager with the backend in memory: from capture to store,
//! pause, excluded applications and denied content.

use cling::errors::BackendError;
use cling::manager::{
    any_denies, filter_compiled, screen, text_plain, CapturePolicy, ClipboardManager, ContentRules,
    Handled,
};
use cling::mock::MockBackend;
use cling::pattern::compile_all;
use cling::store::Store;
use cling::traits::{ClipboardProvider, HistoryStore};
use cling::types::{capture, AppId, Caps, ClipboardEvent, MimeBlob};

fn t(mime: &str, b: &[u8]) -> MimeBlob {
    MimeBlob {
        mime: mime.into(),
        bytes: b.to_vec(),
    }
}

fn src(id: &str) -> AppId {
    AppId {
        id: Some(id.into()),
        label: Some(id.into()),
    }
}

fn harness() -> (MockBackend, Store) {
    let store = Store::open_memory(None).unwrap();
    let backend = MockBackend::new(
        "mock",
        Caps {
            silent_history: true,
            auto_paste: false,
            source_id: true,
        },
    );
    (backend, store)
}

#[test]
fn manager_captures_selection() {
    let (mut backend, mut store) = harness();
    let manager = ClipboardManager::new();
    backend.push_selection(vec![t("text/plain", b"hello")], src("gedit"));
    manager.run(&mut backend, &mut store);
    assert_eq!(store.count().unwrap(), 1);
}

#[test]
fn manager_drops_when_paused() {
    let (mut backend, mut store) = harness();
    let mut manager = ClipboardManager::new();
    manager.set_paused(true);
    backend.push_selection(vec![t("text/plain", b"paused-capture")], src("a"));
    manager.run(&mut backend, &mut store);
    assert_eq!(store.count().unwrap(), 0);

    // Resume and try again.
    manager.set_paused(false);
    backend.push_selection(vec![t("text/plain", b"after-unpause")], src("a"));
    manager.run(&mut backend, &mut store);
    assert_eq!(store.count().unwrap(), 1);
}

#[test]
fn manager_excludes_app() {
    let (mut backend, mut store) = harness();
    let mut manager = ClipboardManager::new();
    manager.set_excluded_apps(vec!["keepassxc".into()]);
    backend.push_selection(vec![t("text/plain", b"password")], src("keepassxc"));
    manager.run(&mut backend, &mut store);
    backend.push_selection(vec![t("text/plain", b"normal")], src("firefox"));
    manager.run(&mut backend, &mut store);
    let rows = store.query(0, 10, None).unwrap();
    assert_eq!(rows.len(), 1);
    assert_eq!(rows[0].origin.as_deref(), Some("firefox"));
}

#[test]
fn manager_content_denylist() {
    let (mut backend, mut store) = harness();
    let mut manager = ClipboardManager::new();
    manager.set_content_rules(ContentRules {
        deny_regex: vec!["SECRET-TOKEN-\\w+".into()],
    });
    backend.push_selection(vec![t("text/plain", b"SECRET-TOKEN-1234")], src("a"));
    manager.run(&mut backend, &mut store);
    backend.push_selection(vec![t("text/plain", b"innocuous text")], src("a"));
    manager.run(&mut backend, &mut store);
    assert_eq!(store.count().unwrap(), 1);
}

#[test]
fn run_says_what_became_of_each_event() {
    let (mut backend, mut store) = harness();
    let mut manager = ClipboardManager::new();
    manager.set_excluded_apps(vec!["KeePassXC".into()]);
    backend.push_selection(vec![t("text/plain", b"one")], src("a"));
    let results = manager.run(&mut backend, &mut store);
    assert_eq!(results.len(), 1);
    assert!(matches!(results[0], Handled::Captured(1)));
    // The events were taken.
    assert_eq!(manager.run(&mut backend, &mut store).len(), 0);
    backend.push_selection(vec![t("text/plain", b"two")], src("keepassxc"));
    backend.clear();
    let results = manager.run(&mut backend, &mut store);
    // The selection is gone by the time that it is read.
    assert!(matches!(results[0], Handled::Unreadable(BackendError::Unavailable(_))));
    assert!(matches!(results[1], Handled::Cleared));
    backend.push_selection(vec![t("text/plain", b"two")], src("keepassxc"));
    let results = manager.run(&mut backend, &mut store);
    assert!(matches!(results[0], Handled::Dropped));
    assert_eq!(store.count().unwrap(), 1);
}

#[test]
fn events_are_handled_in_order() {
    let (mut backend, mut store) = harness();
    backend.push_selection(vec![t("text/plain", b"one")], src("a"));
    let changed = |id: &str| ClipboardEvent::SelectionChanged { source: src(id) };
    let list = vec![ClipboardEvent::Cleared, changed("a"), changed("b")];
    let results = ClipboardManager::new().handle_all(&list, &mut backend, &mut store);
    assert_eq!(results.len(), 3);
    assert!(matches!(results[0], Handled::Cleared));
    assert!(matches!(results[1], Handled::Captured(1)));
    // The same selection again counts a use.
    assert!(matches!(results[2], Handled::Captured(1)));
    assert_eq!(store.get_entry(1).unwrap().unwrap().use_count, 2);
}

#[test]
fn the_default_policy_takes_everything_up_to_50_mib() {
    let policy = ClipboardManager::default().policy();
    assert_eq!(policy.max_blob_bytes, 50 * 1024 * 1024);
    assert!(policy.excluded_apps.is_empty());
    assert!(!policy.paused);
    assert!(ContentRules::default().deny_regex.is_empty());
}

#[test]
fn one_large_target_drops_the_whole_capture() {
    let policy = CapturePolicy { max_blob_bytes: 3, excluded_apps: vec![], paused: false };
    let rest = screen(
        &policy,
        vec![t("text/plain", b"abc"), t("c/d", b"")],
        &AppId::default(),
    );
    assert_eq!(rest, Some(vec![t("text/plain", b"abc"), t("c/d", b"")]));
    let mixed = vec![t("text/plain", b"abc"), t("a/b", b"long")];
    assert_eq!(screen(&policy, mixed, &AppId::default()), None);
    assert_eq!(screen(&policy, vec![t("a/b", b"long")], &AppId::default()), None);
    assert_eq!(screen(&policy, vec![], &AppId::default()), None);
}

#[test]
fn a_target_over_fifty_mebibytes_skips_the_capture() {
    let manager = ClipboardManager::new();
    let with = |n: usize| vec![t("text/plain", b"a"), t("image/png", &vec![0u8; n])];
    assert_eq!(manager.filter_capture(with(52_428_801), &AppId::default()), None);
    assert_eq!(manager.filter_capture(with(52_428_800), &AppId::default()).unwrap().len(), 2);
}

#[test]
fn applications_are_excluded_in_any_case() {
    let mut manager = ClipboardManager::new();
    manager.set_excluded_apps(vec!["KeePassXC".into()]);
    let targets = || vec![t("text/plain", b"x")];
    assert_eq!(manager.filter_capture(targets(), &src("KEEPASSxc")), None);
    assert!(manager.filter_capture(targets(), &src("keepassxc2")).is_some());
    assert!(manager.filter_capture(targets(), &AppId::default()).is_some());
}

#[test]
fn only_plain_text_is_denied_by_its_content() {
    let mut manager = ClipboardManager::new();
    manager.set_content_rules(ContentRules {
        deny_regex: vec!["(".into(), "^sec.et$".into()],
    });
    let keep = |b: &[u8], mime: &str| manager.filter_capture(vec![t(mime, b)], &src("a")).is_some();
    assert!(!keep(b"secret", "text/plain"));
    assert!(!keep(b"sec-et", "TEXT/PLAIN;charset=UTF-8"));
    assert!(keep(b"a secret", "text/plain"));
    assert!(keep(b"secret", "text/html"));
    assert!(keep(&[0xff], "text/plain"));
    let policy = CapturePolicy::default();
    let targets = || vec![t("text/plain", b"x")];
    let rules = |list: &[&str]| compile_all(&list.iter().map(|s| s.to_string()).collect());
    assert_eq!(filter_compiled(&policy, targets(), &src("a"), &rules(&["y", "x"])), None);
    assert_eq!(filter_compiled(&policy, targets(), &src("a"), &rules(&["y", "("])), Some(targets()));
    assert!(any_denies(&rules(&["b", "a+"]), "caat"));
    assert!(!any_denies(&rules(&["^b"]), "abbc"));
    assert!(!any_denies(&rules(&[]), "abbc"));
}

#[test]
fn the_first_plain_text_counts() {
    assert_eq!(
        text_plain(&[t("text/html", b"h"), t("Text/Plain", b"p"), t("text/plain", b"q")]),
        Some("p".to_string())
    );
    assert_eq!(text_plain(&[t("text/plain", &[0xc3])]), None);
    assert_eq!(text_plain(&[]), None);
}

#[test]
fn the_backend_in_memory_is_controllable() {
    let (mut backend, mut store) = harness();
    assert_eq!(backend.name(), "mock");
    assert!(backend.capabilities().source_id);
    assert!(backend.read_targets().is_err());
    assert_eq!(backend.last_offered(), None);
    backend.push_selection(vec![t("text/plain", b"copy")], src("gedit"));
    assert_eq!(backend.source_hint().unwrap(), src("gedit"));
    assert_eq!(backend.read_targets().unwrap(), vec![t("text/plain", b"copy")]);
    let events = backend.subscribe();
    assert_eq!(events.len(), 1);
    assert!(matches!(&events[0], ClipboardEvent::SelectionChanged { source } if *source == src("gedit")));
    let manager = ClipboardManager::new();
    let read = backend.read_targets();
    let handled = manager.handle(events[0].clone(), read, &mut store);
    assert!(matches!(handled, Handled::Captured(_)));
    let entry = store.get_entry(1).unwrap().unwrap();
    backend.clear();
    backend.offer(&entry).unwrap();
    assert_eq!(backend.last_offered(), Some(vec![t("text/plain", b"copy")]));
    assert_eq!(backend.read_targets().unwrap(), vec![t("text/plain", b"copy")]);
}

#[test]
fn a_capture_knows_its_size() {
    let c = capture(vec![t("a/b", b"12345"), t("c/d", b"")], src("x"));
    assert_eq!(c.total_size(), 5);
    assert_eq!(c.ts, None);
    assert_eq!(c.source, src("x"));
}
