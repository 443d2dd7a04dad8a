//! The service on the bus: what it answers, what it refuses while it is locked
//! or paused, and what it wants done on the outside.

use cling::cli::{call_for, print_entry, row_label, status_label, summary_table, Call, Command, Printout};
use cling::dto::{CapsDto, EntryDto, SummaryDto, TargetDto};
use cling::errors::{BackendError, StoreError};
use cling::handle::StoreHandle;
use cling::manager::{ClipboardManager, Handled};
use cling::mock::MockBackend;
use cling::pattern::{compile_all, PatternError};
use cling::service::{dbus_err, no_entry, ClipboardManagerService, Effect, ServiceError};
use cling::store::Store;
use cling::traits::{ClipboardProvider, HistoryStore};
use cling::types::{AppId, Caps, ClipboardEvent, Entry, MimeBlob};
use cling::unlock::{NoUnlock, UnlockOutcome, UnlockRequest, UnlockResult};

const ALL: Caps = Caps {
    silent_history: true,
    auto_paste: true,
    source_id: true,
};

fn dto(mime: &str, b: &[u8]) -> TargetDto {
    TargetDto {
        mime: mime.into(),
        bytes: b.to_vec(),
    }
}

fn failed<T>(m: &str) -> Result<T, ServiceError> {
    Err(ServiceError::Failed(m.to_string()))
}

fn service() -> ClipboardManagerService<Store, MockBackend, NoUnlock> {
    let store = Store::open_memory(None).unwrap();
    ClipboardManagerService::new(store, MockBackend::new("mock", ALL), NoUnlock)
}

/// An unlock handler that gives the same answer each time.
struct Answer(UnlockResult);

impl UnlockRequest for Answer {
    fn request(&mut self) -> UnlockResult {
        self.0.clone()
    }
}

/// A backend that takes no offers.
struct Refusing;

impl ClipboardProvider for Refusing {
    fn name(&self) -> &'static str {
        "refusing"
    }
    fn capabilities(&self) -> Caps {
        ALL
    }
    fn subscribe(&mut self) -> Vec<ClipboardEvent> {
        Vec::new()
    }
    fn read_targets(&mut self) -> Result<Vec<MimeBlob>, BackendError> {
        Err(BackendError::Io("broken pipe".to_string()))
    }
    fn offer(&mut self, _entry: &Entry) -> Result<(), BackendError> {
        Err(BackendError::Protocol("BadWindow".to_string()))
    }
    fn source_hint(&self) -> Result<AppId, BackendError> {
        Ok(AppId::default())
    }
}

#[test]
fn pushed_captures_are_stored_and_signalled() {
    let mut s = service();
    let id = s.add_entry(vec![dto("text/plain", b"pushed")]).unwrap();
    assert_eq!(id, 1);
    assert_eq!(s.take_effects(), vec![Effect::EntryAdded(1)]);
    assert_eq!(s.take_effects(), vec![]);
    assert_eq!(s.entry_count(), Ok(1));
    let rows = s.query(0, 10, None).unwrap();
    assert_eq!(rows.len(), 1);
    assert_eq!(rows[0].preview_text, Some("pushed".to_string()));
    assert_eq!(rows[0].preview_kind, "text");
    assert_eq!(rows[0].origin, None);
    assert_eq!(s.search("push", 10).unwrap().len(), 1);
    let e = s.get_entry(1).unwrap().unwrap();
    assert_eq!(e.targets, vec![dto("text/plain", b"pushed")]);
    assert_eq!(e.size_bytes, 6);
    assert_eq!(s.get_entry(2), Ok(None));
}

#[test]
fn a_locked_service_refuses() {
    let mut s = service();
    s.add_entry(vec![dto("text/plain", b"x")]).unwrap();
    s.take_effects();
    s.lock();
    assert!(s.locked());
    assert_eq!(
        s.take_effects(),
        vec![Effect::StateChanged { paused: false, locked: true }]
    );
    let m = "database is locked; call RequestUnlock";
    assert_eq!(s.entry_count(), failed(m));
    assert_eq!(s.query(0, 1, None), failed(m));
    assert_eq!(s.search("x", 1), failed(m));
    assert_eq!(s.get_entry(1), failed(m));
    assert_eq!(s.pick(1, true), failed(m));
    assert_eq!(s.delete(vec![1]), failed(m));
    assert_eq!(s.set_pinned(1, true), failed(m));
    assert_eq!(s.set_group(1, None), failed(m));
    assert_eq!(s.clear(), failed(m));
    assert_eq!(s.add_entry(vec![]), failed("database is locked"));
    assert_eq!(s.take_effects(), vec![]);
    assert_eq!(s.state().entry_count, -1);
    assert!(s.state().locked);
}

#[test]
fn a_service_on_a_closed_store_refuses() {
    let handle = StoreHandle::pending("/tmp/cling-service-closed.clingdb".to_string());
    let mut s = ClipboardManagerService::new(handle, MockBackend::new("mock", ALL), NoUnlock);
    assert_eq!(s.query(0, 1, None), failed("database is locked"));
    assert_eq!(s.pick(1, false), failed("database is locked"));
    assert_eq!(s.add_entry(vec![dto("a/b", b"x")]), failed("database is locked"));
    assert_eq!(s.state().entry_count, -1);
    assert!(!s.state().locked);
}

#[test]
fn a_paused_service_takes_no_captures() {
    let mut s = service();
    s.pause(true);
    assert!(s.paused());
    assert_eq!(s.add_entry(vec![dto("text/plain", b"x")]), failed("capture is paused"));
    s.pause(false);
    assert_eq!(s.add_entry(vec![dto("text/plain", b"x")]), Ok(1));
    assert_eq!(
        s.take_effects(),
        vec![
            Effect::StateChanged { paused: true, locked: false },
            Effect::StateChanged { paused: false, locked: false },
            Effect::EntryAdded(1),
        ]
    );
}

#[test]
fn the_policy_applies_to_pushed_captures() {
    let mut s = service();
    s.exclude_app_add("anything");
    s.exclude_content_regex_add("^token ").unwrap();
    let dropped = "capture dropped by policy";
    assert_eq!(s.add_entry(vec![dto("text/plain", b"token 123")]), failed(dropped));
    assert_eq!(s.add_entry(vec![]), failed(dropped));
    assert_eq!(s.add_entry(vec![dto("text/plain", &vec![b'x'; 52_428_801])]), failed(dropped));
    assert_eq!(s.entry_count(), Ok(0));
    assert_eq!(s.add_entry(vec![dto("text/html", b"token 123")]), Ok(1));
    let rules = compile_all(&vec!["nothing".to_string()]);
    assert_eq!(s.add_entry_compiled(vec![dto("text/plain", b"token 123")], &rules), Ok(2));
    assert_eq!(s.take_effects(), vec![Effect::EntryAdded(1), Effect::EntryAdded(2)]);
}

#[test]
fn picking_offers_the_entry_and_counts_the_use() {
    let mut s = service().with_auto_paste(true);
    s.add_entry(vec![dto("text/plain", b"pick me")]).unwrap();
    s.take_effects();
    s.pick(1, false).unwrap();
    assert_eq!(s.take_effects(), vec![]);
    s.pick(1, true).unwrap();
    assert_eq!(s.take_effects(), vec![Effect::AutoPaste]);
    assert_eq!(s.get_entry(1).unwrap().unwrap().use_count, 3);
    assert_eq!(s.pick(7, true), failed("no entry 7"));
    assert_eq!(s.take_effects(), vec![]);
    // Without the callback nothing is pasted.
    let mut t = service();
    t.add_entry(vec![dto("text/plain", b"x")]).unwrap();
    t.take_effects();
    t.pick(1, true).unwrap();
    assert_eq!(t.take_effects(), vec![]);
}

#[test]
fn a_pick_is_settled_by_what_became_of_the_offer() {
    let mut s = service().with_auto_paste(true);
    s.add_entry(vec![dto("text/plain", b"pick me")]).unwrap();
    s.take_effects();
    let refused = Err(BackendError::Unavailable("no".to_string()));
    assert_eq!(s.settle_pick(1, true, refused), failed("offer: backend unavailable: no"));
    assert_eq!(s.take_effects(), vec![]);
    assert_eq!(s.get_entry(1).unwrap().unwrap().use_count, 1);
    assert_eq!(s.settle_pick(1, false, Ok(())), Ok(()));
    assert_eq!(s.take_effects(), vec![]);
    assert_eq!(s.settle_pick(1, true, Ok(())), Ok(()));
    assert_eq!(s.take_effects(), vec![Effect::AutoPaste]);
    assert_eq!(s.get_entry(1).unwrap().unwrap().use_count, 3);
}

#[test]
fn a_failed_offer_counts_no_use() {
    let mut s = ClipboardManagerService::new(Store::open_memory(None).unwrap(), Refusing, NoUnlock);
    s.add_entry(vec![dto("text/plain", b"x")]).unwrap();
    assert_eq!(s.pick(1, false), failed("offer: backend protocol error: BadWindow"));
    assert_eq!(s.get_entry(1).unwrap().unwrap().use_count, 1);
    assert_eq!(s.backend_name(), "refusing");
}

#[test]
fn deleting_signals_each_id() {
    let mut s = service();
    s.add_entry(vec![dto("text/plain", b"a")]).unwrap();
    s.add_entry(vec![dto("text/plain", b"b")]).unwrap();
    s.take_effects();
    s.delete(vec![2, 1]).unwrap();
    assert_eq!(
        s.take_effects(),
        vec![Effect::EntryRemoved(2), Effect::EntryRemoved(1)]
    );
    assert_eq!(s.entry_count(), Ok(0));
    s.add_entry(vec![dto("text/plain", b"c")]).unwrap();
    s.set_pinned(1, true).unwrap();
    assert!(s.get_entry(1).unwrap().unwrap().pinned);
    s.set_group(1, None).unwrap();
    assert_eq!(s.set_group(1, Some(3)), failed("FOREIGN KEY constraint failed"));
    s.clear().unwrap();
    assert_eq!(s.entry_count(), Ok(0));
}

#[test]
fn exclusions_reach_the_capture_loop() {
    let mut s = service();
    s.exclude_app_add("KeePassXC");
    s.exclude_app_add("pass");
    s.exclude_app_add("pass");
    s.exclude_app_remove("pass");
    assert_eq!(s.state().excluded_apps, vec!["KeePassXC".to_string()]);
    s.exclude_content_regex_add("^s3cret").unwrap();
    s.exclude_content_regex_add("temp").unwrap();
    s.exclude_content_regex_remove("temp");
    match s.exclude_content_regex_add("(") {
        Err(ServiceError::Failed(m)) => assert!(m.starts_with("bad regex: regex parse error")),
        Ok(_) => panic!("accepted a broken pattern"),
    }
    s.pause(true);
    let mut manager = ClipboardManager::new();
    s.apply_policy(&mut manager);
    assert!(manager.policy().paused);
    s.pause(false);
    s.apply_policy(&mut manager);
    let app = |id: &str| AppId { id: Some(id.to_string()), label: None };
    let text = |b: &[u8]| vec![MimeBlob { mime: "text/plain".to_string(), bytes: b.to_vec() }];
    assert_eq!(manager.filter_capture(text(b"x"), &app("keepassxc")), None);
    assert!(manager.filter_capture(text(b"x"), &app("pass")).is_some());
    assert_eq!(manager.filter_capture(text(b"s3cret!"), &app("a")), None);
    assert!(manager.filter_capture(text(b"temp"), &app("a")).is_some());
}

#[test]
fn patterns_are_admitted_by_their_check() {
    let mut s = service();
    let why = || "why".to_string();
    assert_eq!(s.admit_pattern("x", Err(PatternError::Syntax(why()))), failed("bad regex: why"));
    assert_eq!(s.admit_pattern("x", Err(PatternError::TooBig(why()))), failed("bad regex: why"));
    assert_eq!(s.admit_pattern("x", Ok(())), Ok(()));
}

#[test]
fn unlocking_goes_by_the_handler() {
    let store = || Store::open_memory(None).unwrap();
    let backend = || MockBackend::new("mock", ALL);
    let mut s = ClipboardManagerService::new(store(), backend(), Answer(Ok(UnlockOutcome::Unlocked)));
    s.lock();
    s.take_effects();
    assert_eq!(s.request_unlock(), Ok(true));
    assert!(!s.locked());
    assert_eq!(
        s.take_effects(),
        vec![Effect::Unlocked, Effect::StateChanged { paused: false, locked: false }]
    );
    let mut s = ClipboardManagerService::new(store(), backend(), Answer(Ok(UnlockOutcome::Cancelled)));
    s.lock();
    s.take_effects();
    assert_eq!(s.request_unlock(), Ok(false));
    assert!(s.locked());
    let mut s = ClipboardManagerService::new(store(), backend(), Answer(Ok(UnlockOutcome::Rejected)));
    s.lock();
    assert_eq!(s.request_unlock(), failed("incorrect passphrase"));
    assert!(s.locked());
    let mut s = service();
    s.lock();
    assert_eq!(
        s.request_unlock(),
        failed("unlock: no unlock mechanism configured (encryption off or unavailable)")
    );
    assert!(s.locked());
}

#[test]
fn the_state_is_a_snapshot() {
    let mut s = service();
    s.add_entry(vec![dto("text/plain", b"a")]).unwrap();
    s.pause(true);
    let state = s.state();
    assert!(state.paused);
    assert!(!state.locked);
    assert_eq!(state.backend, "mock");
    assert_eq!(state.entry_count, 1);
    assert!(state.excluded_apps.is_empty());
    assert_eq!(
        s.caps(),
        CapsDto { silent_history: true, auto_paste: true, source_id: true }
    );
    assert!(!CapsDto::default().auto_paste);
}

#[test]
fn errors_have_messages() {
    assert_eq!(dbus_err(StoreError::Locked), ServiceError::Failed("database is locked".to_string()));
    assert_eq!(dbus_err(StoreError::Db("m".to_string())), ServiceError::Failed("m".to_string()));
    assert_eq!(no_entry(-3), ServiceError::Failed("no entry -3".to_string()));
    assert_eq!(BackendError::Io("e".to_string()).message(), "backend io error: e");
    assert_eq!(BackendError::Unavailable("e".to_string()).message(), "backend unavailable: e");
    assert_eq!(BackendError::Protocol("e".to_string()).message(), "backend protocol error: e");
    assert_eq!(StoreError::Db("e".to_string()).message(), "database error: e");
    assert_eq!(StoreError::Locked.message(), "database is locked; unlock required");
}

#[test]
fn unreadable_selections_are_reported() {
    let mut store = Store::open_memory(None).unwrap();
    let manager = ClipboardManager::new();
    let ev = ClipboardEvent::SelectionChanged { source: AppId::default() };
    let handled = manager.handle(ev, (&mut Refusing).read_targets(), &mut store);
    assert!(matches!(handled, Handled::Unreadable(BackendError::Io(_))));
    assert_eq!(store.count().unwrap(), 0);
}

#[test]
fn commands_become_calls() {
    let call = call_for(Command::List { limit: 30 }, vec![]);
    assert!(matches!(call, Call::Query { offset: 0, limit: 30, group: None }));
    let call = call_for(Command::Pin { id: 4, unpin: true }, vec![]);
    assert!(matches!(call, Call::SetPinned { id: 4, pinned: false }));
    let call = call_for(Command::Pause { off: true }, vec![]);
    assert!(matches!(call, Call::Pause { paused: false }));
    match call_for(Command::Add { mime: "text/plain".to_string() }, b"piped".to_vec()) {
        Call::AddEntry { targets } => assert_eq!(targets, vec![dto("text/plain", b"piped")]),
        _ => panic!("not an added entry"),
    }
    let call = call_for(Command::Pick { id: 1, auto_paste: true }, vec![]);
    assert!(matches!(call, Call::Pick { id: 1, auto_paste: true }));
    assert!(matches!(call_for(Command::Clear, vec![]), Call::Clear));
    assert!(matches!(call_for(Command::Lock, vec![]), Call::Lock));
    assert!(matches!(call_for(Command::State, vec![]), Call::State));
    assert!(matches!(call_for(Command::Get { id: 9 }, vec![]), Call::GetEntry { id: 9 }));
}

fn summary(id: i64, kind: &str, uses: u32, preview: Option<&str>) -> SummaryDto {
    SummaryDto {
        id,
        ts: 0,
        pinned: false,
        group: None,
        origin: None,
        use_count: uses,
        preview_kind: kind.to_string(),
        size_bytes: 0,
        preview_text: preview.map(|s| s.to_string()),
    }
}

#[test]
fn summaries_are_printed_in_columns() {
    let rows = vec![
        summary(12, "text", 3, Some("two\nlines\r")),
        summary(123456789, "image", 1, None),
    ];
    let expected = format!(
        "{:<8} {:<8} {:<5} PREVIEW\n{:<8} {:<8} {:<5} {}\n{:<8} {:<8} {:<5} {}\n",
        "ID", "KIND", "USE", 12, "text", 3, "two lines ", 123456789, "image", 1, ""
    );
    assert_eq!(summary_table(&rows), expected);
    assert_eq!(row_label(&rows[0]), "two\nlines\r");
    assert_eq!(row_label(&rows[1]), "<image>");
    assert_eq!(status_label(2), "2 entries");
}

#[test]
fn an_entry_is_printed_as_its_plain_text() {
    let mut entry = EntryDto {
        id: 1,
        ts: 0,
        pinned: false,
        group: None,
        origin: None,
        use_count: 1,
        preview_kind: "rich".to_string(),
        size_bytes: 0,
        targets: vec![dto("text/html", b"<b>"), dto("TEXT/plain", &[0xff, 1]), dto("text/plain", b"q")],
    };
    match print_entry(&entry) {
        Printout::Bytes(b) => assert_eq!(b, vec![0xff, 1]),
        Printout::Lines(_) => panic!("no bytes"),
    }
    entry.targets = vec![dto("text/html", b"<b>"), dto("image/png", b"")];
    match print_entry(&entry) {
        Printout::Lines(s) => assert_eq!(s, "text/html (3 bytes)\nimage/png (0 bytes)\n"),
        Printout::Bytes(_) => panic!("no lines"),
    }
}

#[test]
fn targets_cross_the_wire_unchanged() {
    let blob = MimeBlob { mime: "a/b".to_string(), bytes: vec![0, 255] };
    let wire = TargetDto::from(blob.clone());
    assert_eq!(wire, dto("a/b", &[0, 255]));
    assert_eq!(MimeBlob::from(wire), blob);
}
