//! The choice of a backend and what the backends can do.

use cling::backends::{detect_backend_name, wayland_caps, x11_caps, WlrootsBackend};
use cling::daemon::{choose_passphrase, choose_path, open_store, select_backend, DaemonOpts};
use cling::traits::HistoryStore;
use cling::types::{AppId, Caps, MimeBlob};

#[test]
fn detects_wayland_when_present() {
    assert_eq!(detect_backend_name(true, true), Some("wayland"));
    assert_eq!(detect_backend_name(true, false), Some("wayland"));
}

#[test]
fn falls_back_to_x11() {
    assert_eq!(detect_backend_name(false, true), Some("x11"));
}

#[test]
fn none_when_no_display() {
    assert_eq!(detect_backend_name(false, false), None);
}

#[test]
fn wayland_caps_advertise_no_paste_no_source() {
    let c = wayland_caps();
    assert!(c.silent_history);
    assert!(!c.auto_paste);
    assert!(!c.source_id);
}

#[test]
fn x11_can_do_everything() {
    assert_eq!(
        x11_caps(),
        Caps { silent_history: true, auto_paste: true, source_id: true }
    );
    assert_eq!(
        Caps::default(),
        Caps { silent_history: false, auto_paste: false, source_id: false }
    );
}

#[test]
fn wlroots_is_not_supported_yet() {
    let _backend = WlrootsBackend::new();
    assert!(!WlrootsBackend::probe_supported());
}

fn opts() -> DaemonOpts {
    DaemonOpts {
        db_path: None,
        passphrase: None,
        backend: None,
        wayland: false,
        x11: false,
        show_binary: "cling-show".to_string(),
    }
}

#[test]
fn backend_is_named_or_detected() {
    assert_eq!(select_backend(&opts(), false, true), Ok(()));
    // Until the Wayland backend is there, X11 stands in for it.
    assert_eq!(select_backend(&opts(), true, true), Ok(()));
    let wayland = select_backend(&opts(), true, false).unwrap_err();
    assert_eq!(
        wayland,
        "Wayland backend requires the data-control protocol; not yet wired in this build"
    );
    let none = select_backend(&opts(), false, false).unwrap_err();
    assert_eq!(none, "no display server detected (set DISPLAY or WAYLAND_DISPLAY)");
    let mut forced = opts();
    forced.backend = Some("X11".to_string());
    assert_eq!(select_backend(&forced, true, false), Ok(()));
    forced.backend = Some("Wayland".to_string());
    assert_eq!(select_backend(&forced, true, true), Err(wayland));
    forced.backend = Some("quartz".to_string());
    assert!(select_backend(&forced, true, true).is_err());
    let mut assumed = opts();
    assumed.x11 = true;
    assert_eq!(select_backend(&assumed, false, false), Ok(()));
}

#[test]
fn options_come_before_the_environment() {
    let mut o = opts();
    assert_eq!(choose_passphrase(&o, Some("env".to_string())), Some("env".to_string()));
    assert_eq!(choose_passphrase(&o, None), None);
    o.passphrase = Some("opt".to_string());
    assert_eq!(choose_passphrase(&o, Some("env".to_string())), Some("opt".to_string()));
    assert_eq!(choose_path(&o, Some("/d/x".to_string())), Ok("/d/x".to_string()));
    assert_eq!(choose_path(&o, None), Err("no home directory for data path".to_string()));
    o.db_path = Some("/p".to_string());
    assert_eq!(choose_path(&o, Some("/d/x".to_string())), Ok("/p".to_string()));
}

#[test]
fn the_store_is_opened_at_the_chosen_path() {
    let path = "/tmp/cling-test-chosen.clingdb".to_string();
    let mut o = opts();
    {
        let mut handle = open_store(&o, Some(path.clone()), Some("key".to_string())).unwrap();
        assert!(handle.is_open());
        handle.clear().unwrap();
        let text = MimeBlob { mime: "text/plain".to_string(), bytes: b"kept".to_vec() };
        handle.add_capture(vec![text], AppId::default(), u64::MAX).unwrap();
    }
    o.db_path = Some(path.clone());
    o.passphrase = Some("key".to_string());
    // The options come before the environment, and the path is where the data is.
    let mut again = open_store(&o, None, Some("other".to_string())).unwrap();
    assert_eq!(again.count().unwrap(), 1);
    o.passphrase = Some("wrong".to_string());
    match open_store(&o, None, None) {
        Err(m) => assert_eq!(
            m,
            format!("opening store at {path}: database is locked; unlock required")
        ),
        Ok(_) => panic!("opened with a wrong passphrase"),
    }
    o.db_path = None;
    assert!(matches!(open_store(&o, None, None), Err(m) if m == "no home directory for data path"));
}
