//! The decisions of the X11 backend.

use cling::clock::{now_millis, short_stamp, stamp, unix_millis};
use cling::types::{AppId, ClipboardEvent, MimeBlob};
use cling::x11::{
    atoms_from_bytes, bytes_from_atoms, class_of_text, conversion, notified_property, paste_keys,
    selection_event, source_of, target_label, targets_to_read, wm_class, Atoms, Converted,
    KeyStroke, Next, Offer, Piece, PropertyReader, Request,
};

const ATOMS: Atoms = Atoms {
    clipboard: 100,
    primary: 1,
    targets: 101,
    timestamp: 102,
    incr: 103,
    text_plain: 104,
};

fn t(mime: &str, b: &[u8]) -> MimeBlob {
    MimeBlob {
        mime: mime.into(),
        bytes: b.to_vec(),
    }
}

#[test]
fn atoms_are_read_in_the_byte_order_of_the_machine() {
    let bytes = [1, 2, 3, 4, 0xff, 0, 0, 0, 9];
    assert_eq!(atoms_from_bytes(&bytes, false), vec![0x0403_0201, 0xff]);
    assert_eq!(atoms_from_bytes(&bytes, true), vec![0x0102_0304, 0xff00_0000]);
    let native = cfg_native();
    assert_eq!(
        atoms_from_bytes(&0xdead_beef_u32.to_ne_bytes(), native),
        vec![0xdead_beef]
    );
    let list = vec![0, 1, 0x1234_5678, u32::MAX];
    assert_eq!(atoms_from_bytes(&bytes_from_atoms(&list, true), true), list);
    assert_eq!(atoms_from_bytes(&bytes_from_atoms(&list, false), false), list);
    assert_eq!(bytes_from_atoms(&vec![0x0102_0304], true), vec![1, 2, 3, 4]);
}

fn cfg_native() -> bool {
    1u32.to_ne_bytes()[3] == 1
}

#[test]
fn the_targets_of_the_protocol_are_not_read() {
    let listed = vec![101, 7, 102, 8, 103, 7];
    assert_eq!(targets_to_read(&ATOMS, &listed), vec![7, 8, 7]);
    assert_eq!(target_label(Some(b"text/html"), 7), "text/html");
    assert_eq!(target_label(Some(&[0xff]), 7), "\u{fffd}");
    assert_eq!(target_label(None, 7), "atom:7");
}

#[test]
fn notifications_are_matched_to_conversions() {
    assert_eq!(conversion(5, 100, 7, 5, 100, 7, 9), Converted::Ready);
    assert_eq!(conversion(5, 100, 7, 5, 100, 7, 0), Converted::Refused);
    assert_eq!(conversion(5, 100, 7, 6, 100, 7, 9), Converted::Other);
    assert_eq!(conversion(5, 100, 7, 5, 1, 7, 9), Converted::Other);
    assert_eq!(conversion(5, 100, 7, 5, 100, 8, 9), Converted::Other);
}

fn piece(kind: u32, value: &[u8], bytes_after: u32) -> Piece {
    Piece {
        kind,
        value: value.to_vec(),
        bytes_after,
    }
}

#[test]
fn a_property_is_read_in_pieces() {
    let mut reader = PropertyReader::new(&ATOMS);
    assert!(matches!(reader.take(piece(31, &[1, 2, 3, 4, 5, 6, 7, 8], 6)), Next::Read(2)));
    assert!(matches!(reader.take(piece(31, &[9, 10, 11, 12], 2)), Next::Read(3)));
    match reader.take(piece(31, &[13, 14], 0)) {
        Next::Done(data) => assert_eq!(data, (1..=14).collect::<Vec<u8>>()),
        _ => panic!("not done"),
    }
    let mut reader = PropertyReader::new(&ATOMS);
    assert!(matches!(reader.take(piece(31, &[], 0)), Next::Done(d) if d.is_empty()));
}

#[test]
fn increments_are_joined() {
    let mut reader = PropertyReader::new(&ATOMS);
    assert!(matches!(reader.take(piece(103, &[0, 0, 1, 0], 0)), Next::Await));
    assert!(matches!(reader.take(piece(31, b"abcd", 2)), Next::Read(1)));
    assert!(matches!(reader.take(piece(31, b"ef", 0)), Next::Await));
    assert!(matches!(reader.take(piece(31, b"gh", 0)), Next::Await));
    match reader.take(piece(31, b"", 0)) {
        Next::Done(data) => assert_eq!(data, b"abcdefgh".to_vec()),
        _ => panic!("not done"),
    }
    let mut reader = PropertyReader::new(&ATOMS);
    assert!(matches!(reader.take(piece(103, b"", 0)), Next::Await));
    assert!(matches!(reader.take(piece(31, b"part", 0)), Next::Await));
    assert_eq!(reader.finish(), b"part".to_vec());
}

fn request(selection: u32, target: u32, property: u32) -> Request {
    Request {
        requestor: 77,
        selection,
        target,
        property,
        time: 5,
    }
}

#[test]
fn what_is_offered_is_served() {
    let mut offer = Offer::new();
    let targets = vec![t("text/plain", b"hello"), t("a/b", &[0, 1]), t("bad name", b"fallback")];
    offer.set(&ATOMS, &targets, &vec![Some(31), Some(32), None], 4711);
    // A request for another selection is not answered.
    assert!(offer.answer(&ATOMS, &request(2, 31, 50), false).is_none());
    let a = offer.answer(&ATOMS, &request(100, 31, 50), false).unwrap();
    assert_eq!(a.property, 50);
    let c = a.change.unwrap();
    assert_eq!((c.kind, c.format, c.count), (31, 8, 5));
    assert_eq!(c.data, b"hello".to_vec());
    // An old client names no property.
    let a = offer.answer(&ATOMS, &request(1, 32, 0), false).unwrap();
    assert_eq!(a.property, 32);
    assert_eq!(a.change.unwrap().data, vec![0, 1]);
    // A mime without an atom goes by that of plain text.
    let a = offer.answer(&ATOMS, &request(100, 104, 50), false).unwrap();
    assert_eq!(a.change.unwrap().data, b"fallback".to_vec());
    // What is not offered is refused.
    assert!(offer.answer(&ATOMS, &request(100, 99, 50), false).unwrap().change.is_none());
    let c = offer.answer(&ATOMS, &request(100, 101, 50), true).unwrap().change.unwrap();
    assert_eq!((c.kind, c.format, c.count), (101, 32, 5));
    assert_eq!(atoms_from_bytes(&c.data, true), vec![101, 102, 31, 32, 104]);
    let c = offer.answer(&ATOMS, &request(100, 102, 50), false).unwrap().change.unwrap();
    assert_eq!((c.kind, c.format, c.count), (102, 32, 1));
    assert_eq!(c.data, 4711u32.to_le_bytes().to_vec());
    offer.clear();
    assert!(offer.answer(&ATOMS, &request(100, 31, 50), false).unwrap().change.is_none());
    let c = offer.answer(&ATOMS, &request(100, 101, 50), false).unwrap().change.unwrap();
    assert_eq!(c.count, 0);
    assert_eq!(notified_property(50, true), 50);
    assert_eq!(notified_property(50, false), 0);
}

#[test]
fn the_source_goes_by_its_window_class() {
    assert_eq!(wm_class(b"navigator\0Firefox\0"), Some("Firefox".to_string()));
    assert_eq!(wm_class(b"xterm\0"), Some("xterm".to_string()));
    assert_eq!(wm_class(b"\0\0a\0\0b\0c"), Some("b".to_string()));
    assert_eq!(wm_class(b"\0"), None);
    assert_eq!(class_of_text(""), None);
    let app = |id: &str, label: &str| AppId {
        id: Some(id.to_string()),
        label: Some(label.to_string()),
    };
    assert_eq!(source_of(Some(9), 5, Some("Firefox".to_string())), app("firefox", "Firefox"));
    assert_eq!(source_of(Some(9), 5, None), app("window:9", "window:9"));
    assert_eq!(source_of(Some(5), 5, None), app("cling", "cling"));
    assert_eq!(source_of(Some(0), 5, None), app("cling", "cling"));
    assert_eq!(source_of(None, 5, None), AppId::default());
}

#[test]
fn an_empty_selection_is_no_event() {
    let source = AppId { id: Some("a".to_string()), label: None };
    assert!(selection_event(&vec![], &source).is_none());
    match selection_event(&vec![t("a/b", b"")], &source) {
        Some(ClipboardEvent::SelectionChanged { source: s }) => assert_eq!(s, source),
        _ => panic!("no event"),
    }
}

#[test]
fn pasting_presses_control_and_v() {
    let key = |kind: u8, keycode: u8| KeyStroke { kind, keycode };
    assert_eq!(paste_keys(), vec![key(2, 37), key(2, 55), key(3, 55), key(3, 37)]);
}

#[test]
fn the_clock_counts_milliseconds() {
    assert_eq!(stamp(Some(1_700_000_000_123)), 1_700_000_000_123);
    assert_eq!(stamp(None), 0);
    assert_eq!(short_stamp(Some(0x1_0000_0007)), 7);
    assert_eq!(short_stamp(None), 0);
    // Later than the first of January 2020, on any clock that is set.
    assert!(unix_millis() > 1_577_836_800_000);
    let _ = now_millis();
}
