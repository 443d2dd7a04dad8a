//! The choice of a clipboard backend.

use vstd::prelude::*;

use crate::types::Caps;

verus! {

broadcast use vstd::string::group_string_axioms;

/// The best backend for a display server, if there is any: Wayland before X11.
pub open spec fn detected(has_wayland: bool, has_x11: bool) -> Option<Seq<char>> {
    if has_wayland {
        Some("wayland"@)
    } else if has_x11 {
        Some("x11"@)
    } else {
        None
    }
}

/// The name of the best backend for the current environment. Each backend has a
/// constructor of its own.
pub fn detect_backend_name(has_wayland: bool, has_x11: bool) -> (r: Option<&'static str>)
    ensures
        match r {
            Some(name) => detected(has_wayland, has_x11) == Some(name@),
            None => detected(has_wayland, has_x11) is None,
        },
{
    if has_wayland {
        Some("wayland")
    } else if has_x11 {
        Some("x11")
    } else {
        None
    }
}

/// What the Wayland backends can do: capture history silently, and nothing
/// else.
pub fn wayland_caps() -> (r: Caps)
    ensures
        r == (Caps { silent_history: true, auto_paste: false, source_id: false }),
{
    Caps { silent_history: true, auto_paste: false, source_id: false }
}

/// What the X11 backend can do: everything.
pub fn x11_caps() -> (r: Caps)
    ensures
        r == (Caps { silent_history: true, auto_paste: true, source_id: true }),
{
    Caps { silent_history: true, auto_paste: true, source_id: true }
}

/// The backend for wlroots compositors and KDE Plasma 6, which speak the
/// data-control protocol. The protocol hides the source application and cannot
/// synthesize a paste. The client for it is not there yet: the daemon falls
/// back to the X11 backend, or to the GNOME extension.
pub struct WlrootsBackend {
    caps: Caps,
}

impl WlrootsBackend {
    /// What the backend can do.
    pub closed spec fn caps(&self) -> Caps {
        self.caps
    }

    /// The backend, with what it will be able to do.
    pub fn new() -> (r: Self)
        ensures
            r.caps() == (Caps { silent_history: true, auto_paste: false, source_id: false }),
    {
        WlrootsBackend { caps: wayland_caps() }
    }

    /// Whether the active compositor advertises data-control: without a client
    /// for it, no.
    pub fn probe_supported() -> (r: bool)
        ensures
            !r,
    {
        false
    }
}

/// Wayland is the best backend wherever it is there, X11 where it alone is, and there is
/// none without either.
pub proof fn wayland_comes_before_x11(has_wayland: bool, has_x11: bool)
    ensures
        has_wayland ==> detected(has_wayland, has_x11) == Some("wayland"@),
        !has_wayland && has_x11 ==> detected(has_wayland, has_x11) == Some("x11"@),
        !has_wayland && !has_x11 ==> detected(has_wayland, has_x11) is None,
{
}

} // verus!
