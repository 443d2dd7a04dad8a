//! What the daemon decides at startup.

use vstd::prelude::*;
use vstd::string::*;

use crate::backends::{detect_backend_name, detected, WlrootsBackend};
use crate::errors::{store_message, told_by_database, StoreError};
use crate::handle::StoreHandle;
use crate::store::Store;
use crate::text::{folded, same_folded, same_text, to_ascii_lowercase};
use crate::traits::HistoryStore;
use crate::types::optional_text;

verus! {

broadcast use vstd::string::group_string_axioms;

/// Why the Wayland backend cannot be used.
pub const NO_WAYLAND: &'static str =
    "Wayland backend requires the data-control protocol; not yet wired in this build";

/// Why there is no backend to use.
pub const NO_DISPLAY: &'static str = "no display server detected (set DISPLAY or WAYLAND_DISPLAY)";

/// Why there is no path for the history.
pub const NO_HOME: &'static str = "no home directory for data path";

/// The options of the daemon.
#[derive(Debug, Clone)]
pub struct DaemonOpts {
    /// Override the path of the history database.
    pub db_path: Option<String>,
    /// Passphrase of the encrypted history. The environment or the unlock
    /// dialog is to be preferred over the command line.
    pub passphrase: Option<String>,
    /// Force the clipboard backend: `x11` or `wayland`.
    pub backend: Option<String>,
    /// Take it that a Wayland display is there.
    pub wayland: bool,
    /// Take it that an X11 display is there.
    pub x11: bool,
    /// The program that shows the unlock dialog.
    pub show_binary: String,
}

/// The passphrase to open the history with: the one among the options, or else
/// the one of the environment.
pub open spec fn chosen_passphrase(opts: DaemonOpts, from_env: Option<String>) -> Option<
    Seq<char>,
> {
    match optional_text(opts.passphrase) {
        Some(p) => Some(p),
        None => optional_text(from_env),
    }
}

/// The path of the history: the one among the options, or else the one in the
/// data directory of the user, if there is a home directory.
pub open spec fn chosen_path(opts: DaemonOpts, in_data_dir: Option<String>) -> Option<Seq<char>> {
    match optional_text(opts.db_path) {
        Some(p) => Some(p),
        None => optional_text(in_data_dir),
    }
}

/// The passphrase to open the history with, if there is one.
pub fn choose_passphrase(opts: &DaemonOpts, from_env: Option<String>) -> (r: Option<String>)
    ensures
        optional_text(r) == chosen_passphrase(*opts, from_env),
{
    match &opts.passphrase {
        Some(p) => Some(p.clone()),
        None => from_env,
    }
}

/// The path of the history, or the message that there is none.
pub fn choose_path(opts: &DaemonOpts, in_data_dir: Option<String>) -> (r: Result<String, String>)
    ensures
        match chosen_path(*opts, in_data_dir) {
            Some(p) => r matches Ok(path) && path@ == p,
            None => r matches Err(m) && m@ == NO_HOME@,
        },
{
    match &opts.db_path {
        Some(p) => Ok(p.clone()),
        None => match in_data_dir {
            Some(p) => Ok(p),
            None => Err(NO_HOME.to_owned()),
        },
    }
}

/// The message for a history at `path` that could not be opened.
pub open spec fn open_failure(path: Seq<char>, e: StoreError) -> Seq<char> {
    "opening store at "@ + path + ": "@ + store_message(e)
}

/// Open the history at the path and with the passphrase that are to be used.
/// Without a passphrase it is not encrypted.
pub fn open_store(
    opts: &DaemonOpts,
    in_data_dir: Option<String>,
    from_env: Option<String>,
) -> (r: Result<StoreHandle, String>)
    ensures
        match chosen_path(*opts, in_data_dir) {
            None => r matches Err(m) && m@ == NO_HOME@,
            Some(p) => match r {
                Ok(handle) => {
                    &&& handle.path() == Some(p)
                    &&& handle.history() matches Some(d)
                    &&& d.path == Some(p)
                    &&& d.key == chosen_passphrase(*opts, from_env)
                },
                Err(m) => exists|e: StoreError| #[trigger]
                    told_by_database(e) && m@ == open_failure(p, e),
            },
        },
{
    let path = choose_path(opts, in_data_dir)?;
    let passphrase = choose_passphrase(opts, from_env);
    let key: Option<&str> = match &passphrase {
        Some(p) => Some(p.as_str()),
        None => None,
    };
    match Store::open(path.as_str(), key) {
        Ok(store) => Ok(StoreHandle::opened(store, Some(path))),
        Err(e) => {
            let m = "opening store at ".to_owned().concat(path.as_str()).concat(": ").concat(
                e.message().as_str(),
            );
            assert(told_by_database(e) && m@ == open_failure(path@, e));
            Err(m)
        },
    }
}

/// The backend to use, if any: the one that is asked for by name, in any ASCII
/// case, or else the best one for the displays that are there. As long as the
/// Wayland backend has no client, X11 stands in for it where there is an X11
/// display.
pub open spec fn wanted_backend(
    named: Option<Seq<char>>,
    has_wayland: bool,
    has_x11: bool,
) -> Option<Seq<char>> {
    match named {
        Some(s) => Some(folded(s)),
        None => if has_x11 {
            Some("x11"@)
        } else {
            detected(has_wayland, has_x11)
        },
    }
}

/// Whether the X11 backend is to be used, or why no backend can be: the Wayland
/// one is not there yet, and any other name stands for none. Where no backend is
/// asked for by name, the daemon falls back from Wayland to X11.
pub fn select_backend(opts: &DaemonOpts, env_wayland: bool, env_x11: bool) -> (r: Result<
    (),
    String,
>)
    ensures
        ({
            let want = wanted_backend(
                optional_text(opts.backend),
                opts.wayland || env_wayland,
                opts.x11 || env_x11,
            );
            if want == Some("x11"@) {
                r is Ok
            } else if want == Some("wayland"@) {
                r matches Err(m) && m@ == NO_WAYLAND@
            } else {
                r matches Err(m) && m@ == NO_DISPLAY@
            }
        }),
        opts.backend is None && (opts.x11 || env_x11) ==> r is Ok,
{
    let has_wayland = opts.wayland || env_wayland;
    let has_x11 = opts.x11 || env_x11;
    let want: Option<String> = match &opts.backend {
        Some(s) => Some(to_ascii_lowercase(s.as_str())),
        None => {
            let found = if has_wayland && has_x11 && !WlrootsBackend::probe_supported() {
                detect_backend_name(false, has_x11)
            } else {
                detect_backend_name(has_wayland, has_x11)
            };
            match found {
                Some(s) => Some(s.to_owned()),
                None => None,
            }
        },
    };
    if let Some(name) = want {
        if same_text(name.as_str(), "x11") {
            return Ok(());
        }
        if same_text(name.as_str(), "wayland") {
            return Err(NO_WAYLAND.to_owned());
        }
    }
    Err(NO_DISPLAY.to_owned())
}

// ---- laws of the startup ----

/// What is given on the command line comes before what the environment offers, and counts
/// as it was given.
pub proof fn options_come_first(
    opts: DaemonOpts,
    in_data_dir: Option<String>,
    from_env: Option<String>,
)
    ensures
        opts.passphrase matches Some(p) ==> chosen_passphrase(opts, from_env) == Some(p@),
        opts.passphrase is None && from_env is None ==> chosen_passphrase(opts, from_env) is None,
        opts.passphrase is None ==> (from_env matches Some(p) ==> chosen_passphrase(opts, from_env)
            == Some(p@)),
        opts.db_path matches Some(p) ==> chosen_path(opts, in_data_dir) == Some(p@),
        opts.db_path is None && in_data_dir is None ==> chosen_path(opts, in_data_dir) is None,
        opts.db_path is None ==> (in_data_dir matches Some(p) ==> chosen_path(opts, in_data_dir)
            == Some(p@)),
{
}

/// A backend that is asked for by name is the one that is wanted, whatever displays are
/// there. Without a name X11 is wanted wherever it is there, Wayland where it alone is, and
/// none where there is neither.
pub proof fn named_backend_comes_first(name: Seq<char>, has_wayland: bool, has_x11: bool)
    ensures
        wanted_backend(Some(name), has_wayland, has_x11) matches Some(w) && same_folded(w, name),
        same_folded(name, "x11"@) ==> wanted_backend(Some(name), has_wayland, has_x11) == Some(
            "x11"@,
        ),
        same_folded(name, "wayland"@) ==> wanted_backend(Some(name), has_wayland, has_x11) == Some(
            "wayland"@,
        ),
        has_x11 ==> wanted_backend(None, has_wayland, has_x11) == Some("x11"@),
        !has_x11 && has_wayland ==> wanted_backend(None, has_wayland, has_x11) == Some("wayland"@),
        !has_x11 && !has_wayland ==> wanted_backend(None, has_wayland, has_x11) is None,
{
    reveal_strlit("x11");
    reveal_strlit("wayland");
    assert(folded("x11"@) =~= "x11"@);
    assert(folded("wayland"@) =~= "wayland"@);
    assert(folded(folded(name)) =~= folded(name));
}

/// A history that could not be opened is told of with its path and the reason.
pub proof fn failed_start_tells_path_and_reason(path: Seq<char>, e: StoreError)
    ensures
        e matches StoreError::Db(m) ==> open_failure(path, e) == "opening store at "@ + path + ": "@
            + ("database error: "@ + m@),
        e is Locked ==> open_failure(path, e) == "opening store at "@ + path + ": "@
            + "database is locked; unlock required"@,
{
}

/// Each reason not to start says what is missing.
pub proof fn refusals_say_what_is_missing()
    ensures
        NO_WAYLAND@
            == "Wayland backend requires the data-control protocol; not yet wired in this build"@,
        NO_DISPLAY@ == "no display server detected (set DISPLAY or WAYLAND_DISPLAY)"@,
        NO_HOME@ == "no home directory for data path"@,
{
}

/// The daemon starts with X11 where that is asked for by name, in any ASCII case, or where
/// no backend is and an X11 display is there; and it says why not, where it does not.
pub proof fn daemon_starts_with_x11_alone(
    opts: &DaemonOpts,
    env_wayland: bool,
    env_x11: bool,
    r: Result<(), String>,
)
    requires
        call_ensures(select_backend, (opts, env_wayland, env_x11), r),
    ensures
        opts.backend matches Some(name) ==> (r is Ok <==> same_folded(name@, "x11"@)),
        opts.backend is None ==> (r is Ok <==> opts.x11 || env_x11),
        opts.backend matches Some(name) ==> (same_folded(name@, "wayland"@) ==> (r matches Err(m)
            && m@ == NO_WAYLAND@)),
        opts.backend matches Some(name) ==> (!same_folded(name@, "wayland"@) && r is Err ==> (
        r matches Err(m) && m@ == NO_DISPLAY@)),
        opts.backend is None && r is Err ==> (r matches Err(m) && m@ == if opts.wayland
            || env_wayland {
            NO_WAYLAND@
        } else {
            NO_DISPLAY@
        }),
{
    reveal_strlit("x11");
    reveal_strlit("wayland");
    assert(folded("x11"@) =~= "x11"@);
    assert(folded("wayland"@) =~= "wayland"@);
    assert("x11"@.len() != "wayland"@.len());
}

/// A history that is opened is the one at the path that was given, or else at the usual one,
/// under the passphrase that was given, or else under that of the environment.
pub proof fn opened_history_is_the_chosen_one(
    opts: &DaemonOpts,
    in_data_dir: Option<String>,
    from_env: Option<String>,
    r: Result<StoreHandle, String>,
)
    requires
        call_ensures(open_store, (opts, in_data_dir, from_env), r),
    ensures
        r matches Ok(handle) ==> {
            &&& handle.history() matches Some(d)
            &&& handle.path() == d.path
            &&& opts.db_path matches Some(p) ==> d.path == Some(p@)
            &&& opts.db_path is None ==> (in_data_dir matches Some(p) && d.path == Some(p@))
            &&& opts.passphrase matches Some(p) ==> d.key == Some(p@)
            &&& opts.passphrase is None && from_env is None ==> d.key is None
            &&& opts.passphrase is None ==> (from_env matches Some(p) ==> d.key == Some(p@))
        },
        opts.db_path is None && in_data_dir is None ==> (r matches Err(m) && m@ == NO_HOME@),
{
}

} // verus!
