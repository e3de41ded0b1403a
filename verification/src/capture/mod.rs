//! Frame capture: the interface of a frame source and the choice of a backend for the
//! session.
//!
//! - Wayland: PipeWire and the desktop portal's ScreenCast.
//! - X11: XShm and XComposite.

pub mod descriptor;
pub mod wayland;
pub mod x11;

use crate::media::{Frame, StreamInfo};
use crate::path::{join, joined_path};
use crate::text::{joined, joined3, opt_str_text, opt_text, same};
use vstd::prelude::*;
use vstd::string::*;

verus! {

/// Where a source delivers every captured frame, on its own thread.
pub trait FrameSink: Send {
    fn deliver(&mut self, frame: Frame);
}

#[derive(Debug)]
pub enum CaptureError {
    /// The backend isn't available: not built, or the wrong session type.
    Unsupported(String),
    /// The user denied the screen-capture permission.
    PermissionDenied,
    /// A backend-specific failure.
    Backend(String),
}

/// What an error says.
pub open spec fn capture_message(e: CaptureError) -> Seq<char> {
    match e {
        CaptureError::Unsupported(s) => "capture unsupported: "@ + s@,
        CaptureError::PermissionDenied => "screen capture permission denied"@,
        CaptureError::Backend(s) => "capture backend error: "@ + s@,
    }
}

impl CaptureError {
    /// What the error says, for a user to read.
    pub fn message(&self) -> (r: String)
        ensures
            r@ == capture_message(*self),
    {
        match self {
            CaptureError::Unsupported(s) => joined("capture unsupported: ", s.as_str()),
            CaptureError::PermissionDenied => "screen capture permission denied".to_owned(),
            CaptureError::Backend(s) => joined("capture backend error: ", s.as_str()),
        }
    }
}

/// A source of raw frames. Implementations run their own capture thread and deliver
/// frames to the sink until they are stopped.
pub trait FrameSource: Send {
    /// Human-readable backend name, such as `wayland-pipewire`.
    fn name(&self) -> &str;

    /// Negotiated stream info, available once capture has started.
    fn stream_info(&self) -> Option<StreamInfo>;

    /// Begins capturing.
    fn start(&mut self, sink: Box<dyn FrameSink>) -> Result<(), CaptureError>;

    /// Stops capturing and releases all resources.
    fn stop(&mut self);
}

/// The Wayland backend, where it is built in.
pub fn open_wayland(built: Option<Result<Box<dyn FrameSource>, CaptureError>>) -> (r: Result<
    Box<dyn FrameSource>,
    CaptureError,
>)
    ensures
        match built {
            Some(opened) => r == opened,
            None => r matches Err(CaptureError::Unsupported(s)) && s@
                == "wayland capture not built (enable feature `capture-wayland`)"@,
        },
{
    match built {
        Some(opened) => opened,
        None => Err(
            CaptureError::Unsupported(
                "wayland capture not built (enable feature `capture-wayland`)".to_owned(),
            ),
        ),
    }
}

/// The X11 backend, where it is built in.
pub fn open_x11(built: Option<Result<Box<dyn FrameSource>, CaptureError>>) -> (r: Result<
    Box<dyn FrameSource>,
    CaptureError,
>)
    ensures
        match built {
            Some(opened) => r == opened,
            None => r matches Err(CaptureError::Unsupported(s)) && s@
                == "x11 capture not built (enable feature `capture-x11`)"@,
        },
{
    match built {
        Some(opened) => opened,
        None => Err(
            CaptureError::Unsupported(
                "x11 capture not built (enable feature `capture-x11`)".to_owned(),
            ),
        ),
    }
}

/// Selects and opens the capture backend for a session. A Wayland or X11 session gets
/// its own backend. In any other session Wayland is tried first and X11 after it fails;
/// where both fail, the error names the session.
pub fn create_source<W, X>(session: &str, wayland: W, x11: X) -> (r: Result<
    Box<dyn FrameSource>,
    CaptureError,
>) where
    W: FnOnce() -> Result<Box<dyn FrameSource>, CaptureError>,
    X: FnOnce() -> Result<Box<dyn FrameSource>, CaptureError>,

    requires
        session@ != "x11"@ ==> wayland.requires(()),
        session@ == "x11"@ ==> x11.requires(()),
        session@ != "wayland"@ && (exists|e: CaptureError| wayland.ensures((), Err(e)))
            ==> x11.requires(()),
    ensures
        session@ == "wayland"@ ==> wayland.ensures((), r),
        session@ == "x11"@ ==> x11.ensures((), r),
        session@ != "wayland"@ && session@ != "x11"@ ==> match r {
            Ok(_) => wayland.ensures((), r) || (x11.ensures((), r) && exists|e: CaptureError|
                wayland.ensures((), Err(e))),
            Err(e) => {
                &&& e matches CaptureError::Unsupported(s) && s@
                    == "no capture backend available for session '"@ + session@
                    + "' (build with --features capture-wayland,capture-x11)"@
                &&& exists|e: CaptureError| wayland.ensures((), Err(e))
                &&& exists|e: CaptureError| x11.ensures((), Err(e))
            },
        },
{
    proof {
        reveal_strlit("wayland");
        reveal_strlit("x11");
        assert("wayland"@.len() != "x11"@.len());
    }
    if same(session, "wayland") {
        return wayland();
    }
    if same(session, "x11") {
        return x11();
    }
    let first = wayland();
    match &first {
        Ok(_) => return first,
        Err(e) => {
            assert(wayland.ensures((), Err(*e)));
        },
    }
    let second = x11();
    match &second {
        Ok(_) => return second,
        Err(e) => {
            assert(x11.ensures((), Err(*e)));
        },
    }
    Err(
        CaptureError::Unsupported(
            joined3(
                "no capture backend available for session '",
                session,
                "' (build with --features capture-wayland,capture-x11)",
            ),
        ),
    )
}

/// The folder for user configuration: `$XDG_CONFIG_HOME` where it is set and not
/// empty, else `.config` in the home folder.
pub open spec fn config_home(xdg: Option<Seq<char>>, home: Option<Seq<char>>) -> Option<
    Seq<char>,
> {
    if xdg is Some && xdg->0.len() > 0 {
        xdg
    } else {
        match home {
            Some(home) => Some(joined_path(home, ".config"@)),
            None => None,
        }
    }
}

/// The folder of this program below the folder for user configuration.
pub open spec fn config_folder(xdg: Option<Seq<char>>, home: Option<Seq<char>>) -> Option<
    Seq<char>,
> {
    match config_home(xdg, home) {
        Some(base) => Some(joined_path(base, "rewind"@)),
        None => None,
    }
}

/// `${XDG_CONFIG_HOME:-~/.config}/rewind`, from the values of `$XDG_CONFIG_HOME` and
/// `$HOME`.
pub fn config_dir(xdg: Option<&str>, home: Option<&str>) -> (r: Option<String>)
    ensures
        opt_text(r) == config_folder(opt_str_text(xdg), opt_str_text(home)),
{
    match xdg {
        Some(base) => {
            if !base.is_empty() {
                return Some(join(base, "rewind"));
            }
        },
        None => {},
    }
    match home {
        Some(home) => {
            let base = join(home, ".config");
            Some(join(base.as_str(), "rewind"))
        },
        None => None,
    }
}

// --- laws --------------------------------------------------------------------------

/// An error says what kind it is and why.
pub proof fn law_capture_errors_say_why(e: CaptureError, r: String)
    requires
        call_ensures(CaptureError::message, (&e,), r),
    ensures
        e matches CaptureError::Unsupported(s) ==> r@ == "capture unsupported: "@ + s@,
        e matches CaptureError::Backend(s) ==> r@ == "capture backend error: "@ + s@,
        e is PermissionDenied ==> r@ == "screen capture permission denied"@,
{
}

/// The folder of this program is `rewind` in `$XDG_CONFIG_HOME` where that says something,
/// else in `.config` in the home folder; without either there is none.
pub proof fn law_config_folder(xdg: Option<&str>, home: Option<&str>, r: Option<String>)
    requires
        call_ensures(config_dir, (xdg, home), r),
    ensures
        xdg is Some && xdg->0@.len() > 0 ==> (r matches Some(dir) && dir@ == joined_path(
            xdg->0@,
            "rewind"@,
        )),
        (xdg is None || xdg->0@.len() == 0) && home is Some ==> (r matches Some(dir) && dir@
            == joined_path(joined_path(home->0@, ".config"@), "rewind"@)),
        (xdg is None || xdg->0@.len() == 0) && home is None ==> r is None,
{
}

/// A backend that is built in is taken as it was opened, and one that is not is unsupported.
pub proof fn law_built_backends_are_taken(
    opened: Result<Box<dyn FrameSource>, CaptureError>,
    wayland: Result<Box<dyn FrameSource>, CaptureError>,
    x11: Result<Box<dyn FrameSource>, CaptureError>,
    no_wayland: Result<Box<dyn FrameSource>, CaptureError>,
    no_x11: Result<Box<dyn FrameSource>, CaptureError>,
)
    requires
        call_ensures(open_wayland, (Some(opened),), wayland),
        call_ensures(open_x11, (Some(opened),), x11),
        call_ensures(open_wayland, (None,), no_wayland),
        call_ensures(open_x11, (None,), no_x11),
    ensures
        wayland == opened,
        x11 == opened,
        no_wayland matches Err(CaptureError::Unsupported(s)) && s@
            == "wayland capture not built (enable feature `capture-wayland`)"@,
        no_x11 matches Err(CaptureError::Unsupported(s)) && s@
            == "x11 capture not built (enable feature `capture-x11`)"@,
{
}

/// A session gets its own backend, and any other one the first that opens, Wayland before
/// X11; where neither does, the session is named.
pub proof fn law_session_gets_its_backend<W, X>(
    session: &str,
    wayland: W,
    x11: X,
    r: Result<Box<dyn FrameSource>, CaptureError>,
) where
    W: FnOnce() -> Result<Box<dyn FrameSource>, CaptureError>,
    X: FnOnce() -> Result<Box<dyn FrameSource>, CaptureError>,

    requires
        call_ensures(create_source::<W, X>, (session, wayland, x11), r),
    ensures
        session@ == "wayland"@ ==> wayland.ensures((), r),
        session@ == "x11"@ ==> x11.ensures((), r),
        session@ != "wayland"@ && session@ != "x11"@ && (forall|
            o: Result<Box<dyn FrameSource>, CaptureError>,
        |
            wayland.ensures((), o) ==> o is Ok) ==> r is Ok && wayland.ensures((), r),
        session@ != "wayland"@ && session@ != "x11"@ && (forall|
            o: Result<Box<dyn FrameSource>, CaptureError>,
        |
            wayland.ensures((), o) ==> o is Err) && (forall|
            o: Result<Box<dyn FrameSource>, CaptureError>,
        |
            x11.ensures((), o) ==> o is Ok) ==> r is Ok && x11.ensures((), r),
        session@ != "wayland"@ && session@ != "x11"@ && (forall|
            o: Result<Box<dyn FrameSource>, CaptureError>,
        |
            wayland.ensures((), o) ==> o is Err) && (forall|
            o: Result<Box<dyn FrameSource>, CaptureError>,
        |
            x11.ensures((), o) ==> o is Err) ==> (r matches Err(CaptureError::Unsupported(s)) && s@
            == "no capture backend available for session '"@ + session@
            + "' (build with --features capture-wayland,capture-x11)"@),
{
}

} // verus!
