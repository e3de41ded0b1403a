//! X11 capture: which drawable is grabbed, how its pixels are laid out, how a window's
//! off-screen pixmap is set up and released, and what becomes of each grab.

use super::{config_dir, config_folder, CaptureError};
use crate::clock::FrameClock;
use crate::media::{CaptureTarget, Frame, PixelFormat, StreamInfo};
use crate::path::{join, joined_path};
use crate::text::{decimal, joined, opt_str_text, opt_text, u64_text};
use std::sync::Arc;
use vstd::prelude::*;
use vstd::string::*;
use x11rb::protocol::xproto::GetPropertyReply;

verus! {

/// The capture rate in frames per second.
pub const DEFAULT_FRAMERATE: u32 = 60;

/// Bytes per pixel of a 32-bit image.
pub const BPP: u32 = 4;

/// The longest sleep between two looks at whether capture goes on, in nanoseconds.
pub const PACING_SLICE_NS: u64 = 5_000_000;

// --- failures ----------------------------------------------------------------------

/// A failed call on the X server or for its shared memory, with what the error says.
#[derive(Debug)]
pub enum XFailure {
    Connect(String),
    Connection(String),
    Reply(String),
    ReplyOrId(String),
    RootGeometry(String),
    WindowGeometry(String),
    ReadActiveWindow(String),
    NamePixmap(String),
    Spawn(String),
}

/// The text that says what failed.
pub open spec fn failure_text(f: XFailure) -> Seq<char> {
    match f {
        XFailure::Connect(e) => "cannot connect to X server: "@ + e@,
        XFailure::Connection(e) => "x11 connection error: "@ + e@,
        XFailure::Reply(e) => "x11 reply error: "@ + e@,
        XFailure::ReplyOrId(e) => "x11 reply/id error: "@ + e@,
        XFailure::RootGeometry(e) => "get_geometry(root) failed: "@ + e@,
        XFailure::WindowGeometry(e) => "get_geometry(window) failed: "@ + e@,
        XFailure::ReadActiveWindow(e) => "read _NET_ACTIVE_WINDOW: "@ + e@,
        XFailure::NamePixmap(e) => "NameWindowPixmap: "@ + e@,
        XFailure::Spawn(e) => "failed to spawn capture thread: "@ + e@,
    }
}

/// The capture error of a failure. Without an X server the backend is unsupported;
/// everything else is a backend failure.
pub fn capture_error(f: XFailure) -> (r: CaptureError)
    ensures
        f is Connect ==> (r matches CaptureError::Unsupported(s) && s@ == failure_text(f)),
        !(f is Connect) ==> (r matches CaptureError::Backend(s) && s@ == failure_text(f)),
{
    match f {
        XFailure::Connect(e) => CaptureError::Unsupported(
            joined("cannot connect to X server: ", e.as_str()),
        ),
        XFailure::Connection(e) => CaptureError::Backend(
            joined("x11 connection error: ", e.as_str()),
        ),
        XFailure::Reply(e) => CaptureError::Backend(joined("x11 reply error: ", e.as_str())),
        XFailure::ReplyOrId(e) => CaptureError::Backend(
            joined("x11 reply/id error: ", e.as_str()),
        ),
        XFailure::RootGeometry(e) => CaptureError::Backend(
            joined("get_geometry(root) failed: ", e.as_str()),
        ),
        XFailure::WindowGeometry(e) => CaptureError::Backend(
            joined("get_geometry(window) failed: ", e.as_str()),
        ),
        XFailure::ReadActiveWindow(e) => CaptureError::Backend(
            joined("read _NET_ACTIVE_WINDOW: ", e.as_str()),
        ),
        XFailure::NamePixmap(e) => CaptureError::Backend(joined("NameWindowPixmap: ", e.as_str())),
        XFailure::Spawn(e) => CaptureError::Backend(
            joined("failed to spawn capture thread: ", e.as_str()),
        ),
    }
}

// --- properties --------------------------------------------------------------------

/// The value of a property, and the size of its elements in bits.
#[derive(Debug)]
pub struct PropertyReply {
    pub format: u8,
    pub value: Vec<u8>,
}

/// The 32-bit words in bytes, in one of the two byte orders; bytes at the end that make
/// no word are left out.
pub open spec fn words_in(value: Seq<u8>, msb_first: bool) -> Seq<u32> {
    Seq::new(
        value.len() / 4,
        |i: int|
            if msb_first {
                (value[4 * i] * 0x100_0000 + value[4 * i + 1] * 0x1_0000 + value[4 * i + 2] * 0x100
                    + value[4 * i + 3]) as u32
            } else {
                (value[4 * i + 3] * 0x100_0000 + value[4 * i + 2] * 0x1_0000 + value[4 * i + 1]
                    * 0x100 + value[4 * i]) as u32
            },
    )
}

/// The words of a property, which it has if its elements are of 32 bits.
pub open spec fn property_words(reply: PropertyReply, msb_first: bool) -> Option<Seq<u32>> {
    if reply.format == 32 {
        Some(words_in(reply.value@, msb_first))
    } else {
        None
    }
}

/// An optional vector by its contents.
pub open spec fn opt_words(words: Option<Vec<u32>>) -> Option<Seq<u32>> {
    match words {
        Some(words) => Some(words@),
        None => None,
    }
}

/// `x11rb::protocol::xproto::GetPropertyReply::value32`, collected: nothing unless the
/// format is 32, else the value in words of the machine's byte order. Which of the two
/// orders that is depends on the machine and is not said.
#[verifier::external_body]
fn value32(reply: &PropertyReply) -> (r: Option<Vec<u32>>)
    ensures
        opt_words(r) == property_words(*reply, false) || opt_words(r) == property_words(
            *reply,
            true,
        ),
{
    let reply = GetPropertyReply {
        format: reply.format,
        sequence: 0,
        length: 0,
        type_: 0,
        bytes_after: 0,
        value_len: 0,
        value: reply.value.clone(),
    };
    let words = reply.value32()?;
    Some(words.collect())
}

/// An atom that the server knows: atom 0 stands for none.
pub fn known_atom(atom: Option<u32>) -> (r: Option<u32>)
    ensures
        r == (if atom == Some(0u32) {
            None
        } else {
            atom
        }),
{
    match atom {
        Some(a) => if a == 0 {
            None
        } else {
            Some(a)
        },
        None => None,
    }
}

/// What came of reading `_NET_ACTIVE_WINDOW` on the root window.
#[derive(Debug)]
pub enum ActiveWindowRead {
    /// The server does not know the atom.
    UnknownAtom,
    Failed(XFailure),
    Value(PropertyReply),
}

/// The window in the words of `_NET_ACTIVE_WINDOW`; 0 stands for none.
pub open spec fn focused(words: Option<Seq<u32>>) -> u32 {
    if words is Some && words->0.len() > 0 {
        words->0[0]
    } else {
        0
    }
}

/// The result for a focused window: an error where there is none.
pub open spec fn is_focused_result(r: Result<u32, CaptureError>, window: u32) -> bool {
    match r {
        Ok(w) => w == window && window != 0,
        Err(e) => window == 0 && (e matches CaptureError::Backend(s) && s@
            == "no active window to capture (_NET_ACTIVE_WINDOW is None)"@),
    }
}

/// The window in the words of `_NET_ACTIVE_WINDOW`, or an error if nothing is focused.
pub fn focused_window(words: &Option<Vec<u32>>) -> (r: Result<u32, CaptureError>)
    ensures
        is_focused_result(r, focused(opt_words(*words))),
{
    let mut window: u32 = 0;
    match words {
        Some(words) => {
            if words.len() > 0 {
                window = words[0];
            }
        },
        None => {},
    }
    if window == 0 {
        Err(
            CaptureError::Backend(
                "no active window to capture (_NET_ACTIVE_WINDOW is None)".to_owned(),
            ),
        )
    } else {
        Ok(window)
    }
}

/// The active window, or an error if the window manager names none.
pub fn active_window(read: ActiveWindowRead) -> (r: Result<u32, CaptureError>)
    ensures
        match read {
            ActiveWindowRead::UnknownAtom => r matches Err(CaptureError::Backend(s)) && s@
                == "_NET_ACTIVE_WINDOW unsupported (no EWMH window manager?)"@,
            ActiveWindowRead::Failed(f) => r matches Err(e) && (match e {
                CaptureError::Unsupported(s) => f is Connect && s@ == failure_text(f),
                CaptureError::Backend(s) => !(f is Connect) && s@ == failure_text(f),
                CaptureError::PermissionDenied => false,
            }),
            ActiveWindowRead::Value(reply) => is_focused_result(
                r,
                focused(property_words(reply, false)),
            ) || is_focused_result(r, focused(property_words(reply, true))),
        },
{
    match read {
        ActiveWindowRead::UnknownAtom => Err(
            CaptureError::Backend(
                "_NET_ACTIVE_WINDOW unsupported (no EWMH window manager?)".to_owned(),
            ),
        ),
        ActiveWindowRead::Failed(f) => Err(capture_error(f)),
        ActiveWindowRead::Value(reply) => {
            let words = value32(&reply);
            focused_window(&words)
        },
    }
}

/// The listed windows, unless there are none.
pub fn listed_windows(words: Option<Vec<u32>>) -> (r: Option<Vec<u32>>)
    ensures
        opt_words(r) == (if words is Some && words->0@.len() > 0 {
            opt_words(words)
        } else {
            None
        }),
{
    match words {
        Some(list) => if list.len() == 0 {
            None
        } else {
            Some(list)
        },
        None => None,
    }
}

/// The windows in `_NET_CLIENT_LIST`, where it could be read and is not empty.
pub fn client_list(reply: &Option<PropertyReply>) -> (r: Option<Vec<u32>>)
    ensures
        r is Some <==> (*reply is Some && reply->0.format == 32 && reply->0.value@.len() >= 4),
        r matches Some(list) ==> list@ == words_in(reply->0.value@, false) || list@ == words_in(
            reply->0.value@,
            true,
        ),
{
    match reply {
        Some(reply) => {
            let words = value32(reply);
            listed_windows(words)
        },
        None => None,
    }
}

/// Windows and, for each, its children, in the order of the tree.
pub open spec fn flattened(top: Seq<(u32, Option<Vec<u32>>)>) -> Seq<u32>
    decreases top.len(),
{
    if top.len() == 0 {
        Seq::empty()
    } else {
        let (child, sub) = top.last();
        let head = flattened(top.drop_last()).push(child);
        match sub {
            Some(sub) => head + sub@,
            None => head,
        }
    }
}

/// The root's children and one level below, which reaches client windows that a window
/// manager has reparented. `top` is the root's children, each with its own children
/// where they could be read; nothing where the root could not be read.
pub fn tree_windows(top: &Option<Vec<(u32, Option<Vec<u32>>)>>) -> (r: Vec<u32>)
    ensures
        r@ == match *top {
            Some(top) => flattened(top@),
            None => Seq::empty(),
        },
{
    let mut out: Vec<u32> = Vec::new();
    let top = match top {
        Some(top) => top,
        None => return out,
    };
    for i in 0..top.len()
        invariant
            out@ == flattened(top@.take(i as int)),
    {
        assert(top@.take(i + 1).drop_last() =~= top@.take(i as int));
        out.push(top[i].0);
        match &top[i].1 {
            Some(sub) => {
                let ghost head = out@;
                for j in 0..sub.len()
                    invariant
                        out@ == head + sub@.take(j as int),
                {
                    out.push(sub[j]);
                    assert(out@ =~= head + sub@.take(j + 1));
                }
                assert(sub@.take(sub@.len() as int) =~= sub@);
            },
            None => {},
        }
    }
    assert(top@.take(top@.len() as int) =~= top@);
    out
}

/// The windows among which a remembered one is sought: the managed windows, or those of
/// the tree where the window manager lists none.
pub fn candidate_windows<T>(list: Option<Vec<u32>>, tree: T) -> (r: Vec<u32>) where
    T: FnOnce() -> Vec<u32>,

    requires
        list is None ==> tree.requires(()),
    ensures
        match list {
            Some(list) => r == list,
            None => tree.ensures((), r),
        },
{
    match list {
        Some(list) => list,
        None => tree(),
    }
}

// --- capture target ----------------------------------------------------------------

/// The resolved capture target: the whole root, or a window.
#[derive(Debug, Clone, Copy, PartialEq, Eq, Structural)]
pub enum TargetMode {
    Root,
    Window(u32),
}

impl TargetMode {
    /// The window whose identity is kept for the next launch.
    pub fn window_to_remember(self) -> (r: Option<u32>)
        ensures
            r == match self {
                TargetMode::Window(w) => Some(w),
                TargetMode::Root => None,
            },
    {
        match self {
            TargetMode::Window(w) => Some(w),
            TargetMode::Root => None,
        }
    }
}

/// Resolves a capture target. The active window is asked for only where it is needed:
/// the remembered window comes first, and a first run falls back to the active one.
pub fn resolve_target<R, A>(target: CaptureTarget, remembered: R, active: A) -> (r: Result<
    TargetMode,
    CaptureError,
>) where R: FnOnce() -> Option<u32>, A: FnOnce() -> Result<u32, CaptureError>
    requires
        target is Window ==> remembered.requires(()),
        target is ActiveWindow || (target is Window && remembered.ensures((), None))
            ==> active.requires(()),
    ensures
        match target {
            CaptureTarget::Monitor => r == Ok::<TargetMode, CaptureError>(TargetMode::Root),
            CaptureTarget::ActiveWindow => match r {
                Ok(mode) => mode matches TargetMode::Window(w) && active.ensures((), Ok(w)),
                Err(e) => active.ensures((), Err(e)),
            },
            CaptureTarget::Window => match r {
                Ok(mode) => mode matches TargetMode::Window(w) && (remembered.ensures((), Some(w))
                    || (remembered.ensures((), None) && active.ensures((), Ok(w)))),
                Err(e) => {
                    &&& e matches CaptureError::Backend(s) && s@
                        == "no window to capture: none remembered and no active window"@
                    &&& remembered.ensures((), None)
                    &&& exists|cause: CaptureError| active.ensures((), Err(cause))
                },
            },
        },
{
    match target {
        CaptureTarget::Monitor => Ok(TargetMode::Root),
        CaptureTarget::ActiveWindow => {
            match active() {
                Ok(w) => Ok(TargetMode::Window(w)),
                Err(e) => Err(e),
            }
        },
        CaptureTarget::Window => {
            match remembered() {
                Some(w) => return Ok(TargetMode::Window(w)),
                None => {},
            }
            match active() {
                Ok(w) => Ok(TargetMode::Window(w)),
                Err(cause) => {
                    assert(active.ensures((), Err(cause)));
                    Err(
                        CaptureError::Backend(
                            "no window to capture: none remembered and no active window".to_owned(),
                        ),
                    )
                },
            }
        },
    }
}

/// The file that remembers a window, from the values of `$XDG_CONFIG_HOME` and `$HOME`.
pub fn target_file(xdg: Option<&str>, home: Option<&str>) -> (r: Option<String>)
    ensures
        opt_text(r) == match config_folder(opt_str_text(xdg), opt_str_text(home)) {
            Some(dir) => Some(joined_path(dir, "window.target"@)),
            None => None,
        },
{
    match config_dir(xdg, home) {
        Some(dir) => Some(join(dir.as_str(), "window.target")),
        None => None,
    }
}

// --- screens and visuals -----------------------------------------------------------

/// A visual: where the colours lie in a pixel.
#[derive(Debug, Clone, Copy, PartialEq, Eq, Structural)]
pub struct Visual {
    pub visual_id: u32,
    pub red_mask: u32,
    pub green_mask: u32,
    pub blue_mask: u32,
}

/// The visuals of one depth.
#[derive(Debug)]
pub struct Depth {
    pub visuals: Vec<Visual>,
}

#[derive(Debug)]
pub struct Screen {
    pub root: u32,
    pub root_depth: u8,
    pub root_visual: u32,
    pub allowed_depths: Vec<Depth>,
}

/// What the server says of itself when a connection is set up.
#[derive(Debug)]
pub struct Setup {
    pub roots: Vec<Screen>,
    /// Whether images have the most significant byte first.
    pub msb_first: bool,
}

/// The screen with a number.
pub fn screen_at(setup: &Setup, screen_num: usize) -> (r: Result<&Screen, CaptureError>)
    ensures
        match r {
            Ok(screen) => screen_num < setup.roots@.len() && *screen
                == setup.roots@[screen_num as int],
            Err(e) => screen_num >= setup.roots@.len() && (e matches CaptureError::Backend(s) && s@
                == "no screen at index "@ + decimal(screen_num as nat)),
        },
{
    if screen_num < setup.roots.len() {
        Ok(&setup.roots[screen_num])
    } else {
        let number = u64_text(screen_num as u64);
        Err(CaptureError::Backend(joined("no screen at index ", number.as_str())))
    }
}

/// All visuals of some depths, in order.
pub open spec fn visuals_of_depths(depths: Seq<Depth>) -> Seq<Visual>
    decreases depths.len(),
{
    if depths.len() == 0 {
        Seq::empty()
    } else {
        visuals_of_depths(depths.drop_last()) + depths.last().visuals@
    }
}

/// All visuals of some screens, in order.
pub open spec fn visuals_of(screens: Seq<Screen>) -> Seq<Visual>
    decreases screens.len(),
{
    if screens.len() == 0 {
        Seq::empty()
    } else {
        visuals_of(screens.drop_last()) + visuals_of_depths(screens.last().allowed_depths@)
    }
}

/// Whether `v` is the first visual with an id.
pub open spec fn is_first_visual(all: Seq<Visual>, id: u32, v: Option<Visual>) -> bool {
    match v {
        Some(v) => exists|i: int|
            0 <= i < all.len() && #[trigger] all[i] == v && v.visual_id == id && forall|j: int|
                0 <= j < i ==> (#[trigger] all[j]).visual_id != id,
        None => forall|j: int| 0 <= j < all.len() ==> (#[trigger] all[j]).visual_id != id,
    }
}

/// The layout in memory of 32-bit pixels with a visual's masks in a byte order. What is
/// not known is taken for the usual layout.
pub open spec fn layout_of(v: Option<Visual>, msb_first: bool) -> PixelFormat {
    match v {
        Some(v) => if v.red_mask == 0xff_0000 && v.green_mask == 0xff00 && v.blue_mask == 0xff {
            if msb_first {
                PixelFormat::Xrgb8888
            } else {
                PixelFormat::Bgrx8888
            }
        } else if v.red_mask == 0xff && v.green_mask == 0xff00 && v.blue_mask == 0xff_0000
            && !msb_first {
            PixelFormat::Rgbx8888
        } else {
            PixelFormat::Bgrx8888
        },
        None => PixelFormat::Bgrx8888,
    }
}

/// Whether images with a visual have a pixel format: that of the first visual with the
/// id.
pub open spec fn is_format_of(setup: Setup, id: u32, format: PixelFormat) -> bool {
    exists|v: Option<Visual>| #[trigger]
        is_first_visual(visuals_of(setup.roots@), id, v) && format == layout_of(v, setup.msb_first)
}

fn all_visuals(setup: &Setup) -> (r: Vec<Visual>)
    ensures
        r@ == visuals_of(setup.roots@),
{
    let mut all: Vec<Visual> = Vec::new();
    for s in 0..setup.roots.len()
        invariant
            all@ == visuals_of(setup.roots@.take(s as int)),
    {
        let ghost before = all@;
        let depths = &setup.roots[s].allowed_depths;
        for d in 0..depths.len()
            invariant
                all@ == before + visuals_of_depths(depths@.take(d as int)),
        {
            let ghost head = all@;
            let visuals = &depths[d].visuals;
            for v in 0..visuals.len()
                invariant
                    all@ == head + visuals@.take(v as int),
            {
                all.push(visuals[v]);
                assert(all@ =~= head + visuals@.take(v + 1));
            }
            assert(visuals@.take(visuals@.len() as int) =~= visuals@);
            assert(depths@.take(d + 1).drop_last() =~= depths@.take(d as int));
            assert(all@ =~= before + visuals_of_depths(depths@.take(d + 1)));
        }
        assert(depths@.take(depths@.len() as int) =~= depths@);
        assert(setup.roots@.take(s + 1).drop_last() =~= setup.roots@.take(s as int));
    }
    assert(setup.roots@.take(setup.roots@.len() as int) =~= setup.roots@);
    all
}

fn find_visual(all: &Vec<Visual>, id: u32) -> (r: Option<Visual>)
    ensures
        is_first_visual(all@, id, r),
{
    for i in 0..all.len()
        invariant
            forall|j: int| 0 <= j < i ==> (#[trigger] all@[j]).visual_id != id,
    {
        if all[i].visual_id == id {
            return Some(all[i]);
        }
    }
    None
}

/// The pixel format of images with a visual.
pub fn detect_format(setup: &Setup, visual_id: u32) -> (r: PixelFormat)
    ensures
        is_format_of(*setup, visual_id, r),
{
    let all = all_visuals(setup);
    let visual = find_visual(&all, visual_id);
    assert(is_first_visual(visuals_of(setup.roots@), visual_id, visual));
    match visual {
        Some(v) => {
            if v.red_mask == 0xff_0000 && v.green_mask == 0xff00 && v.blue_mask == 0xff {
                if setup.msb_first {
                    PixelFormat::Xrgb8888
                } else {
                    PixelFormat::Bgrx8888
                }
            } else if v.red_mask == 0xff && v.green_mask == 0xff00 && v.blue_mask == 0xff_0000
                && !setup.msb_first {
                PixelFormat::Rgbx8888
            } else {
                PixelFormat::Bgrx8888
            }
        },
        None => PixelFormat::Bgrx8888,
    }
}

// --- source ------------------------------------------------------------------------

/// The size and depth of a drawable.
#[derive(Debug, Clone, Copy, PartialEq, Eq, Structural)]
pub struct Geometry {
    pub width: u16,
    pub height: u16,
    pub depth: u8,
}

/// An X11 source (root or a window) that can be started once.
#[derive(Debug)]
pub struct X11Source {
    root: u32,
    mode: TargetMode,
    depth: u8,
    has_shm: bool,
    info: StreamInfo,
    consumed: bool,
    running: bool,
}

/// What an X11 source holds.
pub struct X11State {
    pub root: u32,
    pub mode: TargetMode,
    /// Depth of the grabbed drawable.
    pub depth: u8,
    pub has_shm: bool,
    pub info: StreamInfo,
    /// Whether the connection has been handed to a capture thread.
    pub consumed: bool,
    pub running: bool,
}

impl View for X11Source {
    type V = X11State;

    closed spec fn view(&self) -> X11State {
        X11State {
            root: self.root,
            mode: self.mode,
            depth: self.depth,
            has_shm: self.has_shm,
            info: self.info,
            consumed: self.consumed,
            running: self.running,
        }
    }
}

/// The name of a source, which tells what is grabbed and how.
pub open spec fn source_name(mode: TargetMode, has_shm: bool) -> Seq<char> {
    match (mode, has_shm) {
        (TargetMode::Root, true) => "x11-xshm"@,
        (TargetMode::Root, false) => "x11-getimage"@,
        (TargetMode::Window(_), true) => "x11-window-xshm"@,
        (TargetMode::Window(_), false) => "x11-window-getimage"@,
    }
}

/// Opens a source for a resolved target, from the target's geometry and, for a window,
/// its visual. The source is not running yet.
pub fn open(
    setup: &Setup,
    screen: &Screen,
    mode: TargetMode,
    geometry: Geometry,
    window_visual: Option<u32>,
    has_shm: bool,
) -> (r: Result<X11Source, CaptureError>)
    ensures
        r is Err <==> (geometry.width == 0 || geometry.height == 0),
        match r {
            Ok(source) => {
                &&& source@.root == screen.root
                &&& source@.mode == mode
                &&& source@.depth == (if mode is Root {
                    screen.root_depth
                } else {
                    geometry.depth
                })
                &&& source@.has_shm == has_shm
                &&& !source@.consumed
                &&& !source@.running
                &&& source@.info.width == geometry.width
                &&& source@.info.height == geometry.height
                &&& source@.info.framerate == 60
                &&& is_format_of(
                    *setup,
                    if mode is Window && window_visual is Some {
                        window_visual->0
                    } else {
                        screen.root_visual
                    },
                    source@.info.format,
                )
            },
            Err(e) => e matches CaptureError::Backend(s) && s@
                == "capture target reports zero size"@,
        },
{
    if geometry.width == 0 || geometry.height == 0 {
        return Err(CaptureError::Backend("capture target reports zero size".to_owned()));
    }
    let (depth, visual): (u8, u32) = match mode {
        TargetMode::Root => (screen.root_depth, screen.root_visual),
        TargetMode::Window(_) => match window_visual {
            Some(visual) => (geometry.depth, visual),
            None => (geometry.depth, screen.root_visual),
        },
    };
    let format = detect_format(setup, visual);
    let info = StreamInfo {
        width: geometry.width as u32,
        height: geometry.height as u32,
        framerate: DEFAULT_FRAMERATE,
        format,
    };
    Ok(
        X11Source {
            root: screen.root,
            mode,
            depth,
            has_shm,
            info,
            consumed: false,
            running: false,
        },
    )
}

impl X11Source {
    pub fn name(&self) -> (r: &'static str)
        ensures
            r@ == source_name(self@.mode, self@.has_shm),
    {
        match (self.mode, self.has_shm) {
            (TargetMode::Root, true) => "x11-xshm",
            (TargetMode::Root, false) => "x11-getimage",
            (TargetMode::Window(_), true) => "x11-window-xshm",
            (TargetMode::Window(_), false) => "x11-window-getimage",
        }
    }

    pub fn stream_info(&self) -> (r: Option<StreamInfo>)
        ensures
            r == Some(self@.info),
    {
        Some(self.info)
    }

    pub fn depth(&self) -> (r: u8)
        ensures
            r == self@.depth,
    {
        self.depth
    }

    pub fn has_shm(&self) -> (r: bool)
        ensures
            r == self@.has_shm,
    {
        self.has_shm
    }

    pub fn root(&self) -> (r: u32)
        ensures
            r == self@.root,
    {
        self.root
    }

    pub fn is_running(&self) -> (r: bool)
        ensures
            r == self@.running,
    {
        self.running
    }

    /// Begins capturing, which can be done once: the target to grab from.
    pub fn start(&mut self) -> (r: Result<TargetMode, CaptureError>)
        ensures
            match r {
                Ok(mode) => !old(self)@.running && !old(self)@.consumed && mode == old(self)@.mode
                    && final(self)@ == (X11State { consumed: true, running: true, ..old(self)@ }),
                Err(e) => {
                    &&& old(self)@.running || old(self)@.consumed
                    &&& final(self)@ == old(self)@
                    &&& e matches CaptureError::Backend(s) && s@ == (if old(self)@.running {
                        "capture already running"@
                    } else {
                        "x11 source already consumed"@
                    })
                },
            },
    {
        if self.running {
            return Err(CaptureError::Backend("capture already running".to_owned()));
        }
        if self.consumed {
            return Err(CaptureError::Backend("x11 source already consumed".to_owned()));
        }
        self.consumed = true;
        self.running = true;
        Ok(self.mode)
    }

    /// Ends capturing, when it is stopped or has failed.
    pub fn stop(&mut self)
        ensures
            final(self)@ == (X11State { running: false, ..old(self)@ }),
    {
        self.running = false;
    }
}

// --- composite pixmap --------------------------------------------------------------

/// Where frames are grabbed from.
#[derive(Debug, Clone, Copy, PartialEq, Eq, Structural)]
pub enum GrabSource {
    /// The whole root window.
    Root { root: u32 },
    /// A window through its off-screen pixmap.
    Window { window: u32, pixmap: u32, redirected_by_us: bool },
    /// A window itself, of which only the visible region can be grabbed.
    WindowDirect { window: u32 },
}

/// The drawable of a grab source.
pub open spec fn drawable_of(source: GrabSource) -> u32 {
    match source {
        GrabSource::Root { root } => root,
        GrabSource::Window { window, pixmap, redirected_by_us } => pixmap,
        GrabSource::WindowDirect { window } => window,
    }
}

/// Whether a redirect that this program installed is in place.
pub open spec fn holds_redirect(source: GrabSource) -> bool {
    source matches GrabSource::Window { window, pixmap, redirected_by_us } && redirected_by_us
}

/// Why a window is grabbed directly.
#[derive(Debug, Clone, Copy, PartialEq, Eq, Structural)]
pub enum DirectReason {
    NoComposite,
    RedirectFailed,
    NamingFailed,
}

/// How far the setup of a window grab has come, and so what is to be done next.
#[derive(Debug, Clone, Copy, PartialEq, Eq, Structural)]
pub enum GrabSetup {
    /// Ask whether the server has the Composite extension.
    QueryComposite { window: u32 },
    /// Name the window's pixmap, which works where a compositor has redirected it.
    NamePixmap { window: u32 },
    /// Redirect the window.
    Redirect { window: u32 },
    /// Name the pixmap of the window that was just redirected.
    NameRedirected { window: u32 },
    /// Undo the redirect.
    Unredirect { window: u32 },
    /// Grab from here.
    Ready { source: GrabSource, degraded: Option<DirectReason> },
}

/// Whether a redirect that this program installed is in place during setup.
pub open spec fn setup_holds_redirect(setup: GrabSetup) -> bool {
    match setup {
        GrabSetup::NameRedirected { window } => true,
        GrabSetup::Unredirect { window } => true,
        GrabSetup::Ready { source, degraded } => holds_redirect(source),
        _ => false,
    }
}

/// What is done after a step of the setup, which gave a pixmap or at least succeeded.
/// Every failure ends in a direct grab.
pub open spec fn setup_after(setup: GrabSetup, ok: bool, pixmap: u32) -> GrabSetup {
    match setup {
        GrabSetup::QueryComposite { window } => if ok {
            GrabSetup::NamePixmap { window }
        } else {
            GrabSetup::Ready {
                source: GrabSource::WindowDirect { window },
                degraded: Some(DirectReason::NoComposite),
            }
        },
        GrabSetup::NamePixmap { window } => if ok {
            GrabSetup::Ready {
                source: GrabSource::Window { window, pixmap, redirected_by_us: false },
                degraded: None,
            }
        } else {
            GrabSetup::Redirect { window }
        },
        GrabSetup::Redirect { window } => if ok {
            GrabSetup::NameRedirected { window }
        } else {
            GrabSetup::Ready {
                source: GrabSource::WindowDirect { window },
                degraded: Some(DirectReason::RedirectFailed),
            }
        },
        GrabSetup::NameRedirected { window } => if ok {
            GrabSetup::Ready {
                source: GrabSource::Window { window, pixmap, redirected_by_us: true },
                degraded: None,
            }
        } else {
            GrabSetup::Unredirect { window }
        },
        GrabSetup::Unredirect { window } => GrabSetup::Ready {
            source: GrabSource::WindowDirect { window },
            degraded: Some(DirectReason::NamingFailed),
        },
        GrabSetup::Ready { source, degraded } => setup,
    }
}

/// Steps that are left at most.
pub open spec fn setup_steps_left(setup: GrabSetup) -> nat {
    match setup {
        GrabSetup::QueryComposite { window } => 5,
        GrabSetup::NamePixmap { window } => 4,
        GrabSetup::Redirect { window } => 3,
        GrabSetup::NameRedirected { window } => 2,
        GrabSetup::Unredirect { window } => 1,
        GrabSetup::Ready { source, degraded } => 0,
    }
}

/// The window of a setup.
pub open spec fn setup_window(setup: GrabSetup) -> u32 {
    match setup {
        GrabSetup::QueryComposite { window } => window,
        GrabSetup::NamePixmap { window } => window,
        GrabSetup::Redirect { window } => window,
        GrabSetup::NameRedirected { window } => window,
        GrabSetup::Unredirect { window } => window,
        GrabSetup::Ready { source, degraded } => match source {
            GrabSource::Root { root } => root,
            GrabSource::Window { window, pixmap, redirected_by_us } => window,
            GrabSource::WindowDirect { window } => window,
        },
    }
}

/// The setup of a window grab, before its first step.
pub fn setup_window_grab(window: u32) -> (r: GrabSetup)
    ensures
        r == (GrabSetup::QueryComposite { window }),
{
    GrabSetup::QueryComposite { window }
}

impl GrabSetup {
    /// Goes on after the step was done: `ok` says whether it succeeded, and `pixmap` is
    /// the pixmap that a step which names one has given.
    pub fn step(self, ok: bool, pixmap: u32) -> (r: GrabSetup)
        ensures
            r == setup_after(self, ok, pixmap),
    {
        match self {
            GrabSetup::QueryComposite { window } => {
                if ok {
                    GrabSetup::NamePixmap { window }
                } else {
                    GrabSetup::Ready {
                        source: GrabSource::WindowDirect { window },
                        degraded: Some(DirectReason::NoComposite),
                    }
                }
            },
            GrabSetup::NamePixmap { window } => {
                if ok {
                    GrabSetup::Ready {
                        source: GrabSource::Window { window, pixmap, redirected_by_us: false },
                        degraded: None,
                    }
                } else {
                    GrabSetup::Redirect { window }
                }
            },
            GrabSetup::Redirect { window } => {
                if ok {
                    GrabSetup::NameRedirected { window }
                } else {
                    GrabSetup::Ready {
                        source: GrabSource::WindowDirect { window },
                        degraded: Some(DirectReason::RedirectFailed),
                    }
                }
            },
            GrabSetup::NameRedirected { window } => {
                if ok {
                    GrabSetup::Ready {
                        source: GrabSource::Window { window, pixmap, redirected_by_us: true },
                        degraded: None,
                    }
                } else {
                    GrabSetup::Unredirect { window }
                }
            },
            GrabSetup::Unredirect { window } => GrabSetup::Ready {
                source: GrabSource::WindowDirect { window },
                degraded: Some(DirectReason::NamingFailed),
            },
            GrabSetup::Ready { source, degraded } => GrabSetup::Ready { source, degraded },
        }
    }
}

/// What releases a window grab: the pixmap to free, and the window whose redirect is to
/// be undone.
#[derive(Debug, Clone, Copy, PartialEq, Eq, Structural)]
pub struct Teardown {
    pub free_pixmap: u32,
    pub unredirect: Option<u32>,
}

/// What a failed grab calls for.
#[derive(Debug)]
pub enum GrabStep {
    /// Deliver these pixels.
    Deliver(Vec<u8>),
    /// The window's pixmap may be stale: free it and name a fresh one.
    Rename { window: u32, stale: u32, cause: CaptureError },
    /// Stop capturing.
    Stop(CaptureError),
}

/// What a renamed or lost pixmap calls for.
#[derive(Debug)]
pub enum RenameStep {
    /// Grab from this drawable.
    Retry(u32),
    /// Stop capturing.
    Stop(CaptureError),
}

impl GrabSource {
    /// The drawable to grab.
    pub fn drawable(&self) -> (r: u32)
        ensures
            r == drawable_of(*self),
    {
        match self {
            GrabSource::Root { root } => *root,
            GrabSource::Window { window: _, pixmap, redirected_by_us: _ } => *pixmap,
            GrabSource::WindowDirect { window } => *window,
        }
    }

    /// What releases the grab: nothing for the root and for a direct grab.
    pub fn teardown_window_grab(&self) -> (r: Option<Teardown>)
        ensures
            r == match *self {
                GrabSource::Window { window, pixmap, redirected_by_us } => Some(
                    Teardown {
                        free_pixmap: pixmap,
                        unredirect: if redirected_by_us {
                            Some(window)
                        } else {
                            None
                        },
                    },
                ),
                _ => None,
            },
    {
        match self {
            GrabSource::Window { window, pixmap, redirected_by_us } => Some(
                Teardown {
                    free_pixmap: *pixmap,
                    unredirect: if *redirected_by_us {
                        Some(*window)
                    } else {
                        None
                    },
                },
            ),
            _ => None,
        }
    }

    /// Takes a grab. A failed grab of a window through its pixmap is tried again with a
    /// fresh pixmap, since the window may have been resized; any other failure stops
    /// the capture.
    pub fn on_grab(&self, grab: Result<Vec<u8>, CaptureError>) -> (r: GrabStep)
        ensures
            match grab {
                Ok(pixels) => r == GrabStep::Deliver(pixels),
                Err(e) => r == match *self {
                    GrabSource::Window { window, pixmap, redirected_by_us } => GrabStep::Rename {
                        window,
                        stale: pixmap,
                        cause: e,
                    },
                    _ => GrabStep::Stop(e),
                },
            },
    {
        match grab {
            Ok(pixels) => GrabStep::Deliver(pixels),
            Err(e) => match self {
                GrabSource::Window { window, pixmap, redirected_by_us: _ } => GrabStep::Rename {
                    window: *window,
                    stale: *pixmap,
                    cause: e,
                },
                _ => GrabStep::Stop(e),
            },
        }
    }

    /// Takes the fresh pixmap of the window. Without one the window is gone, and the
    /// capture stops with the error of the grab.
    pub fn on_rename(&mut self, fresh: Option<u32>, cause: CaptureError) -> (r: RenameStep)
        ensures
            match fresh {
                Some(p) => {
                    &&& *final(self) == match *old(self) {
                        GrabSource::Window { window, pixmap, redirected_by_us } =>
                            GrabSource::Window { window, pixmap: p, redirected_by_us },
                        other => other,
                    }
                    &&& r == RenameStep::Retry(drawable_of(*final(self)))
                },
                None => *final(self) == *old(self) && r == RenameStep::Stop(cause),
            },
    {
        match fresh {
            Some(p) => {
                match *self {
                    GrabSource::Window { window, pixmap: _, redirected_by_us } => {
                        *self = GrabSource::Window { window, pixmap: p, redirected_by_us };
                    },
                    _ => {},
                }
                RenameStep::Retry(self.drawable())
            },
            None => RenameStep::Stop(cause),
        }
    }
}

/// Takes the second grab: pixels to deliver, or nothing where the frame is skipped until
/// the window has grown back.
pub fn on_retry(grab: Result<Vec<u8>, CaptureError>) -> (r: Option<Vec<u8>>)
    ensures
        r == match grab {
            Ok(pixels) => Some(pixels),
            Err(_) => None,
        },
{
    match grab {
        Ok(pixels) => Some(pixels),
        Err(_) => None,
    }
}

/// What a turn of the capture loop has come to.
#[derive(Debug)]
pub enum Grabbed {
    /// Pixels to deliver.
    Pixels(Vec<u8>),
    /// Nothing this time.
    Skip,
    /// The capture stops.
    Stop(CaptureError),
}

/// Whether a turn that grabs `first` from the drawable can go on like this: a failed grab
/// through a pixmap is tried once more with a fresh one.
pub open spec fn is_turn<G, N>(
    before: GrabSource,
    after: GrabSource,
    grab: G,
    rename: N,
    first: Result<Vec<u8>, CaptureError>,
    r: Grabbed,
) -> bool where
    G: Fn(u32) -> Result<Vec<u8>, CaptureError>,
    N: FnOnce(u32, u32) -> Option<u32>,
 {
    &&& grab.ensures((drawable_of(before),), first)
    &&& match (first, before) {
        (Ok(pixels), _) => after == before && r == Grabbed::Pixels(pixels),
        (Err(e), GrabSource::Window { window, pixmap, redirected_by_us }) => {
            ||| rename.ensures((window, pixmap), None) && after == before && r == Grabbed::Stop(e)
            ||| after is Window && rename.ensures((window, pixmap), Some(after->pixmap)) && after
                == (GrabSource::Window { window, pixmap: after->pixmap, redirected_by_us })
                && is_second_grab(after->pixmap, grab, r)
        },
        (Err(e), _) => after == before && r == Grabbed::Stop(e),
    }
}

/// Whether a second grab can come to this: what it gives, or nothing where it fails.
pub open spec fn is_second_grab<G>(drawable: u32, grab: G, r: Grabbed) -> bool where
    G: Fn(u32) -> Result<Vec<u8>, CaptureError>,
 {
    match r {
        Grabbed::Pixels(pixels) => grab.ensures((drawable,), Ok(pixels)),
        Grabbed::Skip => exists|e: CaptureError| grab.ensures((drawable,), Err(e)),
        Grabbed::Stop(_) => false,
    }
}

/// Whether the grab of the drawable can have failed.
pub open spec fn can_fail<G>(source: GrabSource, grab: G) -> bool where
    G: Fn(u32) -> Result<Vec<u8>, CaptureError>,
 {
    exists|e: CaptureError| grab.ensures((drawable_of(source),), Err(e))
}

/// One turn of the capture loop. `grab` grabs a drawable; `rename` frees the stale pixmap
/// of a window and names a fresh one.
pub fn grab_turn<G, N>(source: &mut GrabSource, grab: G, rename: N) -> (r: Grabbed) where
    G: Fn(u32) -> Result<Vec<u8>, CaptureError>,
    N: FnOnce(u32, u32) -> Option<u32>,

    requires
        grab.requires((drawable_of(*old(source)),)),
        can_fail(*old(source), grab) ==> (*old(source) matches GrabSource::Window {
            window,
            pixmap,
            redirected_by_us,
        } ==> {
            &&& rename.requires((window, pixmap))
            &&& forall|fresh: u32|
                rename.ensures((window, pixmap), Some(fresh)) ==> #[trigger] grab.requires((fresh,))
        }),
    ensures
        exists|first: Result<Vec<u8>, CaptureError>| #[trigger]
            is_turn(*old(source), *final(source), grab, rename, first, r),
{
    let first = grab(source.drawable());
    let ghost seen = first;
    match source.on_grab(first) {
        GrabStep::Deliver(pixels) => {
            let r = Grabbed::Pixels(pixels);
            assert(is_turn(*old(source), *source, grab, rename, seen, r));
            r
        },
        GrabStep::Stop(e) => {
            let r = Grabbed::Stop(e);
            assert(is_turn(*old(source), *source, grab, rename, seen, r));
            r
        },
        GrabStep::Rename { window, stale, cause } => {
            proof {
                match seen {
                    Ok(_) => {},
                    Err(e) => assert(grab.ensures((drawable_of(*old(source)),), Err(e))),
                }
            }
            assert(can_fail(*old(source), grab));
            let fresh = rename(window, stale);
            match source.on_rename(fresh, cause) {
                RenameStep::Stop(e) => {
                    let r = Grabbed::Stop(e);
                    assert(is_turn(*old(source), *source, grab, rename, seen, r));
                    r
                },
                RenameStep::Retry(drawable) => {
                    let second = grab(drawable);
                    let ghost again = second;
                    let r = match on_retry(second) {
                        Some(pixels) => Grabbed::Pixels(pixels),
                        None => Grabbed::Skip,
                    };
                    proof {
                        match again {
                            Ok(pixels) => assert(grab.ensures((drawable,), Ok(pixels))),
                            Err(e) => assert(grab.ensures((drawable,), Err(e))),
                        }
                    }
                    assert(is_second_grab(drawable, grab, r));
                    assert(is_turn(*old(source), *source, grab, rename, seen, r));
                    r
                },
            }
        },
    }
}

// --- frames ------------------------------------------------------------------------

/// `pixels` cut or filled up with zeros to a length.
pub open spec fn fitted(pixels: Seq<u8>, len: int) -> Seq<u8> {
    Seq::new(
        len as nat,
        |i: int|
            if i < pixels.len() {
                pixels[i]
            } else {
                0u8
            },
    )
}

/// Whether the pixels of a frame can be held.
pub open spec fn frame_fits(info: StreamInfo) -> bool {
    &&& info.width * 4 <= u32::MAX
    &&& info.width * 4 * info.height <= usize::MAX
}

/// The bytes of a frame.
pub fn frame_bytes(info: StreamInfo) -> (r: usize)
    requires
        frame_fits(info),
    ensures
        r == info.width * 4 * info.height,
{
    let stride: u32 = info.width * BPP;
    (stride as usize) * (info.height as usize)
}

/// Makes a frame of grabbed pixels. The frame has the size that was sampled when the
/// source was opened, whatever the size of the drawable has become.
pub fn frame_of_grab(info: StreamInfo, pixels: Vec<u8>, pts_ns: u64) -> (r: Frame)
    requires
        frame_fits(info),
    ensures
        r.width == info.width,
        r.height == info.height,
        r.stride == info.width * 4,
        r.format == info.format,
        r.pts_ns == pts_ns,
        r.data@ == fitted(pixels@, info.width * 4 * info.height),
{
    let count = frame_bytes(info);
    let mut pixels = pixels;
    let ghost grabbed = pixels@;
    if pixels.len() > count {
        pixels.truncate(count);
    }
    while pixels.len() < count
        invariant
            pixels@.len() <= count,
            pixels@.len() < count ==> grabbed.len() <= pixels@.len(),
            pixels@ =~= fitted(grabbed, pixels@.len() as int),
        decreases count - pixels@.len(),
    {
        pixels.push(0);
    }
    Frame {
        width: info.width,
        height: info.height,
        stride: info.width * BPP,
        format: info.format,
        pts_ns,
        data: Arc::new(pixels),
    }
}

/// Makes the frames of a capture loop, each with the time since the loop began.
#[derive(Debug, Clone, Copy, PartialEq, Eq, Structural)]
pub struct FrameMaker {
    pub info: StreamInfo,
    pub clock: FrameClock,
}

impl FrameMaker {
    /// The frames of a loop that begins at a reading of a clock.
    pub fn new(info: StreamInfo, start_ns: u64) -> (r: FrameMaker)
        ensures
            r == (FrameMaker { info, clock: FrameClock::started(start_ns) }),
    {
        FrameMaker { info, clock: FrameClock::starting_at(start_ns) }
    }

    /// The frame of pixels that were grabbed at a reading of the clock.
    pub fn frame(&mut self, pixels: Vec<u8>, now_ns: u64) -> (r: Frame)
        requires
            frame_fits(old(self).info),
        ensures
            *final(self) == (FrameMaker { clock: old(self).clock.after(now_ns), ..*old(self) }),
            r.width == old(self).info.width,
            r.height == old(self).info.height,
            r.stride == old(self).info.width * 4,
            r.format == old(self).info.format,
            r.pts_ns == old(self).clock.stamp_of(now_ns),
            r.data@ == fitted(pixels@, old(self).info.width * 4 * old(self).info.height),
    {
        let pts_ns = self.clock.stamp(now_ns);
        frame_of_grab(self.info, pixels, pts_ns)
    }
}

// --- pacing ------------------------------------------------------------------------

/// What is left of a frame interval, slept in slices so that stopping is prompt.
#[derive(Debug)]
pub struct Pacing {
    pub left_ns: u64,
}

/// The slices in which an interval is slept.
pub open spec fn slices(left: nat) -> Seq<nat>
    decreases left,
{
    if left == 0 {
        Seq::empty()
    } else if left <= PACING_SLICE_NS {
        seq![left]
    } else {
        seq![PACING_SLICE_NS as nat] + slices((left - PACING_SLICE_NS) as nat)
    }
}

/// The sum of slices.
pub open spec fn total(s: Seq<nat>) -> nat
    decreases s.len(),
{
    if s.len() == 0 {
        0
    } else {
        s[0] + total(s.skip(1))
    }
}

impl Pacing {
    /// The remainder of an interval after some of it has gone by.
    pub fn new(interval_ns: u64, elapsed_ns: u64) -> (r: Pacing)
        ensures
            r.left_ns == (if elapsed_ns <= interval_ns {
                interval_ns - elapsed_ns
            } else {
                0
            }),
    {
        Pacing { left_ns: interval_ns.saturating_sub(elapsed_ns) }
    }

    /// The next slice to sleep, while something is left and the capture runs.
    pub fn next(&mut self, running: bool) -> (r: Option<u64>)
        ensures
            r == (if running && old(self).left_ns > 0 {
                Some(
                    if old(self).left_ns < PACING_SLICE_NS {
                        old(self).left_ns
                    } else {
                        PACING_SLICE_NS
                    },
                )
            } else {
                None::<u64>
            }),
            final(self).left_ns == old(self).left_ns - (match r {
                Some(slice) => slice as int,
                None => 0,
            }),
            r matches Some(slice) ==> slices(old(self).left_ns as nat) == seq![slice as nat]
                + slices(final(self).left_ns as nat),
    {
        if !running || self.left_ns == 0 {
            return None;
        }
        let slice: u64 = if self.left_ns < PACING_SLICE_NS {
            self.left_ns
        } else {
            PACING_SLICE_NS
        };
        self.left_ns = self.left_ns - slice;
        Some(slice)
    }
}

// --- shared memory -----------------------------------------------------------------

/// A failed step in setting up the shared segment, with what the error says.
#[derive(Debug)]
pub enum ShmFailure {
    Get,
    At,
    GenerateId(String),
    Attach(String),
}

/// What a failed setup has to give back.
#[derive(Debug, Clone, Copy, PartialEq, Eq, Structural)]
pub struct ShmUndo {
    pub unmap: bool,
    pub remove: bool,
}

/// Whether the segment exists when a step fails.
pub open spec fn shm_exists(f: ShmFailure) -> bool {
    !(f is Get)
}

/// Whether the segment is mapped when a step fails.
pub open spec fn shm_mapped(f: ShmFailure) -> bool {
    f is GenerateId || f is Attach
}

/// What is to be given back after a failed step, which is all that there is, and the
/// error of the setup.
pub fn shm_failed(f: ShmFailure) -> (r: (ShmUndo, CaptureError))
    ensures
        r.0 == (ShmUndo { unmap: shm_mapped(f), remove: shm_exists(f) }),
        r.1 matches CaptureError::Backend(s) && s@ == match f {
            ShmFailure::Get => "shmget failed"@,
            ShmFailure::At => "shmat failed"@,
            ShmFailure::GenerateId(e) => "generate_id: "@ + e@,
            ShmFailure::Attach(e) => "shm_attach: "@ + e@,
        },
{
    match f {
        ShmFailure::Get => (
            ShmUndo { unmap: false, remove: false },
            CaptureError::Backend("shmget failed".to_owned()),
        ),
        ShmFailure::At => (
            ShmUndo { unmap: false, remove: true },
            CaptureError::Backend("shmat failed".to_owned()),
        ),
        ShmFailure::GenerateId(e) => (
            ShmUndo { unmap: true, remove: true },
            CaptureError::Backend(joined("generate_id: ", e.as_str())),
        ),
        ShmFailure::Attach(e) => (
            ShmUndo { unmap: true, remove: true },
            CaptureError::Backend(joined("shm_attach: ", e.as_str())),
        ),
    }
}

/// A local mapping, which is given back once.
#[derive(Debug)]
pub struct ShmMapping {
    pub mapped: bool,
}

impl ShmMapping {
    pub fn new() -> (r: ShmMapping)
        ensures
            r.mapped,
    {
        ShmMapping { mapped: true }
    }

    /// Whether the mapping is to be given back now.
    pub fn release(&mut self) -> (r: bool)
        ensures
            r == old(self).mapped,
            !final(self).mapped,
    {
        let mapped = self.mapped;
        self.mapped = false;
        mapped
    }
}

// --- laws --------------------------------------------------------------------------

/// During setup a redirect is in place from when this program has installed it until it
/// is undone, and at no other time: it is never forgotten, and another's redirect is
/// never taken for one's own.
pub proof fn law_redirect_is_never_forgotten(setup: GrabSetup, ok: bool, pixmap: u32)
    ensures
        setup_holds_redirect(setup_after(setup, ok, pixmap)) == (match setup {
            GrabSetup::Redirect { window } => ok,
            GrabSetup::Unredirect { window } => false,
            _ => setup_holds_redirect(setup),
        }),
{
}

/// Every step of the setup brings it nearer to its end, and the end is a grab of the
/// same window.
pub proof fn law_setup_ends(setup: GrabSetup, ok: bool, pixmap: u32)
    ensures
        setup is Ready || setup_steps_left(setup_after(setup, ok, pixmap)) < setup_steps_left(
            setup,
        ),
        setup_window(setup_after(setup, ok, pixmap)) == setup_window(setup),
        !(setup is Ready) && setup_after(setup, ok, pixmap) is Ready ==> !(setup_after(
            setup,
            ok,
            pixmap,
        )->source is Root),
{
}

/// The slices of an interval fill it exactly, and none is longer than the longest sleep.
pub proof fn law_slices_fill_the_interval(left: nat)
    ensures
        total(slices(left)) == left,
        forall|i: int| 0 <= i < slices(left).len() ==> 0 < #[trigger] slices(left)[i] <= PACING_SLICE_NS,
    decreases left,
{
    if left > PACING_SLICE_NS {
        let rest = slices((left - PACING_SLICE_NS) as nat);
        law_slices_fill_the_interval((left - PACING_SLICE_NS) as nat);
        let all = slices(left);
        assert(all.skip(1) =~= rest);
        assert forall|i: int| 0 <= i < all.len() implies 0 < #[trigger] all[i] <= PACING_SLICE_NS by {
            if i > 0 {
                assert(all[i] == rest[i - 1]);
            }
        }
    } else if left > 0 {
        let all = slices(left);
        assert(all.skip(1) =~= Seq::empty());
        assert(total(all.skip(1)) == 0);
    }
}

/// A visual has one pixel format.
pub proof fn law_format_is_unique(setup: Setup, id: u32, a: PixelFormat, b: PixelFormat)
    requires
        is_format_of(setup, id, a),
        is_format_of(setup, id, b),
    ensures
        a == b,
{
    let all = visuals_of(setup.roots@);
    let v = choose|v: Option<Visual>| #[trigger]
        is_first_visual(all, id, v) && a == layout_of(v, setup.msb_first);
    let w = choose|v: Option<Visual>| #[trigger]
        is_first_visual(all, id, v) && b == layout_of(v, setup.msb_first);
    if v is Some && w is Some {
        let i = choose|i: int|
            0 <= i < all.len() && #[trigger] all[i] == v->0 && forall|j: int|
                0 <= j < i ==> (#[trigger] all[j]).visual_id != id;
        let k = choose|i: int|
            0 <= i < all.len() && #[trigger] all[i] == w->0 && forall|j: int|
                0 <= j < i ==> (#[trigger] all[j]).visual_id != id;
        assert(all[i].visual_id == id && all[k].visual_id == id);
    }
}

/// A frame has its full size whatever was grabbed, keeps the pixels that were grabbed as
/// far as they fit, and is exactly what was grabbed where the size is right.
pub proof fn law_frame_keeps_its_size(pixels: Seq<u8>, len: int)
    requires
        len >= 0,
    ensures
        fitted(pixels, len).len() == len,
        forall|i: int| 0 <= i < len && i < pixels.len() ==> #[trigger] fitted(pixels, len)[i]
            == pixels[i],
        pixels.len() == len ==> fitted(pixels, len) == pixels,
{
    if pixels.len() == len {
        assert(fitted(pixels, len) =~= pixels);
    }
}

/// A failure is told with what it was and what the error says; only a server that cannot be
/// reached makes the backend unsupported.
pub proof fn law_x_failures_say_why(e: String, f: XFailure, r: CaptureError)
    requires
        call_ensures(capture_error, (f,), r),
    ensures
        f == XFailure::Connect(e) ==> (r matches CaptureError::Unsupported(s) && s@
            == "cannot connect to X server: "@ + e@),
        f == XFailure::Connection(e) ==> (r matches CaptureError::Backend(s) && s@
            == "x11 connection error: "@ + e@),
        f == XFailure::Reply(e) ==> (r matches CaptureError::Backend(s) && s@
            == "x11 reply error: "@ + e@),
        f == XFailure::ReplyOrId(e) ==> (r matches CaptureError::Backend(s) && s@
            == "x11 reply/id error: "@ + e@),
        f == XFailure::RootGeometry(e) ==> (r matches CaptureError::Backend(s) && s@
            == "get_geometry(root) failed: "@ + e@),
        f == XFailure::WindowGeometry(e) ==> (r matches CaptureError::Backend(s) && s@
            == "get_geometry(window) failed: "@ + e@),
        f == XFailure::ReadActiveWindow(e) ==> (r matches CaptureError::Backend(s) && s@
            == "read _NET_ACTIVE_WINDOW: "@ + e@),
        f == XFailure::NamePixmap(e) ==> (r matches CaptureError::Backend(s) && s@
            == "NameWindowPixmap: "@ + e@),
        f == XFailure::Spawn(e) ==> (r matches CaptureError::Backend(s) && s@
            == "failed to spawn capture thread: "@ + e@),
{
}

/// The number that four bytes make in one of the two byte orders.
pub open spec fn is_word(w: u32, b: Seq<u8>, msb_first: bool) -> bool {
    if msb_first {
        w == b[0] * 0x100_0000 + b[1] * 0x1_0000 + b[2] * 0x100 + b[3]
    } else {
        w == b[0] + b[1] * 0x100 + b[2] * 0x1_0000 + b[3] * 0x100_0000
    }
}

proof fn lemma_words_are_words(value: Seq<u8>, msb_first: bool, i: int)
    requires
        0 <= i < value.len() / 4,
    ensures
        is_word(words_in(value, msb_first)[i], value.subrange(4 * i, 4 * i + 4), msb_first),
{
    let b = value.subrange(4 * i, 4 * i + 4);
    assert(b[0] == value[4 * i] && b[1] == value[4 * i + 1] && b[2] == value[4 * i + 2] && b[3]
        == value[4 * i + 3]);
    assert(b[0] <= 255 && b[1] <= 255 && b[2] <= 255 && b[3] <= 255);
}

/// The active window is the first word of the property, in one of the byte orders, unless
/// that is 0 or the property holds no words.
pub proof fn law_active_window_is_the_first_word(
    reply: PropertyReply,
    r: Result<u32, CaptureError>,
)
    requires
        call_ensures(active_window, (ActiveWindowRead::Value(reply),), r),
    ensures
        r matches Ok(w) ==> w != 0 && reply.format == 32 && reply.value@.len() >= 4 && (is_word(
            w,
            reply.value@.take(4),
            false,
        ) || is_word(w, reply.value@.take(4), true)),
        reply.format == 32 && reply.value@.len() >= 4 && (reply.value@[0] != 0 || reply.value@[1]
            != 0 || reply.value@[2] != 0 || reply.value@[3] != 0) ==> r is Ok,
{
    let v = reply.value@;
    if v.len() >= 4 {
        lemma_words_are_words(v, false, 0);
        lemma_words_are_words(v, true, 0);
        assert(v.subrange(0, 4) =~= v.take(4));
        let b = v.take(4);
        assert(b[0] == v[0] && b[1] == v[1] && b[2] == v[2] && b[3] == v[3]);
    } else {
        assert(words_in(v, false).len() == 0);
        assert(words_in(v, true).len() == 0);
    }
}

/// The focused window is the first word, unless that is 0 or there is none; and a reply that
/// failed is told as the failure it was.
pub proof fn law_focused_window(
    words: Option<Vec<u32>>,
    r: Result<u32, CaptureError>,
    f: XFailure,
    told: CaptureError,
    failed: Result<u32, CaptureError>,
    unknown: Result<u32, CaptureError>,
)
    requires
        call_ensures(active_window, (ActiveWindowRead::UnknownAtom,), unknown),
        call_ensures(focused_window, (&words,), r),
        call_ensures(capture_error, (f,), told),
        call_ensures(active_window, (ActiveWindowRead::Failed(f),), failed),
    ensures
        words is Some && words->0@.len() > 0 && words->0@[0] != 0 ==> r == Ok::<u32, CaptureError>(
            words->0@[0],
        ),
        words is None || words->0@.len() == 0 || words->0@[0] == 0 ==> (
        r matches Err(CaptureError::Backend(s)) && s@
            == "no active window to capture (_NET_ACTIVE_WINDOW is None)"@),
        unknown matches Err(CaptureError::Backend(s)) && s@
            == "_NET_ACTIVE_WINDOW unsupported (no EWMH window manager?)"@,
        failed matches Err(e) && (match (e, told) {
            (CaptureError::Unsupported(a), CaptureError::Unsupported(b)) => a@ == b@,
            (CaptureError::Backend(a), CaptureError::Backend(b)) => a@ == b@,
            _ => false,
        }),
{
}

/// The client list has every whole word of the property, in order and all in one byte order;
/// it is there exactly where the property holds a word of 32 bits.
pub proof fn law_client_list_has_every_word(
    reply: Option<PropertyReply>,
    r: Option<Vec<u32>>,
    words: Option<Vec<u32>>,
    listed: Option<Vec<u32>>,
)
    requires
        call_ensures(client_list, (&reply,), r),
        call_ensures(listed_windows, (words,), listed),
    ensures
        r is Some <==> reply is Some && reply->0.format == 32 && reply->0.value@.len() >= 4,
        r is Some ==> {
            let v = reply->0.value@;
            let list = r->0@;
            &&& list.len() == v.len() / 4
            &&& (forall|i: int|
                0 <= i < list.len() ==> is_word(#[trigger] list[i], v.subrange(4 * i, 4 * i + 4), false))
                || (forall|i: int|
                0 <= i < list.len() ==> is_word(#[trigger] list[i], v.subrange(4 * i, 4 * i + 4), true))
        },
        listed is Some <==> words is Some && words->0@.len() > 0,
        listed is Some ==> listed->0@ == words->0@,
{
    if r is Some {
        let v = reply->0.value@;
        let list = r->0@;
        assert(list.len() == v.len() / 4);
        if list == words_in(v, false) {
            assert forall|i: int| 0 <= i < list.len() implies is_word(
                #[trigger] list[i],
                v.subrange(4 * i, 4 * i + 4),
                false,
            ) by {
                lemma_words_are_words(v, false, i);
            }
        } else {
            assert forall|i: int| 0 <= i < list.len() implies is_word(
                #[trigger] list[i],
                v.subrange(4 * i, 4 * i + 4),
                true,
            ) by {
                lemma_words_are_words(v, true, i);
            }
        }
    }
}

/// The windows of the tree: one child of the root more comes behind the others, and its own
/// children directly behind it. An atom that is 0 is unknown.
pub proof fn law_children_follow_their_window(
    top: Vec<(u32, Option<Vec<u32>>)>,
    r: Vec<u32>,
    child: u32,
    sub: Option<Vec<u32>>,
    more: Vec<(u32, Option<Vec<u32>>)>,
    s: Vec<u32>,
    none: Vec<u32>,
    atom: u32,
    known: Option<u32>,
    unknown: Option<u32>,
)
    requires
        call_ensures(tree_windows, (&Some(top),), r),
        call_ensures(tree_windows, (&Some(more),), s),
        call_ensures(tree_windows, (&None,), none),
        more@ == top@.push((child, sub)),
        call_ensures(known_atom, (Some(atom),), known),
        call_ensures(known_atom, (None,), unknown),
    ensures
        none@.len() == 0,
        top@.len() == 0 ==> r@.len() == 0,
        s@ == r@ + seq![child] + (match sub {
            Some(sub) => sub@,
            None => Seq::empty(),
        }),
        atom != 0 ==> known == Some(atom),
        atom == 0 ==> known is None,
        unknown is None,
{
    assert(more@.drop_last() =~= top@);
    assert(more@.last() == (child, sub));
    assert(r@.push(child) =~= r@ + seq![child]);
}

/// A remembered window is sought among the managed windows; only without them is the tree
/// walked.
pub proof fn law_managed_windows_come_first<T: FnOnce() -> Vec<u32>>(
    list: Option<Vec<u32>>,
    tree: T,
    r: Vec<u32>,
)
    requires
        call_ensures(candidate_windows::<T>, (list, tree), r),
    ensures
        list is Some ==> r@ == list->0@,
        list is None ==> tree.ensures((), r),
{
}

/// A monitor is the root. A window is the remembered one, else the active one; the active
/// window is the active one whatever is remembered.
pub proof fn law_target_is_resolved<R, A>(
    target: CaptureTarget,
    remembered: R,
    active: A,
    r: Result<TargetMode, CaptureError>,
    w: u32,
) where R: FnOnce() -> Option<u32>, A: FnOnce() -> Result<u32, CaptureError>
    requires
        call_ensures(resolve_target::<R, A>, (target, remembered, active), r),
    ensures
        target is Monitor ==> r == Ok::<TargetMode, CaptureError>(TargetMode::Root),
        target is ActiveWindow && (forall|o: Result<u32, CaptureError>|
            active.ensures((), o) ==> o == Ok::<u32, CaptureError>(w)) ==> r == Ok::<
            TargetMode,
            CaptureError,
        >(TargetMode::Window(w)),
        target is Window && (forall|o: Option<u32>| remembered.ensures((), o) ==> o == Some(w))
            ==> r == Ok::<TargetMode, CaptureError>(TargetMode::Window(w)),
        target is Window && (forall|o: Option<u32>| remembered.ensures((), o) ==> o is None) && (
        forall|o: Result<u32, CaptureError>|
            active.ensures((), o) ==> o == Ok::<u32, CaptureError>(w)) ==> r == Ok::<
            TargetMode,
            CaptureError,
        >(TargetMode::Window(w)),
        target is Window && (forall|o: Option<u32>| remembered.ensures((), o) ==> o is None) && (
        forall|o: Result<u32, CaptureError>| active.ensures((), o) ==> o is Err) ==> (
        r matches Err(CaptureError::Backend(s)) && s@
            == "no window to capture: none remembered and no active window"@),
{
}

/// The file that remembers a window lies in the folder of configuration, where there is one,
/// and a window is remembered where one is captured.
pub proof fn law_target_file(
    xdg: Option<&str>,
    home: Option<&str>,
    dir: Option<String>,
    dir_text: &str,
    file: String,
    r: Option<String>,
    w: u32,
    kept: Option<u32>,
    root: Option<u32>,
)
    requires
        call_ensures(config_dir, (xdg, home), dir),
        dir is Some ==> dir_text@ == dir->0@,
        call_ensures(join, (dir_text, "window.target"), file),
        call_ensures(target_file, (xdg, home), r),
        call_ensures(TargetMode::window_to_remember, (TargetMode::Window(w),), kept),
        call_ensures(TargetMode::window_to_remember, (TargetMode::Root,), root),
    ensures
        r is Some <==> dir is Some,
        r is Some ==> r->0@ == file@,
        kept == Some(w),
        root is None,
{
}

/// The screen with a number is that one of the setup, where there is one.
pub proof fn law_screen_at(setup: Setup, n: usize, r: Result<&Screen, CaptureError>)
    requires
        call_ensures(screen_at, (&setup, n), r),
    ensures
        r is Ok <==> n < setup.roots@.len(),
        r matches Ok(screen) ==> *screen == setup.roots@[n as int],
        r matches Err(e) ==> (e matches CaptureError::Backend(s) && s@ == "no screen at index "@
            + decimal(n as nat)),
{
}

/// The visual at a place: by its screen, its depth and its number there.
spec fn visual_at(screens: Seq<Screen>, s: int, d: int, v: int) -> Visual {
    screens[s].allowed_depths@[d].visuals@[v]
}

/// Whether there is a visual at a place.
pub open spec fn is_place(screens: Seq<Screen>, s: int, d: int, v: int) -> bool {
    &&& 0 <= s < screens.len()
    &&& 0 <= d < screens[s].allowed_depths@.len()
    &&& 0 <= v < screens[s].allowed_depths@[d].visuals@.len()
}

proof fn lemma_none_in_depths(depths: Seq<Depth>, id: u32)
    requires
        forall|d: int, v: int|
            0 <= d < depths.len() && 0 <= v < depths[d].visuals@.len() ==> (
            #[trigger] depths[d].visuals@[v]).visual_id != id,
    ensures
        forall|j: int|
            0 <= j < visuals_of_depths(depths).len() ==> (#[trigger] visuals_of_depths(depths)[j]).visual_id
                != id,
    decreases depths.len(),
{
    if depths.len() > 0 {
        let less = depths.drop_last();
        assert forall|d: int, v: int|
            0 <= d < less.len() && 0 <= v < less[d].visuals@.len() implies (
        #[trigger] less[d].visuals@[v]).visual_id != id by {
            assert(depths[d].visuals@[v].visual_id != id);
        }
        lemma_none_in_depths(less, id);
        let head = visuals_of_depths(less);
        let all = visuals_of_depths(depths);
        assert forall|j: int| 0 <= j < all.len() implies (#[trigger] all[j]).visual_id != id by {
            if j < head.len() {
                assert(all[j] == head[j]);
            } else {
                assert(all[j] == depths[depths.len() - 1].visuals@[j - head.len()]);
            }
        }
    }
}

proof fn lemma_first_in_depths(depths: Seq<Depth>, id: u32, d: int, v: int) -> (i: int)
    requires
        0 <= d < depths.len(),
        0 <= v < depths[d].visuals@.len(),
        forall|e: int, w: int|
            0 <= e < depths.len() && 0 <= w < depths[e].visuals@.len() && (e < d || (e == d && w
                < v)) ==> (#[trigger] depths[e].visuals@[w]).visual_id != id,
    ensures
        0 <= i < visuals_of_depths(depths).len(),
        visuals_of_depths(depths)[i] == depths[d].visuals@[v],
        forall|j: int| 0 <= j < i ==> (#[trigger] visuals_of_depths(depths)[j]).visual_id != id,
    decreases depths.len(),
{
    let less = depths.drop_last();
    let head = visuals_of_depths(less);
    let all = visuals_of_depths(depths);
    assert forall|j: int| 0 <= j < head.len() implies #[trigger] all[j] == head[j] by {}
    if d < less.len() {
        assert forall|e: int, w: int|
            0 <= e < less.len() && 0 <= w < less[e].visuals@.len() && (e < d || (e == d && w
                < v)) implies (#[trigger] less[e].visuals@[w]).visual_id != id by {
            assert(depths[e].visuals@[w].visual_id != id);
        }
        let i = lemma_first_in_depths(less, id, d, v);
        assert forall|j: int| 0 <= j < i implies (#[trigger] all[j]).visual_id != id by {
            assert(all[j] == head[j]);
        }
        i
    } else {
        assert forall|e: int, w: int|
            0 <= e < less.len() && 0 <= w < less[e].visuals@.len() implies (
        #[trigger] less[e].visuals@[w]).visual_id != id by {
            assert(depths[e].visuals@[w].visual_id != id);
        }
        lemma_none_in_depths(less, id);
        let i = head.len() + v;
        assert(all[i] == depths[d].visuals@[v]);
        assert forall|j: int| 0 <= j < i implies (#[trigger] all[j]).visual_id != id by {
            if j < head.len() {
                assert(all[j] == head[j]);
            } else {
                assert(all[j] == depths[d].visuals@[j - head.len()]);
            }
        }
        i
    }
}

proof fn lemma_none_in_screens(screens: Seq<Screen>, id: u32)
    requires
        forall|s: int, d: int, v: int|
            is_place(screens, s, d, v) ==> (#[trigger] visual_at(screens, s, d, v)).visual_id != id,
    ensures
        forall|j: int|
            0 <= j < visuals_of(screens).len() ==> (#[trigger] visuals_of(screens)[j]).visual_id
                != id,
    decreases screens.len(),
{
    if screens.len() > 0 {
        let less = screens.drop_last();
        assert forall|s: int, d: int, v: int| is_place(less, s, d, v) implies (#[trigger] visual_at(
            less,
            s,
            d,
            v,
        )).visual_id != id by {
            assert(visual_at(screens, s, d, v).visual_id != id);
        }
        lemma_none_in_screens(less, id);
        let last = screens.last().allowed_depths@;
        let n = screens.len() - 1;
        assert forall|d: int, v: int|
            0 <= d < last.len() && 0 <= v < last[d].visuals@.len() implies (
        #[trigger] last[d].visuals@[v]).visual_id != id by {
            assert(visual_at(screens, n, d, v).visual_id != id);
        }
        lemma_none_in_depths(last, id);
        let head = visuals_of(less);
        let tail = visuals_of_depths(last);
        let all = visuals_of(screens);
        assert forall|j: int| 0 <= j < all.len() implies (#[trigger] all[j]).visual_id != id by {
            if j < head.len() {
                assert(all[j] == head[j]);
            } else {
                assert(all[j] == tail[j - head.len()]);
            }
        }
    }
}

proof fn lemma_first_in_screens(screens: Seq<Screen>, id: u32, s: int, d: int, v: int) -> (i: int)
    requires
        is_place(screens, s, d, v),
        forall|t: int, e: int, w: int|
            is_place(screens, t, e, w) && (t < s || (t == s && e < d) || (t == s && e == d && w
                < v)) ==> (#[trigger] visual_at(screens, t, e, w)).visual_id != id,
    ensures
        0 <= i < visuals_of(screens).len(),
        visuals_of(screens)[i] == visual_at(screens, s, d, v),
        forall|j: int| 0 <= j < i ==> (#[trigger] visuals_of(screens)[j]).visual_id != id,
    decreases screens.len(),
{
    let less = screens.drop_last();
    let head = visuals_of(less);
    let last = screens.last().allowed_depths@;
    let tail = visuals_of_depths(last);
    let all = visuals_of(screens);
    if s < less.len() {
        assert forall|t: int, e: int, w: int|
            is_place(less, t, e, w) && (t < s || (t == s && e < d) || (t == s && e == d && w
                < v)) implies (#[trigger] visual_at(less, t, e, w)).visual_id != id by {
            assert(visual_at(screens, t, e, w).visual_id != id);
        }
        let i = lemma_first_in_screens(less, id, s, d, v);
        assert(all[i] == head[i]);
        assert forall|j: int| 0 <= j < i implies (#[trigger] all[j]).visual_id != id by {
            assert(all[j] == head[j]);
        }
        i
    } else {
        assert forall|t: int, e: int, w: int| is_place(less, t, e, w) implies (#[trigger] visual_at(
            less,
            t,
            e,
            w,
        )).visual_id != id by {
            assert(visual_at(screens, t, e, w).visual_id != id);
        }
        lemma_none_in_screens(less, id);
        assert forall|e: int, w: int|
            0 <= e < last.len() && 0 <= w < last[e].visuals@.len() && (e < d || (e == d && w
                < v)) implies (#[trigger] last[e].visuals@[w]).visual_id != id by {
            assert(visual_at(screens, s, e, w).visual_id != id);
        }
        let k = lemma_first_in_depths(last, id, d, v);
        let i = head.len() + k;
        assert(all[i] == tail[k]);
        assert forall|j: int| 0 <= j < i implies (#[trigger] all[j]).visual_id != id by {
            if j < head.len() {
                assert(all[j] == head[j]);
            } else {
                assert(all[j] == tail[j - head.len()]);
            }
        }
        i
    }
}

/// The first visual with the id, over the screens, their depths and the visuals of these,
/// tells by its masks how pixels lie in memory.
pub proof fn law_format_goes_by_the_first_visual(
    setup: Setup,
    id: u32,
    r: PixelFormat,
    s: int,
    d: int,
    v: int,
)
    requires
        call_ensures(detect_format, (&setup, id), r),
        is_place(setup.roots@, s, d, v),
        setup.roots@[s].allowed_depths@[d].visuals@[v].visual_id == id,
        forall|t: int, e: int, w: int|
            is_place(setup.roots@, t, e, w) && (t < s || (t == s && e < d) || (t == s && e == d && w
                < v)) ==> (
            #[trigger] setup.roots@[t].allowed_depths@[e].visuals@[w]).visual_id != id,
    ensures
        ({
            let x = setup.roots@[s].allowed_depths@[d].visuals@[v];
            let rgb = x.red_mask == 0xff_0000 && x.green_mask == 0xff00 && x.blue_mask == 0xff;
            let bgr = x.red_mask == 0xff && x.green_mask == 0xff00 && x.blue_mask == 0xff_0000;
            &&& rgb && setup.msb_first ==> r is Xrgb8888
            &&& bgr && !setup.msb_first ==> r is Rgbx8888
            &&& !(rgb && setup.msb_first) && !(bgr && !setup.msb_first) ==> r is Bgrx8888
        }),
{
    let screens = setup.roots@;
    assert forall|t: int, e: int, w: int|
        is_place(screens, t, e, w) && (t < s || (t == s && e < d) || (t == s && e == d && w
            < v)) implies (#[trigger] visual_at(screens, t, e, w)).visual_id != id by {
        assert(screens[t].allowed_depths@[e].visuals@[w].visual_id != id);
    }
    let i = lemma_first_in_screens(screens, id, s, d, v);
    let x = Some(visuals_of(screens)[i]);
    assert(is_first_visual(visuals_of(screens), id, x));
    assert(is_format_of(setup, id, layout_of(x, setup.msb_first)));
    law_format_is_unique(setup, id, r, layout_of(x, setup.msb_first));
}

/// Where no visual has the id, the usual layout is taken.
pub proof fn law_unknown_visual_has_the_usual_format(setup: Setup, id: u32, r: PixelFormat)
    requires
        call_ensures(detect_format, (&setup, id), r),
        forall|t: int, e: int, w: int|
            is_place(setup.roots@, t, e, w) ==> (
            #[trigger] setup.roots@[t].allowed_depths@[e].visuals@[w]).visual_id != id,
    ensures
        r is Bgrx8888,
{
    let screens = setup.roots@;
    assert forall|t: int, e: int, w: int| is_place(screens, t, e, w) implies (#[trigger] visual_at(
        screens,
        t,
        e,
        w,
    )).visual_id != id by {
        assert(screens[t].allowed_depths@[e].visuals@[w].visual_id != id);
    }
    lemma_none_in_screens(screens, id);
    assert(is_first_visual(visuals_of(screens), id, None));
    assert(is_format_of(setup, id, layout_of(None, setup.msb_first)));
    law_format_is_unique(setup, id, r, layout_of(None, setup.msb_first));
}

/// A source has the size of its target at 60 frames a second, the depth of the root or of the
/// window, and the format of the target's visual; a target without a size is refused.
pub proof fn law_source_is_its_target(
    setup: Setup,
    screen: Screen,
    mode: TargetMode,
    geometry: Geometry,
    window_visual: Option<u32>,
    has_shm: bool,
    r: Result<X11Source, CaptureError>,
    visual: u32,
    format: PixelFormat,
    source: X11Source,
    info: Option<StreamInfo>,
    depth: u8,
    shm: bool,
    root: u32,
    running: bool,
)
    requires
        call_ensures(open, (&setup, &screen, mode, geometry, window_visual, has_shm), r),
        mode is Root ==> visual == screen.root_visual,
        mode is Window && window_visual is None ==> visual == screen.root_visual,
        mode is Window && window_visual is Some ==> visual == window_visual->0,
        call_ensures(detect_format, (&setup, visual), format),
        r == Ok::<X11Source, CaptureError>(source),
        call_ensures(X11Source::stream_info, (&source,), info),
        call_ensures(X11Source::depth, (&source,), depth),
        call_ensures(X11Source::has_shm, (&source,), shm),
        call_ensures(X11Source::root, (&source,), root),
        call_ensures(X11Source::is_running, (&source,), running),
    ensures
        geometry.width > 0 && geometry.height > 0,
        info is Some,
        info->0.width == geometry.width,
        info->0.height == geometry.height,
        info->0.framerate == 60,
        info->0.format == format,
        mode is Root ==> depth == screen.root_depth,
        mode is Window ==> depth == geometry.depth,
        shm == has_shm,
        root == screen.root,
        !running,
{
    law_format_is_unique(setup, visual, source@.info.format, format);
}

/// A target has to have a size.
pub proof fn law_source_needs_a_size(
    setup: Setup,
    screen: Screen,
    mode: TargetMode,
    geometry: Geometry,
    window_visual: Option<u32>,
    has_shm: bool,
    r: Result<X11Source, CaptureError>,
)
    requires
        call_ensures(open, (&setup, &screen, mode, geometry, window_visual, has_shm), r),
    ensures
        r is Ok <==> geometry.width > 0 && geometry.height > 0,
        r matches Err(e) ==> (e matches CaptureError::Backend(s) && s@
            == "capture target reports zero size"@),
        r matches Ok(source) ==> source@.mode == mode && !source@.consumed,
{
}

/// A source is started once: it grabs its target then, and neither while it runs nor after
/// it was stopped can it be started again. Starting and stopping change nothing else.
pub proof fn law_source_starts_once(
    source: &mut X11Source,
    first: Result<TargetMode, CaptureError>,
    running: &mut X11Source,
)
    requires
        call_ensures(X11Source::start, (source,), first),
        call_ensures(X11Source::stop, (running,), ()),
    ensures
        first is Ok <==> !old(source)@.running && !old(source)@.consumed,
        first matches Ok(mode) ==> mode == old(source)@.mode && final(source)@.running && final(source)@.consumed,
        old(source)@.running ==> (first matches Err(CaptureError::Backend(s)) && s@
            == "capture already running"@),
        !old(source)@.running && old(source)@.consumed ==> (
        first matches Err(CaptureError::Backend(s)) && s@ == "x11 source already consumed"@),
        first is Err ==> final(source)@.running == old(source)@.running && final(source)@.consumed
            == old(source)@.consumed,
        final(source)@.mode == old(source)@.mode && final(source)@.info == old(source)@.info
            && final(source)@.depth == old(source)@.depth && final(source)@.root == old(source)@.root && final(source)@.has_shm == old(source)@.has_shm,
        !final(running)@.running,
        final(running)@.consumed == old(running)@.consumed && final(running)@.mode == old(running)@.mode && final(running)@.info == old(running)@.info && final(running)@.depth == old(running)@.depth && final(running)@.root == old(running)@.root && final(running)@.has_shm == old(running)@.has_shm,
{
}

/// The name of a source tells what is grabbed and how.
pub proof fn law_source_names(source: X11Source, r: &'static str)
    requires
        call_ensures(X11Source::name, (&source,), r),
    ensures
        source@.mode is Root && source@.has_shm ==> r@ == "x11-xshm"@,
        source@.mode is Root && !source@.has_shm ==> r@ == "x11-getimage"@,
        source@.mode is Window && source@.has_shm ==> r@ == "x11-window-xshm"@,
        source@.mode is Window && !source@.has_shm ==> r@ == "x11-window-getimage"@,
{
}

/// The setup of a window grab: a pixmap that can be named is grabbed, after a redirect where
/// there was none; whatever fails ends in a direct grab of the window, with a redirect undone.
pub proof fn law_setup_steps(window: u32, pixmap: u32, start: GrabSetup)
    requires
        call_ensures(setup_window_grab, (window,), start),
    ensures
        start == (GrabSetup::QueryComposite { window }),
        forall|r: GrabSetup| #[trigger]
            call_ensures(GrabSetup::step, (GrabSetup::QueryComposite { window }, true, pixmap), r)
                ==> r == (GrabSetup::NamePixmap { window }),
        forall|r: GrabSetup| #[trigger]
            call_ensures(GrabSetup::step, (GrabSetup::QueryComposite { window }, false, pixmap), r)
                ==> (r matches GrabSetup::Ready { source, degraded } && source
                == (GrabSource::WindowDirect { window }) && degraded == Some(
                DirectReason::NoComposite,
            )),
        forall|r: GrabSetup| #[trigger]
            call_ensures(GrabSetup::step, (GrabSetup::NamePixmap { window }, true, pixmap), r) ==> (
            r matches GrabSetup::Ready { source, degraded } && source == (GrabSource::Window {
                window,
                pixmap,
                redirected_by_us: false,
            }) && degraded is None),
        forall|r: GrabSetup| #[trigger]
            call_ensures(GrabSetup::step, (GrabSetup::NamePixmap { window }, false, pixmap), r)
                ==> r == (GrabSetup::Redirect { window }),
        forall|r: GrabSetup| #[trigger]
            call_ensures(GrabSetup::step, (GrabSetup::Redirect { window }, true, pixmap), r) ==> r
                == (GrabSetup::NameRedirected { window }),
        forall|r: GrabSetup| #[trigger]
            call_ensures(GrabSetup::step, (GrabSetup::Redirect { window }, false, pixmap), r) ==> (
            r matches GrabSetup::Ready { source, degraded } && source
                == (GrabSource::WindowDirect { window }) && degraded == Some(
                DirectReason::RedirectFailed,
            )),
        forall|r: GrabSetup| #[trigger]
            call_ensures(GrabSetup::step, (GrabSetup::NameRedirected { window }, true, pixmap), r)
                ==> (r matches GrabSetup::Ready { source, degraded } && source == (
            GrabSource::Window { window, pixmap, redirected_by_us: true }) && degraded is None),
        forall|r: GrabSetup| #[trigger]
            call_ensures(GrabSetup::step, (GrabSetup::NameRedirected { window }, false, pixmap), r)
                ==> r == (GrabSetup::Unredirect { window }),
        forall|ok: bool, r: GrabSetup| #[trigger]
            call_ensures(GrabSetup::step, (GrabSetup::Unredirect { window }, ok, pixmap), r) ==> (
            r matches GrabSetup::Ready { source, degraded } && source
                == (GrabSource::WindowDirect { window }) && degraded == Some(
                DirectReason::NamingFailed,
            )),
{
}

/// What is grabbed and what is given back: the root and a window itself are grabbed as they
/// are and need nothing; a window's pixmap is freed, and a redirect of one's own undone.
pub proof fn law_grabs_are_given_back(
    source: GrabSource,
    drawable: u32,
    teardown: Option<Teardown>,
    root: u32,
    window: u32,
    pixmap: u32,
    redirected_by_us: bool,
)
    requires
        call_ensures(GrabSource::drawable, (&source,), drawable),
        call_ensures(GrabSource::teardown_window_grab, (&source,), teardown),
    ensures
        source == (GrabSource::Root { root }) ==> drawable == root && teardown is None,
        source == (GrabSource::WindowDirect { window }) ==> drawable == window && teardown is None,
        source == (GrabSource::Window { window, pixmap, redirected_by_us }) ==> {
            &&& drawable == pixmap
            &&& teardown is Some
            &&& teardown->0.free_pixmap == pixmap
            &&& redirected_by_us ==> teardown->0.unredirect == Some(window)
            &&& !redirected_by_us ==> teardown->0.unredirect is None
        },
{
}

/// A grab that succeeds is delivered as it is. One that fails is tried again only through a
/// pixmap, with a fresh one for the same window, and stops the capture with its own error
/// where that is not to be had.
pub proof fn law_failed_grabs(
    source: GrabSource,
    pixels: Vec<u8>,
    error: CaptureError,
    delivered: GrabStep,
    failed: GrabStep,
    changed: &mut GrabSource,
    fresh: u32,
    renamed: RenameStep,
    kept: &mut GrabSource,
    gone: RenameStep,
    again: Option<Vec<u8>>,
    skipped: Option<Vec<u8>>,
)
    requires
        call_ensures(GrabSource::on_grab, (&source, Ok(pixels)), delivered),
        call_ensures(GrabSource::on_grab, (&source, Err(error)), failed),
        call_ensures(GrabSource::on_rename, (changed, Some(fresh), error), renamed),
        call_ensures(GrabSource::on_rename, (kept, None, error), gone),
        call_ensures(on_retry, (Ok(pixels),), again),
        call_ensures(on_retry, (Err(error),), skipped),
    ensures
        delivered == GrabStep::Deliver(pixels),
        source is Window ==> failed == (GrabStep::Rename {
            window: source->Window_window,
            stale: source->pixmap,
            cause: error,
        }),
        !(source is Window) ==> failed == GrabStep::Stop(error),
        *old(changed) is Window ==> {
            let was = *old(changed);
            &&& *final(changed) == (GrabSource::Window {
                window: was->Window_window,
                pixmap: fresh,
                redirected_by_us: was->redirected_by_us,
            })
            &&& renamed == RenameStep::Retry(fresh)
        },
        *final(kept) == *old(kept) && gone == RenameStep::Stop(error),
        again == Some(pixels),
        skipped is None,
{
}

/// A turn of the capture loop grabs the drawable of its source. Pixels are delivered as they
/// were grabbed; a failed grab stops the capture, or, through a pixmap, is tried once more
/// with the fresh pixmap of the same window.
pub proof fn law_turns_of_the_loop<G, N>(
    source: &mut GrabSource,
    grab: G,
    rename: N,
    r: Grabbed,
    drawable: u32,
) where G: Fn(u32) -> Result<Vec<u8>, CaptureError>, N: FnOnce(u32, u32) -> Option<u32>
    requires
        call_ensures(grab_turn::<G, N>, (source, grab, rename), r),
        match *old(source) {
            GrabSource::Root { root } => drawable == root,
            GrabSource::WindowDirect { window } => drawable == window,
            GrabSource::Window { window, pixmap, redirected_by_us } => drawable == pixmap,
        },
    ensures
        (forall|o: Result<Vec<u8>, CaptureError>| grab.ensures((drawable,), o) ==> o is Ok) ==> {
            &&& *final(source) == *old(source)
            &&& r matches Grabbed::Pixels(pixels) && grab.ensures((drawable,), Ok(pixels))
        },
        (forall|o: Result<Vec<u8>, CaptureError>| grab.ensures((drawable,), o) ==> o is Err) && !(
        *old(source) is Window) ==> {
            &&& *final(source) == *old(source)
            &&& r matches Grabbed::Stop(e) && grab.ensures((drawable,), Err(e))
        },
        (forall|o: Result<Vec<u8>, CaptureError>| grab.ensures((drawable,), o) ==> o is Err)
            && *old(source) is Window ==> {
            let was = *old(source);
            let now = *final(source);
            let window = was->Window_window;
            match r {
                Grabbed::Stop(e) => now == was && rename.ensures((window, drawable), None)
                    && grab.ensures((drawable,), Err(e)),
                Grabbed::Pixels(pixels) => now is Window && now->Window_window == window
                    && now->redirected_by_us == was->redirected_by_us && rename.ensures(
                    (window, drawable),
                    Some(now->pixmap),
                ) && grab.ensures((now->pixmap,), Ok(pixels)),
                Grabbed::Skip => now is Window && now->Window_window == window
                    && now->redirected_by_us == was->redirected_by_us && rename.ensures(
                    (window, drawable),
                    Some(now->pixmap),
                ),
            }
        },
{
    let first = choose|first: Result<Vec<u8>, CaptureError>| #[trigger]
        is_turn(*old(source), *final(source), grab, rename, first, r);
    assert(is_turn(*old(source), *final(source), grab, rename, first, r));
    assert(grab.ensures((drawable,), first));
}

/// A frame has the size of the stream and four bytes a pixel: the grabbed bytes, each in its
/// place, and zeros where there are no more.
pub proof fn law_frame_of_a_grab(info: StreamInfo, pixels: Vec<u8>, pts_ns: u64, r: Frame)
    requires
        call_ensures(frame_of_grab, (info, pixels, pts_ns), r),
    ensures
        r.width == info.width && r.height == info.height && r.format == info.format,
        r.stride == info.width * 4,
        r.pts_ns == pts_ns,
        r.data@.len() == info.width * 4 * info.height,
        forall|i: int|
            0 <= i < r.data@.len() && i < pixels@.len() ==> #[trigger] r.data@[i] == pixels@[i],
        forall|i: int| pixels@.len() <= i < r.data@.len() ==> #[trigger] r.data@[i] == 0,
{
    assert(info.width * 4 * info.height >= 0) by (nonlinear_arith)
        requires
            info.width >= 0,
            info.height >= 0,
    ;
}

/// A frame of a loop has the time since the loop began, or that of the frame before where the
/// clock has gone back.
pub proof fn law_frames_of_a_loop(
    info: StreamInfo,
    start_ns: u64,
    fresh: FrameMaker,
    maker: &mut FrameMaker,
    pixels: Vec<u8>,
    now_ns: u64,
    r: Frame,
    begin: u64,
)
    requires
        call_ensures(FrameMaker::new, (info, start_ns), fresh),
        call_ensures(FrameMaker::frame, (maker, pixels, now_ns), r),
        old(maker).clock.origin == Some(begin),
    ensures
        fresh.info == info && fresh.clock.origin == Some(start_ns) && fresh.clock.last == 0,
        now_ns >= begin && now_ns - begin >= old(maker).clock.last ==> r.pts_ns == now_ns - begin,
        now_ns < begin || now_ns - begin < old(maker).clock.last ==> r.pts_ns == old(maker).clock.last,
        final(maker).clock.last == r.pts_ns,
        final(maker).clock.origin == Some(begin),
        final(maker).info == old(maker).info,
        r.width == old(maker).info.width && r.height == old(maker).info.height,
        r.format == old(maker).info.format,
        r.stride == old(maker).info.width * 4,
        r.data@.len() == old(maker).info.width * 4 * old(maker).info.height,
        forall|i: int|
            0 <= i < r.data@.len() && i < pixels@.len() ==> #[trigger] r.data@[i] == pixels@[i],
        forall|i: int| pixels@.len() <= i < r.data@.len() ==> #[trigger] r.data@[i] == 0,
{
    let info = old(maker).info;
    assert(info.width * 4 * info.height >= 0) by (nonlinear_arith)
        requires
            info.width >= 0,
            info.height >= 0,
    ;
}

/// What is left of an interval is slept in slices of 5 milliseconds, the last of which may be
/// shorter; nothing is slept once the capture has ended.
pub proof fn law_pacing(
    interval_ns: u64,
    elapsed_ns: u64,
    rest: Pacing,
    pacing: &mut Pacing,
    running: bool,
    r: Option<u64>,
)
    requires
        call_ensures(Pacing::new, (interval_ns, elapsed_ns), rest),
        call_ensures(Pacing::next, (pacing, running), r),
    ensures
        elapsed_ns <= interval_ns ==> rest.left_ns == interval_ns - elapsed_ns,
        elapsed_ns > interval_ns ==> rest.left_ns == 0,
        r is Some <==> running && old(pacing).left_ns > 0,
        r matches Some(slice) ==> {
            &&& old(pacing).left_ns >= 5_000_000 ==> slice == 5_000_000
            &&& old(pacing).left_ns < 5_000_000 ==> slice == old(pacing).left_ns
            &&& final(pacing).left_ns == old(pacing).left_ns - slice
        },
        r is None ==> final(pacing).left_ns == old(pacing).left_ns,
{
}

/// A failed setup of shared memory gives back what there is by then and says what failed; a
/// mapping is given back once.
pub proof fn law_shared_memory(
    e: String,
    f: ShmFailure,
    r: (ShmUndo, CaptureError),
    fresh: ShmMapping,
    mapping: &mut ShmMapping,
    now: bool,
)
    requires
        call_ensures(shm_failed, (f,), r),
        call_ensures(ShmMapping::new, (), fresh),
        call_ensures(ShmMapping::release, (mapping,), now),
    ensures
        r.0.remove <==> !(f is Get),
        r.0.unmap <==> f is GenerateId || f is Attach,
        f == ShmFailure::GenerateId(e) ==> (r.1 matches CaptureError::Backend(s) && s@
            == "generate_id: "@ + e@),
        f == ShmFailure::Attach(e) ==> (r.1 matches CaptureError::Backend(s) && s@
            == "shm_attach: "@ + e@),
        f is Get ==> (r.1 matches CaptureError::Backend(s) && s@ == "shmget failed"@),
        f is At ==> (r.1 matches CaptureError::Backend(s) && s@ == "shmat failed"@),
        fresh.mapped,
        now == old(mapping).mapped,
        !final(mapping).mapped,
{
}

} // verus!
