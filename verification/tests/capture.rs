use rewind::capture::wayland::{
    format_offer, frame_of_buffer, granted_node, map_portal_err, portal_source, restore_token,
    spa_format_to_pixel, timespec_ns, token_path, ParamChange, PortalFailure, PortalSource,
    RawFormat, SpaFormat, StreamBuffer, WaylandSource,
};
use rewind::capture::x11::{
    active_window, candidate_windows, capture_error, client_list, detect_format, focused_window,
    frame_bytes, frame_of_grab, grab_turn, known_atom, listed_windows, on_retry, open, resolve_target,
    screen_at, setup_window_grab, shm_failed, target_file, tree_windows, ActiveWindowRead, Depth,
    DirectReason, FrameMaker, Geometry, GrabSetup, GrabSource, GrabStep, Grabbed, Pacing,
    PropertyReply, RenameStep, Screen, Setup, ShmFailure, ShmMapping, ShmUndo, TargetMode, Teardown, Visual, XFailure,
};
use rewind::capture::{
    config_dir, create_source, open_wayland, open_x11, CaptureError, FrameSink, FrameSource,
};
use rewind::media::{CaptureTarget, PixelFormat, StreamInfo};

struct Named(&'static str);

impl FrameSource for Named {
    fn name(&self) -> &str {
        self.0
    }

    fn stream_info(&self) -> Option<StreamInfo> {
        None
    }

    fn start(&mut self, _sink: Box<dyn FrameSink>) -> Result<(), CaptureError> {
        Ok(())
    }

    fn stop(&mut self) {}
}

fn source(name: &'static str) -> Result<Box<dyn FrameSource>, CaptureError> {
    Ok(Box::new(Named(name)))
}

fn failing() -> Result<Box<dyn FrameSource>, CaptureError> {
    Err(CaptureError::PermissionDenied)
}

fn unwanted() -> Result<Box<dyn FrameSource>, CaptureError> {
    panic!("not to be opened")
}

fn said(e: CaptureError) -> String {
    e.message()
}

fn name_of(r: Result<Box<dyn FrameSource>, CaptureError>) -> String {
    match r {
        Ok(s) => s.name().to_string(),
        Err(e) => e.message(),
    }
}

#[test]
fn the_session_picks_the_backend() {
    assert_eq!(name_of(create_source("wayland", || source("w"), || source("x"))), "w");
    assert_eq!(name_of(create_source("x11", || source("w"), || source("x"))), "x");
    assert_eq!(name_of(create_source("tty", || source("w"), || source("x"))), "w");
    assert_eq!(name_of(create_source("", failing, || source("x"))), "x");
    assert_eq!(
        name_of(create_source("wayland", failing, || source("x"))),
        "screen capture permission denied"
    );
    assert_eq!(
        name_of(create_source("tty", failing, failing)),
        "capture unsupported: no capture backend available for session 'tty' (build with --features capture-wayland,capture-x11)"
    );
}

#[test]
fn a_backend_that_is_not_needed_is_not_opened() {
    assert_eq!(name_of(create_source("wayland", || source("w"), unwanted)), "w");
    assert_eq!(
        name_of(create_source("wayland", failing, unwanted)),
        "screen capture permission denied"
    );
    assert_eq!(name_of(create_source("x11", unwanted, || source("x"))), "x");
    assert_eq!(name_of(create_source("tty", || source("w"), unwanted)), "w");
}

#[test]
fn backends_may_be_left_out() {
    assert_eq!(
        name_of(open_wayland(None)),
        "capture unsupported: wayland capture not built (enable feature `capture-wayland`)"
    );
    assert_eq!(
        name_of(open_x11(None)),
        "capture unsupported: x11 capture not built (enable feature `capture-x11`)"
    );
    assert_eq!(name_of(open_x11(Some(source("x")))), "x");
    assert_eq!(name_of(open_wayland(Some(source("w")))), "w");
}

#[test]
fn the_configuration_folder() {
    assert_eq!(config_dir(Some("/x"), Some("/h")), Some("/x/rewind".to_string()));
    assert_eq!(config_dir(Some(""), Some("/h")), Some("/h/.config/rewind".to_string()));
    assert_eq!(config_dir(None, Some("/h")), Some("/h/.config/rewind".to_string()));
    assert_eq!(config_dir(Some(""), None), None);
    assert_eq!(
        target_file(None, Some("/h")),
        Some("/h/.config/rewind/window.target".to_string())
    );
    assert_eq!(target_file(None, None), None);
    assert_eq!(
        token_path(Some("/x"), None, CaptureTarget::Monitor),
        Some("/x/rewind/screencast.token".to_string())
    );
    assert_eq!(
        token_path(Some("/x"), None, CaptureTarget::ActiveWindow),
        Some("/x/rewind/screencast-window.token".to_string())
    );
}

#[test]
fn the_portal_grant() {
    assert_eq!(portal_source(CaptureTarget::Monitor), PortalSource::Monitor);
    assert_eq!(portal_source(CaptureTarget::Window), PortalSource::Window);
    assert_eq!(portal_source(CaptureTarget::ActiveWindow), PortalSource::Window);
    assert!(matches!(map_portal_err(PortalFailure::Cancelled), CaptureError::PermissionDenied));
    assert!(matches!(map_portal_err(PortalFailure::Refused), CaptureError::PermissionDenied));
    assert_eq!(
        said(map_portal_err(PortalFailure::Other("dbus".to_string()))),
        "capture backend error: portal: dbus"
    );
    assert_eq!(granted_node(&vec![7, 9]).unwrap(), 7);
    assert_eq!(
        said(granted_node(&Vec::new()).unwrap_err()),
        "capture backend error: portal returned no streams"
    );
    assert_eq!(restore_token(" abc\n"), Some("abc".to_string()));
    assert_eq!(restore_token(" \n"), None);
}

#[test]
fn the_wayland_format() {
    assert_eq!(spa_format_to_pixel(SpaFormat::Xrgb), PixelFormat::Xrgb8888);
    assert_eq!(spa_format_to_pixel(SpaFormat::Other), PixelFormat::Bgrx8888);
    let offer = format_offer();
    assert_eq!(offer.formats.len(), 5);
    assert_eq!((offer.default_size, offer.max_size), ((1920, 1080), (8192, 8192)));
    let raw = RawFormat {
        width: 2,
        height: 2,
        rate_num: 60000,
        rate_denom: 1001,
        format: SpaFormat::Rgba,
    };
    let mut s = WaylandSource::new(42);
    assert_eq!(s.name(), "wayland-pipewire");
    assert_eq!(s.stream_info(), None);
    s.param_changed(ParamChange { is_format: false, is_raw_video: true, raw: Some(raw) });
    s.param_changed(ParamChange { is_format: true, is_raw_video: false, raw: Some(raw) });
    s.param_changed(ParamChange { is_format: true, is_raw_video: true, raw: None });
    assert_eq!(s.stream_info(), None);
    s.param_changed(ParamChange { is_format: true, is_raw_video: true, raw: Some(raw) });
    let info = s.stream_info().unwrap();
    assert_eq!((info.width, info.framerate, info.format), (2, 59, PixelFormat::Rgba8888));
    assert_eq!(s.start().unwrap(), 42);
    assert!(s.is_running());
    assert_eq!(said(s.start().unwrap_err()), "capture backend error: capture already started");
    s.stop();
    assert!(!s.is_running());
    assert!(s.start().is_err());
}

#[test]
fn wayland_frames_hold_their_rows() {
    let raw = RawFormat {
        width: 2,
        height: 2,
        rate_num: 60,
        rate_denom: 0,
        format: SpaFormat::Bgrx,
    };
    let bytes: Vec<u8> = (0..40).collect();
    let tight = StreamBuffer { chunk_stride: 0, mapped: Some(&bytes) };
    let f = frame_of_buffer(Some(raw), &tight, 5).unwrap();
    assert_eq!((f.stride, f.data.len(), f.pts_ns), (8, 16, 5));
    assert_eq!(f.data[15], 15);
    let padded = StreamBuffer { chunk_stride: 12, mapped: Some(&bytes) };
    assert_eq!(frame_of_buffer(Some(raw), &padded, 0).unwrap().data.len(), 24);
    let short = StreamBuffer { chunk_stride: 30, mapped: Some(&bytes) };
    assert_eq!(frame_of_buffer(Some(raw), &short, 0).unwrap().data.len(), 40);
    let unmapped = StreamBuffer { chunk_stride: 0, mapped: None };
    assert!(frame_of_buffer(Some(raw), &unmapped, 0).is_none());
    assert!(frame_of_buffer(None, &tight, 0).is_none());
    assert_eq!(timespec_ns(3, 7), 3_000_000_007);
    assert_eq!(timespec_ns(u64::MAX, 0), u64::MAX.wrapping_mul(1_000_000_000));
}

#[test]
fn x11_failures_say_what_failed() {
    let e = || "boom".to_string();
    assert_eq!(
        said(capture_error(XFailure::Connect(e()))),
        "capture unsupported: cannot connect to X server: boom"
    );
    let table = [
        (XFailure::Connection(e()), "x11 connection error: boom"),
        (XFailure::Reply(e()), "x11 reply error: boom"),
        (XFailure::ReplyOrId(e()), "x11 reply/id error: boom"),
        (XFailure::RootGeometry(e()), "get_geometry(root) failed: boom"),
        (XFailure::WindowGeometry(e()), "get_geometry(window) failed: boom"),
        (XFailure::ReadActiveWindow(e()), "read _NET_ACTIVE_WINDOW: boom"),
        (XFailure::NamePixmap(e()), "NameWindowPixmap: boom"),
        (XFailure::Spawn(e()), "failed to spawn capture thread: boom"),
    ];
    for (f, text) in table {
        assert_eq!(said(capture_error(f)), format!("capture backend error: {text}"));
    }
}

fn words(ws: &[u32]) -> PropertyReply {
    let mut value = Vec::new();
    for w in ws {
        value.extend_from_slice(&w.to_ne_bytes());
    }
    PropertyReply { format: 32, value }
}

#[test]
fn the_active_window_is_read() {
    assert_eq!(active_window(ActiveWindowRead::Value(words(&[0x1400007, 9]))).unwrap(), 0x1400007);
    let none = "capture backend error: no active window to capture (_NET_ACTIVE_WINDOW is None)";
    assert_eq!(said(active_window(ActiveWindowRead::Value(words(&[0]))).unwrap_err()), none);
    assert_eq!(said(active_window(ActiveWindowRead::Value(words(&[]))).unwrap_err()), none);
    let bytes = PropertyReply { format: 8, value: vec![1, 2, 3, 4] };
    assert_eq!(said(active_window(ActiveWindowRead::Value(bytes)).unwrap_err()), none);
    assert_eq!(
        said(active_window(ActiveWindowRead::UnknownAtom).unwrap_err()),
        "capture backend error: _NET_ACTIVE_WINDOW unsupported (no EWMH window manager?)"
    );
    assert_eq!(
        said(
            active_window(ActiveWindowRead::Failed(XFailure::ReadActiveWindow("x".to_string())))
                .unwrap_err()
        ),
        "capture backend error: read _NET_ACTIVE_WINDOW: x"
    );
    assert_eq!(focused_window(&Some(vec![5, 6])).unwrap(), 5);
    assert!(focused_window(&None).is_err());
    assert_eq!((known_atom(Some(3)), known_atom(Some(0)), known_atom(None)), (Some(3), None, None));
}

#[test]
fn windows_are_listed() {
    assert_eq!(client_list(&Some(words(&[1, 2, 0x01020304]))), Some(vec![1, 2, 0x01020304]));
    let mut ragged = words(&[1, 2]);
    ragged.value.push(9);
    assert_eq!(client_list(&Some(ragged)), Some(vec![1, 2]));
    assert_eq!(client_list(&Some(words(&[]))), None);
    assert_eq!(client_list(&Some(PropertyReply { format: 16, value: vec![0; 8] })), None);
    assert_eq!(client_list(&None), None);
    assert_eq!(listed_windows(Some(vec![])), None);
    assert_eq!(listed_windows(Some(vec![4])), Some(vec![4]));
    let tree = Some(vec![(1, Some(vec![10, 11])), (2, None), (3, Some(vec![]))]);
    assert_eq!(tree_windows(&tree), vec![1, 10, 11, 2, 3]);
    assert_eq!(tree_windows(&None), Vec::<u32>::new());
    assert_eq!(candidate_windows(Some(vec![7]), || panic!("not walked")), vec![7]);
    assert_eq!(candidate_windows(None, || vec![8]), vec![8]);
}

#[test]
fn the_target_is_resolved() {
    let no = || Err(CaptureError::PermissionDenied);
    assert_eq!(
        resolve_target(
            CaptureTarget::Monitor,
            || panic!("not asked"),
            || panic!("not asked"),
        )
        .unwrap(),
        TargetMode::Root
    );
    assert_eq!(
        resolve_target(CaptureTarget::ActiveWindow, || panic!("not asked"), || Ok(2)).unwrap(),
        TargetMode::Window(2)
    );
    assert!(matches!(
        resolve_target(CaptureTarget::ActiveWindow, || Some(1), no),
        Err(CaptureError::PermissionDenied)
    ));
    assert_eq!(
        resolve_target(CaptureTarget::Window, || Some(1), || panic!("not asked")).unwrap(),
        TargetMode::Window(1)
    );
    assert_eq!(
        resolve_target(CaptureTarget::Window, || None, || Ok(2)).unwrap(),
        TargetMode::Window(2)
    );
    assert_eq!(
        said(resolve_target(CaptureTarget::Window, || None, no).unwrap_err()),
        "capture backend error: no window to capture: none remembered and no active window"
    );
    assert_eq!(TargetMode::Window(3).window_to_remember(), Some(3));
    assert_eq!(TargetMode::Root.window_to_remember(), None);
}

fn setup(msb_first: bool) -> Setup {
    let rgb = |id| Visual {
        visual_id: id,
        red_mask: 0xff0000,
        green_mask: 0xff00,
        blue_mask: 0xff,
    };
    let bgr = |id| Visual {
        visual_id: id,
        red_mask: 0xff,
        green_mask: 0xff00,
        blue_mask: 0xff0000,
    };
    let odd = |id| Visual { visual_id: id, red_mask: 1, green_mask: 2, blue_mask: 4 };
    Setup {
        roots: vec![
            Screen {
                root: 100,
                root_depth: 24,
                root_visual: 33,
                allowed_depths: vec![
                    Depth { visuals: vec![odd(31)] },
                    Depth { visuals: vec![bgr(32), rgb(33)] },
                ],
            },
            Screen {
                root: 200,
                root_depth: 24,
                root_visual: 32,
                allowed_depths: vec![Depth { visuals: vec![rgb(32), bgr(40)] }],
            },
        ],
        msb_first,
    }
}

#[test]
fn pixels_follow_the_visual() {
    let little = setup(false);
    let big = setup(true);
    assert_eq!(detect_format(&little, 33), PixelFormat::Bgrx8888);
    assert_eq!(detect_format(&big, 33), PixelFormat::Xrgb8888);
    // The first visual with the id counts.
    assert_eq!(detect_format(&little, 32), PixelFormat::Rgbx8888);
    assert_eq!(detect_format(&big, 32), PixelFormat::Bgrx8888);
    assert_eq!(detect_format(&little, 40), PixelFormat::Rgbx8888);
    assert_eq!(detect_format(&little, 31), PixelFormat::Bgrx8888);
    assert_eq!(detect_format(&little, 999), PixelFormat::Bgrx8888);
    assert_eq!(screen_at(&little, 1).unwrap().root, 200);
    assert_eq!(
        said(screen_at(&little, 12).unwrap_err()),
        "capture backend error: no screen at index 12"
    );
}

#[test]
fn an_x11_source_starts_once() {
    let setup = setup(false);
    let screen = screen_at(&setup, 0).unwrap();
    let size = Geometry { width: 640, height: 480, depth: 32 };
    let empty = Geometry { width: 640, height: 0, depth: 32 };
    assert_eq!(
        said(open(&setup, screen, TargetMode::Root, empty, None, true).unwrap_err()),
        "capture backend error: capture target reports zero size"
    );
    let mut s = open(&setup, screen, TargetMode::Window(5), size, Some(32), true).unwrap();
    assert_eq!((s.name(), s.depth(), s.has_shm(), s.root()), ("x11-window-xshm", 32, true, 100));
    assert_eq!(
        s.stream_info(),
        Some(StreamInfo {
            width: 640,
            height: 480,
            framerate: 60,
            format: PixelFormat::Rgbx8888
        })
    );
    assert_eq!(s.start().unwrap(), TargetMode::Window(5));
    assert!(s.is_running());
    assert_eq!(said(s.start().unwrap_err()), "capture backend error: capture already running");
    s.stop();
    assert!(!s.is_running());
    assert_eq!(said(s.start().unwrap_err()), "capture backend error: x11 source already consumed");
    let root = open(&setup, screen, TargetMode::Root, size, Some(32), false).unwrap();
    assert_eq!((root.name(), root.depth()), ("x11-getimage", 24));
    assert_eq!(root.stream_info().unwrap().format, PixelFormat::Bgrx8888);
    let other = open(&setup, screen, TargetMode::Window(5), size, None, false).unwrap();
    assert_eq!(other.name(), "x11-window-getimage");
    assert_eq!(other.stream_info().unwrap().format, PixelFormat::Bgrx8888);
    assert_eq!(open(&setup, screen, TargetMode::Root, size, None, true).unwrap().name(), "x11-xshm");
}

#[test]
fn a_window_grab_is_set_up() {
    let w = 8;
    let start = setup_window_grab(w);
    assert_eq!(start, GrabSetup::QueryComposite { window: w });
    assert_eq!(
        start.step(false, 0),
        GrabSetup::Ready {
            source: GrabSource::WindowDirect { window: w },
            degraded: Some(DirectReason::NoComposite)
        }
    );
    let name = start.step(true, 0);
    assert_eq!(
        name.step(true, 77),
        GrabSetup::Ready {
            source: GrabSource::Window { window: w, pixmap: 77, redirected_by_us: false },
            degraded: None
        }
    );
    let redirect = name.step(false, 0);
    assert_eq!(redirect, GrabSetup::Redirect { window: w });
    assert_eq!(
        redirect.step(false, 0),
        GrabSetup::Ready {
            source: GrabSource::WindowDirect { window: w },
            degraded: Some(DirectReason::RedirectFailed)
        }
    );
    let again = redirect.step(true, 0);
    assert_eq!(
        again.step(true, 78),
        GrabSetup::Ready {
            source: GrabSource::Window { window: w, pixmap: 78, redirected_by_us: true },
            degraded: None
        }
    );
    let undo = again.step(false, 0);
    assert_eq!(undo, GrabSetup::Unredirect { window: w });
    let ready = undo.step(true, 0);
    assert_eq!(
        ready,
        GrabSetup::Ready {
            source: GrabSource::WindowDirect { window: w },
            degraded: Some(DirectReason::NamingFailed)
        }
    );
    assert_eq!(ready.step(true, 5), ready);
}

#[test]
fn a_window_grab_is_released() {
    let ours = GrabSource::Window { window: 8, pixmap: 9, redirected_by_us: true };
    let theirs = GrabSource::Window { window: 8, pixmap: 9, redirected_by_us: false };
    assert_eq!(
        ours.teardown_window_grab(),
        Some(Teardown { free_pixmap: 9, unredirect: Some(8) })
    );
    assert_eq!(
        theirs.teardown_window_grab(),
        Some(Teardown { free_pixmap: 9, unredirect: None })
    );
    assert_eq!(GrabSource::Root { root: 1 }.teardown_window_grab(), None);
    assert_eq!(GrabSource::WindowDirect { window: 1 }.teardown_window_grab(), None);
}

#[test]
fn a_stale_pixmap_is_named_again() {
    let lost = || CaptureError::Backend("lost".to_string());
    let mut s = GrabSource::Window { window: 8, pixmap: 9, redirected_by_us: true };
    assert_eq!(s.drawable(), 9);
    assert!(matches!(s.on_grab(Ok(vec![1])), GrabStep::Deliver(p) if p == vec![1]));
    assert!(matches!(s.on_grab(Err(lost())), GrabStep::Rename { window: 8, stale: 9, .. }));
    assert!(matches!(s.on_rename(Some(10), lost()), RenameStep::Retry(10)));
    assert_eq!(s, GrabSource::Window { window: 8, pixmap: 10, redirected_by_us: true });
    match s.on_rename(None, lost()) {
        RenameStep::Stop(e) => assert_eq!(said(e), "capture backend error: lost"),
        RenameStep::Retry(_) => panic!("the window is gone"),
    }
    assert_eq!(on_retry(Ok(vec![2])), Some(vec![2]));
    assert_eq!(on_retry(Err(lost())), None);
    let root = GrabSource::Root { root: 3 };
    assert_eq!(root.drawable(), 3);
    assert!(matches!(root.on_grab(Err(lost())), GrabStep::Stop(_)));
    let direct = GrabSource::WindowDirect { window: 4 };
    assert_eq!(direct.drawable(), 4);
    assert!(matches!(direct.on_grab(Err(lost())), GrabStep::Stop(_)));
}

#[test]
fn a_turn_grabs_again_with_a_fresh_pixmap() {
    let lost = || CaptureError::Backend("lost".to_string());
    let window = GrabSource::Window { window: 8, pixmap: 9, redirected_by_us: true };

    let mut s = window;
    let turn = grab_turn(&mut s, |d| Ok(vec![d as u8]), |_, _| panic!("not stale"));
    assert!(matches!(turn, Grabbed::Pixels(p) if p == vec![9]));
    assert_eq!(s, window);

    let only_10 = |d| if d == 10 { Ok(vec![1]) } else { Err(lost()) };
    let turn = grab_turn(&mut s, only_10, |w, stale| {
        assert_eq!((w, stale), (8, 9));
        Some(10)
    });
    assert!(matches!(turn, Grabbed::Pixels(p) if p == vec![1]));
    assert_eq!(s, GrabSource::Window { window: 8, pixmap: 10, redirected_by_us: true });

    let turn = grab_turn(&mut s, |_| Err(lost()), |_, _| Some(11));
    assert!(matches!(turn, Grabbed::Skip));
    assert_eq!(s.drawable(), 11);

    let turn = grab_turn(&mut s, |_| Err(lost()), |_, _| None);
    assert!(matches!(turn, Grabbed::Stop(_)));
    let mut root = GrabSource::Root { root: 1 };
    let turn = grab_turn(&mut root, |_| Err(lost()), |_, _| panic!("not a window"));
    assert!(matches!(turn, Grabbed::Stop(e) if e.message() == "capture backend error: lost"));
}

#[test]
fn x11_frames_keep_their_size() {
    let info = StreamInfo {
        width: 2,
        height: 2,
        framerate: 60,
        format: PixelFormat::Bgrx8888,
    };
    assert_eq!(frame_bytes(info), 16);
    let exact = frame_of_grab(info, (0..16).collect(), 9);
    assert_eq!((exact.stride, exact.pts_ns, exact.data.len()), (8, 9, 16));
    assert_eq!(*exact.data, (0..16).collect::<Vec<u8>>());
    let short = frame_of_grab(info, vec![1, 2, 3], 0);
    assert_eq!(short.data.len(), 16);
    assert_eq!(&short.data[..5], &[1, 2, 3, 0, 0]);
    let long = frame_of_grab(info, (0..40).collect(), 0);
    assert_eq!(*long.data, (0..16).collect::<Vec<u8>>());
}

#[test]
fn x11_frames_count_time_from_the_start() {
    let info = StreamInfo {
        width: 1,
        height: 1,
        framerate: 60,
        format: PixelFormat::Bgrx8888,
    };
    let mut frames = FrameMaker::new(info, 700);
    let made: Vec<(u64, Vec<u8>)> = [(710, 4), (726, 9), (720, 0), (600, 2), (743, 4)]
        .iter()
        .map(|(now, n)| {
            let frame = frames.frame(vec![7; *n], *now);
            assert_eq!((frame.width, frame.height, frame.stride), (1, 1, 4));
            assert_eq!(frame.format, PixelFormat::Bgrx8888);
            (frame.pts_ns, frame.data.to_vec())
        })
        .collect();
    assert_eq!(
        made,
        vec![
            (10, vec![7, 7, 7, 7]),
            (26, vec![7, 7, 7, 7]),
            (26, vec![0, 0, 0, 0]),
            (26, vec![7, 7, 0, 0]),
            (43, vec![7, 7, 7, 7]),
        ]
    );
}

#[test]
fn the_rest_of_an_interval_is_slept_in_slices() {
    let mut p = Pacing::new(16_666_666, 4_000_000);
    let mut slept = Vec::new();
    while let Some(slice) = p.next(true) {
        slept.push(slice);
    }
    assert_eq!(slept, vec![5_000_000, 5_000_000, 2_666_666]);
    assert_eq!(Pacing::new(10, 20).next(true), None);
    let mut stopped = Pacing::new(10, 0);
    assert_eq!(stopped.next(false), None);
    assert_eq!(stopped.next(true), Some(10));
}

#[test]
fn shared_memory_is_given_back() {
    let undo = |unmap, remove| ShmUndo { unmap, remove };
    let check = |f, want, text: &str| {
        let (got, e) = shm_failed(f);
        assert_eq!(got, want);
        assert_eq!(said(e), format!("capture backend error: {text}"));
    };
    check(ShmFailure::Get, undo(false, false), "shmget failed");
    check(ShmFailure::At, undo(false, true), "shmat failed");
    check(ShmFailure::GenerateId("e".to_string()), undo(true, true), "generate_id: e");
    check(ShmFailure::Attach("e".to_string()), undo(true, true), "shm_attach: e");
    let mut m = ShmMapping::new();
    assert!(m.release());
    assert!(!m.release());
}
