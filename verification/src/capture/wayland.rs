//! Wayland capture: the portal grant, the restore token, and what is made of the
//! buffers of the PipeWire stream.

use super::{config_dir, config_folder, CaptureError};
use crate::media::{CaptureTarget, Frame, PixelFormat, StreamInfo};
use crate::path::{join, joined_path};
use crate::text::{joined, opt_str_text, opt_text, trim, trimmed};
use std::sync::Arc;
use vstd::prelude::*;
use vstd::string::*;

verus! {

// --- portal grant ------------------------------------------------------------------

/// What kind of source the portal is asked to share.
#[derive(Debug, Clone, Copy, PartialEq, Eq, Structural)]
pub enum PortalSource {
    Monitor,
    Window,
}

/// The kind of source for a capture target. The portal knows no active window, so both
/// window modes are a window share.
pub fn portal_source(target: CaptureTarget) -> (r: PortalSource)
    ensures
        r == (if target is Monitor {
            PortalSource::Monitor
        } else {
            PortalSource::Window
        }),
{
    if target.is_window() {
        PortalSource::Window
    } else {
        PortalSource::Monitor
    }
}

/// A failure of a portal call.
#[derive(Debug)]
pub enum PortalFailure {
    /// The user cancelled the dialog.
    Cancelled,
    /// The portal gave another negative response.
    Refused,
    /// Anything else, with what the error says.
    Other(String),
}

/// The capture error of a portal failure: any negative response is a denied
/// permission, everything else is a backend failure.
pub fn map_portal_err(err: PortalFailure) -> (r: CaptureError)
    ensures
        match err {
            PortalFailure::Cancelled => r is PermissionDenied,
            PortalFailure::Refused => r is PermissionDenied,
            PortalFailure::Other(text) => r matches CaptureError::Backend(s) && s@ == "portal: "@
                + text@,
        },
{
    match err {
        PortalFailure::Cancelled => CaptureError::PermissionDenied,
        PortalFailure::Refused => CaptureError::PermissionDenied,
        PortalFailure::Other(text) => CaptureError::Backend(joined("portal: ", text.as_str())),
    }
}

/// The PipeWire node to capture: that of the first granted stream.
pub fn granted_node(streams: &Vec<u32>) -> (r: Result<u32, CaptureError>)
    ensures
        match r {
            Ok(node) => streams@.len() > 0 && node == streams@[0],
            Err(e) => streams@.len() == 0 && (e matches CaptureError::Backend(s) && s@
                == "portal returned no streams"@),
        },
{
    if streams.len() > 0 {
        Ok(streams[0])
    } else {
        Err(CaptureError::Backend("portal returned no streams".to_owned()))
    }
}

// --- restore token -----------------------------------------------------------------

/// The name of the file that holds the restore token; monitor and window shares have a
/// token each.
pub open spec fn token_name(target: CaptureTarget) -> Seq<char> {
    if target is Monitor {
        "screencast.token"@
    } else {
        "screencast-window.token"@
    }
}

/// The file that holds the restore token for a target, from the values of
/// `$XDG_CONFIG_HOME` and `$HOME`.
pub fn token_path(xdg: Option<&str>, home: Option<&str>, target: CaptureTarget) -> (r: Option<
    String,
>)
    ensures
        opt_text(r) == match config_folder(opt_str_text(xdg), opt_str_text(home)) {
            Some(dir) => Some(joined_path(dir, token_name(target))),
            None => None,
        },
{
    let name = if target.is_window() {
        "screencast-window.token"
    } else {
        "screencast.token"
    };
    match config_dir(xdg, home) {
        Some(dir) => Some(join(dir.as_str(), name)),
        None => None,
    }
}

/// The restore token in the text of a token file: the text without the white space
/// around it, unless nothing is left.
pub fn restore_token(text: &str) -> (r: Option<String>)
    ensures
        opt_text(r) == (if trimmed(text@).len() == 0 {
            None
        } else {
            Some(trimmed(text@))
        }),
{
    let token = trim(text);
    if token.as_str().is_empty() {
        None
    } else {
        Some(token)
    }
}

// --- stream format -----------------------------------------------------------------

/// The raw video formats of PipeWire that are told apart.
#[derive(Debug, Clone, Copy, PartialEq, Eq, Structural)]
pub enum SpaFormat {
    Bgrx,
    Rgbx,
    Bgra,
    Rgba,
    Xrgb,
    /// Any other format.
    Other,
}

/// The pixel format of a negotiated video format.
pub open spec fn pixel_of(format: SpaFormat) -> PixelFormat {
    match format {
        SpaFormat::Bgrx => PixelFormat::Bgrx8888,
        SpaFormat::Rgbx => PixelFormat::Rgbx8888,
        SpaFormat::Bgra => PixelFormat::Bgra8888,
        SpaFormat::Rgba => PixelFormat::Rgba8888,
        SpaFormat::Xrgb => PixelFormat::Xrgb8888,
        SpaFormat::Other => PixelFormat::Bgrx8888,
    }
}

/// Maps a negotiated video format to a pixel format; `Bgrx8888` stands for anything
/// that is not recognised.
pub fn spa_format_to_pixel(format: SpaFormat) -> (r: PixelFormat)
    ensures
        r == pixel_of(format),
{
    match format {
        SpaFormat::Bgrx => PixelFormat::Bgrx8888,
        SpaFormat::Rgbx => PixelFormat::Rgbx8888,
        SpaFormat::Bgra => PixelFormat::Bgra8888,
        SpaFormat::Rgba => PixelFormat::Rgba8888,
        SpaFormat::Xrgb => PixelFormat::Xrgb8888,
        SpaFormat::Other => PixelFormat::Bgrx8888,
    }
}

/// The formats, sizes and frame rates that are offered to PipeWire.
#[derive(Debug)]
pub struct FormatOffer {
    /// The accepted formats, the preferred one first.
    pub formats: Vec<SpaFormat>,
    /// Preferred, smallest and largest picture, as width and height.
    pub default_size: (u32, u32),
    pub min_size: (u32, u32),
    pub max_size: (u32, u32),
    /// Preferred, lowest and highest frame rate, in frames per second.
    pub default_rate: u32,
    pub min_rate: u32,
    pub max_rate: u32,
}

/// The offer for negotiation: the 32-bit packed layouts, any picture up to 8192 by
/// 8192, any rate up to 240 frames per second.
pub fn format_offer() -> (r: FormatOffer)
    ensures
        r.formats@ == seq![
            SpaFormat::Bgrx,
            SpaFormat::Rgbx,
            SpaFormat::Bgra,
            SpaFormat::Rgba,
            SpaFormat::Xrgb,
        ],
        r.default_size == (1920u32, 1080u32),
        r.min_size == (1u32, 1u32),
        r.max_size == (8192u32, 8192u32),
        r.default_rate == 60,
        r.min_rate == 0,
        r.max_rate == 240,
{
    let formats = vec![
        SpaFormat::Bgrx,
        SpaFormat::Rgbx,
        SpaFormat::Bgra,
        SpaFormat::Rgba,
        SpaFormat::Xrgb,
    ];
    assert(formats@ =~= seq![
        SpaFormat::Bgrx,
        SpaFormat::Rgbx,
        SpaFormat::Bgra,
        SpaFormat::Rgba,
        SpaFormat::Xrgb,
    ]);
    FormatOffer {
        formats,
        default_size: (1920, 1080),
        min_size: (1, 1),
        max_size: (8192, 8192),
        default_rate: 60,
        min_rate: 0,
        max_rate: 240,
    }
}

/// A raw video format that PipeWire has settled on.
#[derive(Debug, Clone, Copy, PartialEq, Eq, Structural)]
pub struct RawFormat {
    pub width: u32,
    pub height: u32,
    /// The frame rate as a fraction.
    pub rate_num: u32,
    pub rate_denom: u32,
    pub format: SpaFormat,
}

/// A change of a stream parameter.
#[derive(Debug, Clone, Copy, PartialEq, Eq, Structural)]
pub struct ParamChange {
    /// The parameter is the format.
    pub is_format: bool,
    /// The parameter is of a raw video stream.
    pub is_raw_video: bool,
    /// The raw video format, where it could be read.
    pub raw: Option<RawFormat>,
}

/// The stream info of a raw format. The frame rate is a whole number; a fraction over
/// zero counts as 0.
pub open spec fn info_of(raw: RawFormat) -> StreamInfo {
    StreamInfo {
        width: raw.width,
        height: raw.height,
        framerate: if raw.rate_denom == 0 {
            0
        } else {
            raw.rate_num / raw.rate_denom
        },
        format: pixel_of(raw.format),
    }
}

/// The format that a change of a stream parameter settles, if it does.
pub open spec fn settled(change: ParamChange) -> Option<RawFormat> {
    if change.is_format && change.is_raw_video {
        change.raw
    } else {
        None
    }
}

// --- frames ------------------------------------------------------------------------

/// A buffer that PipeWire hands over.
pub struct StreamBuffer<'a> {
    /// Bytes per row, as the producer reports it; 0 where it does not.
    pub chunk_stride: i32,
    /// The mapped pixels; nothing for a buffer that is not mapped, or without data.
    pub mapped: Option<&'a [u8]>,
}

/// An `i32` taken as a `u32`, bit for bit.
pub open spec fn bits_of(x: i32) -> u32 {
    if x < 0 {
        (x + 0x1_0000_0000) as u32
    } else {
        x as u32
    }
}

/// The bytes per row of a frame: as reported, or a tight packing.
pub open spec fn row_bytes(chunk_stride: i32, width: u32) -> int {
    if chunk_stride == 0 {
        width * 4
    } else {
        bits_of(chunk_stride) as int
    }
}

/// The pixels of a frame: all of its rows, or what is mapped of them.
pub open spec fn frame_pixels(mapped: Seq<u8>, stride: int, height: int) -> Seq<u8> {
    if stride * height <= mapped.len() {
        mapped.take(stride * height)
    } else {
        mapped
    }
}

fn copy_bytes(bytes: &[u8], count: usize) -> (r: Vec<u8>)
    requires
        count <= bytes@.len(),
    ensures
        r@ == bytes@.take(count as int),
{
    let mut r: Vec<u8> = Vec::with_capacity(count);
    for i in 0..count
        invariant
            count <= bytes@.len(),
            r@ == bytes@.take(i as int),
    {
        r.push(bytes[i]);
        assert(r@ =~= bytes@.take(i + 1));
    }
    r
}

/// Makes a frame of a buffer, once the format is known and where its pixels are mapped.
pub fn frame_of_buffer(format: Option<RawFormat>, buffer: &StreamBuffer, pts_ns: u64) -> (r: Option<
    Frame,
>)
    requires
        format is Some && buffer.chunk_stride == 0 ==> format->0.width * 4 <= u32::MAX,
    ensures
        r is Some <==> format is Some && buffer.mapped is Some,
        r matches Some(frame) ==> {
            let raw = format->0;
            &&& frame.width == raw.width
            &&& frame.height == raw.height
            &&& frame.stride == row_bytes(buffer.chunk_stride, raw.width)
            &&& frame.format == pixel_of(raw.format)
            &&& frame.pts_ns == pts_ns
            &&& frame.data@ == frame_pixels(
                buffer.mapped->0@,
                frame.stride as int,
                raw.height as int,
            )
        },
{
    let raw = match format {
        Some(raw) => raw,
        None => return None,
    };
    let bytes = match buffer.mapped {
        Some(bytes) => bytes,
        None => return None,
    };
    let reported: i32 = buffer.chunk_stride;
    assert(reported < 0 ==> (reported as u32) == reported + 0x1_0000_0000) by (bit_vector);
    let mut stride: u32 = #[verifier::truncate]
    (reported as u32);
    assert(reported != 0 ==> stride != 0) by (bit_vector)
        requires
            stride == reported as u32,
    ;
    if stride == 0 {
        stride = raw.width * 4;
    }
    assert(stride * raw.height <= u32::MAX * u32::MAX) by (nonlinear_arith)
        requires
            0 <= stride <= u32::MAX,
            0 <= raw.height <= u32::MAX,
    ;
    let expected: u64 = stride as u64 * raw.height as u64;
    let count: usize = if expected <= bytes.len() as u64 {
        expected as usize
    } else {
        bytes.len()
    };
    let pixels = copy_bytes(bytes, count);
    assert(bytes@.take(bytes@.len() as int) =~= bytes@);
    Some(
        Frame {
            width: raw.width,
            height: raw.height,
            stride,
            format: spa_format_to_pixel(raw.format),
            pts_ns,
            data: Arc::new(pixels),
        },
    )
}

/// Nanoseconds of a clock reading in seconds and nanoseconds, in wrapping arithmetic.
pub fn timespec_ns(secs: u64, nanos: u64) -> (r: u64)
    ensures
        r == (secs * 1_000_000_000 + nanos) % 0x1_0000_0000_0000_0000,
        secs * 1_000_000_000 + nanos <= u64::MAX ==> r == secs * 1_000_000_000 + nanos,
{
    let wide: u128 = secs as u128 * 1_000_000_000 + nanos as u128;
    (wide % 0x1_0000_0000_0000_0000) as u64
}

// --- source ------------------------------------------------------------------------

/// The state of a Wayland source: a grant that can be used once, and what was
/// negotiated.
#[derive(Debug)]
pub struct WaylandSource {
    grant: Option<u32>,
    format: Option<RawFormat>,
    running: bool,
}

/// What a Wayland source holds.
#[verifier::ext_equal]
pub struct SourceState {
    /// The granted PipeWire node, until it is used.
    pub grant: Option<u32>,
    /// The format that PipeWire has settled on.
    pub format: Option<RawFormat>,
    pub running: bool,
}

impl View for WaylandSource {
    type V = SourceState;

    closed spec fn view(&self) -> SourceState {
        SourceState { grant: self.grant, format: self.format, running: self.running }
    }
}

impl WaylandSource {
    /// A source for a granted PipeWire node.
    pub fn new(node: u32) -> (r: WaylandSource)
        ensures
            r@ == (SourceState { grant: Some(node), format: None, running: false }),
    {
        WaylandSource { grant: Some(node), format: None, running: false }
    }

    pub fn name(&self) -> (r: &'static str)
        ensures
            r@ == "wayland-pipewire"@,
    {
        "wayland-pipewire"
    }

    /// The settled raw format.
    pub fn format(&self) -> (r: Option<RawFormat>)
        ensures
            r == self@.format,
    {
        self.format
    }

    pub fn stream_info(&self) -> (r: Option<StreamInfo>)
        ensures
            r == match self@.format {
                Some(raw) => Some(info_of(raw)),
                None => None,
            },
    {
        match self.format {
            Some(raw) => Some(
                StreamInfo {
                    width: raw.width,
                    height: raw.height,
                    framerate: if raw.rate_denom == 0 {
                        0
                    } else {
                        raw.rate_num / raw.rate_denom
                    },
                    format: spa_format_to_pixel(raw.format),
                },
            ),
            None => None,
        }
    }

    /// Takes a change of a stream parameter; a settled raw video format is kept, and
    /// anything else changes nothing.
    pub fn param_changed(&mut self, change: ParamChange)
        ensures
            final(self)@ == (SourceState {
                format: if settled(change) is Some {
                    settled(change)
                } else {
                    old(self)@.format
                },
                ..old(self)@
            }),
    {
        if !change.is_format || !change.is_raw_video {
            return;
        }
        if change.raw.is_some() {
            self.format = change.raw;
        }
    }

    /// Begins capturing with the granted node, which can be done once.
    pub fn start(&mut self) -> (r: Result<u32, CaptureError>)
        ensures
            match r {
                Ok(node) => old(self)@.grant == Some(node) && final(self)@ == (SourceState {
                    grant: None,
                    running: true,
                    ..old(self)@
                }),
                Err(e) => old(self)@.grant is None && final(self)@ == old(self)@ && (
                e matches CaptureError::Backend(s) && s@ == "capture already started"@),
            },
    {
        match self.grant {
            Some(node) => {
                self.grant = None;
                self.running = true;
                Ok(node)
            },
            None => Err(CaptureError::Backend("capture already started".to_owned())),
        }
    }

    pub fn stop(&mut self)
        ensures
            final(self)@ == (SourceState { running: false, ..old(self)@ }),
    {
        self.running = false;
    }

    pub fn is_running(&self) -> (r: bool)
        ensures
            r == self@.running,
    {
        self.running
    }
}

// --- laws --------------------------------------------------------------------------

/// A monitor share and a window share never use each other's restore token.
pub proof fn law_shares_have_their_own_token(a: CaptureTarget, b: CaptureTarget)
    ensures
        token_name(a) == token_name(b) <==> (a is Monitor <==> b is Monitor),
{
    reveal_strlit("screencast.token");
    reveal_strlit("screencast-window.token");
    assert("screencast.token"@.len() != "screencast-window.token"@.len());
}

/// Every offered layout is told apart from the others by its pixel format.
pub proof fn law_offered_formats_distinct(a: SpaFormat, b: SpaFormat)
    requires
        !(a is Other),
        !(b is Other),
    ensures
        pixel_of(a) == pixel_of(b) ==> a == b,
{
}

/// A frame never holds more than its rows nor more than is mapped, and holds all of its
/// rows where they are mapped.
pub proof fn law_no_frame_is_larger_than_its_rows(mapped: Seq<u8>, stride: int, height: int)
    requires
        0 <= stride,
        0 <= height,
    ensures
        frame_pixels(mapped, stride, height).len() <= stride * height,
        frame_pixels(mapped, stride, height).len() <= mapped.len(),
        stride * height <= mapped.len() ==> frame_pixels(mapped, stride, height).len() == stride
            * height,
{
    assert(0 <= stride * height) by (nonlinear_arith)
        requires
            0 <= stride,
            0 <= height,
    ;
}

/// A later reading of the clock does not give an earlier time, while the time fits in
/// 64 bits.
pub proof fn law_clock_readings_are_ordered(s1: u64, n1: u64, s2: u64, n2: u64)
    requires
        n1 < 1_000_000_000,
        n2 < 1_000_000_000,
        s1 < s2 || (s1 == s2 && n1 <= n2),
        s2 * 1_000_000_000 + n2 <= u64::MAX,
    ensures
        (s1 * 1_000_000_000 + n1) % 0x1_0000_0000_0000_0000 <= (s2 * 1_000_000_000 + n2)
            % 0x1_0000_0000_0000_0000,
{
}

/// A frame is made exactly where the format is known and the buffer is mapped. It has the
/// size and the time that it is told, and its bytes are the first bytes of what is mapped:
/// all of its rows, or all that is there. A reported length of a row is taken as it is;
/// where none is reported, a row has four bytes for each pixel.
pub proof fn law_frame_is_a_prefix_of_its_buffer(
    format: Option<RawFormat>,
    buffer: StreamBuffer,
    pts_ns: u64,
    r: Option<Frame>,
)
    requires
        call_ensures(frame_of_buffer, (format, &buffer, pts_ns), r),
    ensures
        r is Some <==> format is Some && buffer.mapped is Some,
        r matches Some(frame) ==> {
            let mapped = buffer.mapped->0@;
            let rows = frame.stride * format->0.height;
            &&& frame.width == format->0.width
            &&& frame.height == format->0.height
            &&& frame.pts_ns == pts_ns
            &&& buffer.chunk_stride > 0 ==> frame.stride == buffer.chunk_stride
            &&& buffer.chunk_stride == 0 ==> frame.stride == 4 * format->0.width
            &&& buffer.chunk_stride < 0 ==> frame.stride == buffer.chunk_stride + 0x1_0000_0000
            &&& format->0.format is Rgbx ==> frame.format is Rgbx8888
            &&& format->0.format is Bgra ==> frame.format is Bgra8888
            &&& format->0.format is Rgba ==> frame.format is Rgba8888
            &&& format->0.format is Xrgb ==> frame.format is Xrgb8888
            &&& format->0.format is Bgrx || format->0.format is Other ==> frame.format is Bgrx8888
            &&& frame.data@.len() <= mapped.len()
            &&& rows <= mapped.len() ==> frame.data@.len() == rows
            &&& rows > mapped.len() ==> frame.data@.len() == mapped.len()
            &&& forall|i: int| 0 <= i < frame.data@.len() ==> #[trigger] frame.data@[i] == mapped[i]
        },
{
    if r is Some {
        let frame = r->0;
        let h = format->0.height;
        assert(0 <= frame.stride * h) by (nonlinear_arith)
            requires
                0 <= frame.stride,
                0 <= h,
        ;
    }
}

/// Two readings of a clock are as far apart in nanoseconds as they were taken, while the
/// time fits in 64 bits.
pub proof fn law_clock_readings_in_nanoseconds(secs: u64, nanos: u64, r: u64)
    requires
        call_ensures(timespec_ns, (secs, nanos), r),
        secs * 1_000_000_000 + nanos <= u64::MAX,
    ensures
        r == secs * 1_000_000_000 + nanos,
{
}

/// The first granted stream is captured, and without one there is nothing to capture.
pub proof fn law_first_stream_is_captured(streams: Vec<u32>, r: Result<u32, CaptureError>)
    requires
        call_ensures(granted_node, (&streams,), r),
    ensures
        streams@.len() > 0 ==> (r matches Ok(node) && node == streams@[0]),
        streams@.len() == 0 ==> (r matches Err(CaptureError::Backend(s)) && s@
            == "portal returned no streams"@),
{
}

/// A refusal is a denied permission, and any other failure says why.
pub proof fn law_portal_failures(err: PortalFailure, r: CaptureError)
    requires
        call_ensures(map_portal_err, (err,), r),
    ensures
        r is PermissionDenied <==> err is Cancelled || err is Refused,
        err matches PortalFailure::Other(text) ==> (r matches CaptureError::Backend(s) && s@
            == "portal: "@ + text@),
{
}

/// The restore token of a target lies in the folder of this program, that of the monitor
/// and that of a window apart.
pub proof fn law_token_file(
    xdg: Option<&str>,
    home: Option<&str>,
    target: CaptureTarget,
    dir: Option<String>,
    r: Option<String>,
)
    requires
        call_ensures(config_dir, (xdg, home), dir),
        call_ensures(token_path, (xdg, home, target), r),
    ensures
        r is Some <==> dir is Some,
        dir is Some && target is Monitor ==> r->0@ == joined_path(dir->0@, "screencast.token"@),
        dir is Some && !(target is Monitor) ==> r->0@ == joined_path(
            dir->0@,
            "screencast-window.token"@,
        ),
{
}

/// The restore token is the text of its file without the white space around it; a file
/// with nothing else holds none.
pub proof fn law_restore_token(text: &str, bare: String, r: Option<String>)
    requires
        call_ensures(trim, (text,), bare),
        call_ensures(restore_token, (text,), r),
    ensures
        bare@.len() == 0 ==> r is None,
        bare@.len() > 0 ==> (r matches Some(token) && token@ == bare@),
{
}

/// A stream has the size that was settled and whole frames per second.
pub proof fn law_stream_info_of_a_source(
    source: WaylandSource,
    format: Option<RawFormat>,
    info: Option<StreamInfo>,
)
    requires
        call_ensures(WaylandSource::format, (&source,), format),
        call_ensures(WaylandSource::stream_info, (&source,), info),
    ensures
        format is Some <==> info is Some,
        format matches Some(raw) ==> {
            &&& info->0.width == raw.width
            &&& info->0.height == raw.height
            &&& raw.rate_denom > 0 ==> info->0.framerate == raw.rate_num / raw.rate_denom
            &&& raw.rate_denom == 0 ==> info->0.framerate == 0
            &&& raw.format is Rgbx ==> info->0.format is Rgbx8888
            &&& raw.format is Bgra ==> info->0.format is Bgra8888
            &&& raw.format is Rgba ==> info->0.format is Rgba8888
            &&& raw.format is Xrgb ==> info->0.format is Xrgb8888
            &&& raw.format is Bgrx || raw.format is Other ==> info->0.format is Bgrx8888
        },
{
}

/// Only a raw video format that could be read settles the stream, and it is kept as it
/// came.
pub proof fn law_only_a_format_settles(source: &mut WaylandSource, change: ParamChange)
    requires
        call_ensures(WaylandSource::param_changed, (source, change), ()),
    ensures
        change.is_format && change.is_raw_video && change.raw is Some ==> final(source)@.format
            == change.raw,
        !(change.is_format && change.is_raw_video && change.raw is Some) ==> final(source)@.format
            == old(source)@.format,
        final(source)@.grant == old(source)@.grant,
        final(source)@.running == old(source)@.running,
{
}

/// A granted node is captured once: a source hands out its node at the first start, and
/// refuses every other.
pub proof fn law_grant_is_used_once(
    node: u32,
    fresh: WaylandSource,
    source: &mut WaylandSource,
    r: Result<u32, CaptureError>,
)
    requires
        call_ensures(WaylandSource::new, (node,), fresh),
        call_ensures(WaylandSource::start, (source,), r),
    ensures
        fresh@.grant == Some(node),
        fresh@.format is None,
        !fresh@.running,
        old(source)@.grant is Some ==> (r matches Ok(n) && Some(n) == old(source)@.grant)
            && final(source)@.grant is None && final(source)@.running,
        old(source)@.grant is None ==> (r matches Err(CaptureError::Backend(s)) && s@
            == "capture already started"@) && final(source)@ == old(source)@,
        final(source)@.format == old(source)@.format,
{
}

/// A clock reading counts modulo 64 bits, whatever it is.
pub proof fn law_clock_readings_wrap(secs: u64, nanos: u64, r: u64)
    requires
        call_ensures(timespec_ns, (secs, nanos), r),
    ensures
        r == (secs * 1_000_000_000 + nanos) % 0x1_0000_0000_0000_0000,
{
}

/// What is shared and offered: a window for both window targets, and all layouts of 32 bits
/// that are told apart. A source can be stopped, and has its name.
pub proof fn law_shares_and_offers(
    target: CaptureTarget,
    kind: PortalSource,
    format: SpaFormat,
    pixels: PixelFormat,
    offer: FormatOffer,
    source: &mut WaylandSource,
    other: WaylandSource,
    running: bool,
    name: &'static str,
)
    requires
        call_ensures(portal_source, (target,), kind),
        call_ensures(spa_format_to_pixel, (format,), pixels),
        call_ensures(format_offer, (), offer),
        call_ensures(WaylandSource::stop, (source,), ()),
        call_ensures(WaylandSource::is_running, (&other,), running),
        call_ensures(WaylandSource::name, (&other,), name),
    ensures
        kind is Monitor <==> target is Monitor,
        format is Rgbx <==> pixels is Rgbx8888,
        format is Bgra <==> pixels is Bgra8888,
        format is Rgba <==> pixels is Rgba8888,
        format is Xrgb <==> pixels is Xrgb8888,
        format is Bgrx || format is Other <==> pixels is Bgrx8888,
        offer.formats@ == seq![
            SpaFormat::Bgrx,
            SpaFormat::Rgbx,
            SpaFormat::Bgra,
            SpaFormat::Rgba,
            SpaFormat::Xrgb,
        ],
        offer.default_size == (1920u32, 1080u32) && offer.default_rate == 60,
        offer.min_size == (1u32, 1u32) && offer.min_rate == 0,
        offer.max_size == (8192u32, 8192u32) && offer.max_rate == 240,
        !final(source)@.running,
        final(source)@.grant == old(source)@.grant,
        final(source)@.format == old(source)@.format,
        running == other@.running,
        name@ == "wayland-pipewire"@,
{
}

} // verus!
