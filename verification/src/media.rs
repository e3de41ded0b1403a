//! Media types shared by capture, encoding and buffering.

use std::sync::Arc;
use vstd::prelude::*;

verus! {

/// Pixel format of a captured frame. All variants are 32-bit packed RGB.
#[derive(Debug, Clone, Copy, PartialEq, Eq, Structural)]
pub enum PixelFormat {
    Bgrx8888,
    Rgbx8888,
    Bgra8888,
    Rgba8888,
    Xrgb8888,
}

/// The GStreamer `video/x-raw` format name of a pixel layout.
pub open spec fn gst_format_name(format: PixelFormat) -> Seq<char> {
    match format {
        PixelFormat::Bgrx8888 => "BGRx"@,
        PixelFormat::Rgbx8888 => "RGBx"@,
        PixelFormat::Bgra8888 => "BGRA"@,
        PixelFormat::Rgba8888 => "RGBA"@,
        PixelFormat::Xrgb8888 => "xRGB"@,
    }
}

impl PixelFormat {
    pub fn bytes_per_pixel(self) -> (r: usize)
        ensures
            r == 4,
    {
        4
    }

    /// The GStreamer `video/x-raw` format string for this pixel layout.
    pub fn gst_format(self) -> (r: &'static str)
        ensures
            r@ == gst_format_name(self),
    {
        match self {
            PixelFormat::Bgrx8888 => "BGRx",
            PixelFormat::Rgbx8888 => "RGBx",
            PixelFormat::Bgra8888 => "BGRA",
            PixelFormat::Rgba8888 => "RGBA",
            PixelFormat::Xrgb8888 => "xRGB",
        }
    }
}

/// Different pixel layouts have different GStreamer names.
pub proof fn law_gst_formats_distinct(a: PixelFormat, b: PixelFormat)
    ensures
        gst_format_name(a) == gst_format_name(b) ==> a == b,
{
    reveal_strlit("BGRx");
    reveal_strlit("RGBx");
    reveal_strlit("BGRA");
    reveal_strlit("RGBA");
    reveal_strlit("xRGB");
    let x = gst_format_name(a);
    let y = gst_format_name(b);
    if x == y {
        assert(x[0] == y[0] && x[1] == y[1] && x[2] == y[2] && x[3] == y[3]);
    }
}

/// What the capture backend should grab.
///
/// - On X11 a window is re-found by its `WM_CLASS` and title; the active window is
///   the one in `_NET_ACTIVE_WINDOW`.
/// - On Wayland both window modes are a window share of the desktop portal, which
///   knows no active window.
#[derive(Debug, Clone, Copy, PartialEq, Eq, Structural)]
pub enum CaptureTarget {
    /// The whole monitor or X11 root window.
    Monitor,
    /// A specific window, re-found across launches.
    Window,
    /// Whichever window is active when capture starts.
    ActiveWindow,
}

impl CaptureTarget {
    /// Whether this target captures a single window rather than the whole monitor.
    pub fn is_window(self) -> (r: bool)
        ensures
            r == (self is Window || self is ActiveWindow),
    {
        matches!(self, CaptureTarget::Window | CaptureTarget::ActiveWindow)
    }
}

/// Negotiated properties of an active capture stream.
#[derive(Debug, Clone, Copy, PartialEq, Eq, Structural)]
pub struct StreamInfo {
    pub width: u32,
    pub height: u32,
    pub framerate: u32,
    pub format: PixelFormat,
}

/// A single captured frame with CPU-accessible pixels.
pub struct Frame {
    pub width: u32,
    pub height: u32,
    /// Bytes per row, which may exceed the width in bytes because of padding.
    pub stride: u32,
    pub format: PixelFormat,
    /// Presentation timestamp in nanoseconds on a monotonic clock.
    pub pts_ns: u64,
    pub data: Arc<Vec<u8>>,
}

impl Clone for Frame {
    /// The same frame; the pixels are shared.
    fn clone(&self) -> (r: Frame)
        ensures
            r == *self,
    {
        Frame {
            width: self.width,
            height: self.height,
            stride: self.stride,
            format: self.format,
            pts_ns: self.pts_ns,
            data: self.data.clone(),
        }
    }
}

/// Which track an encoded packet belongs to.
#[derive(Debug, Clone, Copy, PartialEq, Eq, Structural)]
pub enum Track {
    Video,
    Audio,
}

/// An encoded, muxable chunk of media: an H.264 access unit or an audio frame.
pub struct EncodedPacket {
    pub data: Vec<u8>,
    pub pts_ns: u64,
    pub dts_ns: Option<u64>,
    pub is_keyframe: bool,
    pub track: Track,
}

/// The contents of an encoded packet.
#[verifier::ext_equal]
pub struct PacketView {
    pub data: Seq<u8>,
    pub pts_ns: u64,
    pub dts_ns: Option<u64>,
    pub is_keyframe: bool,
    pub track: Track,
}

impl View for EncodedPacket {
    type V = PacketView;

    open spec fn view(&self) -> PacketView {
        PacketView {
            data: self.data@,
            pts_ns: self.pts_ns,
            dts_ns: self.dts_ns,
            is_keyframe: self.is_keyframe,
            track: self.track,
        }
    }
}

impl Clone for EncodedPacket {
    fn clone(&self) -> (r: EncodedPacket)
        ensures
            r@ == self@,
    {
        let data = self.data.clone();
        assert(data@ =~= self.data@);
        EncodedPacket {
            data,
            pts_ns: self.pts_ns,
            dts_ns: self.dts_ns,
            is_keyframe: self.is_keyframe,
            track: self.track,
        }
    }
}

/// The contents of a sequence of packets.
pub open spec fn packet_views(packets: Seq<EncodedPacket>) -> Seq<PacketView> {
    packets.map_values(|p: EncodedPacket| p@)
}

/// Audio codec for the muxed track.
#[derive(Debug, Clone, Copy, PartialEq, Eq, Structural)]
pub enum AudioCodec {
    Aac,
    Opus,
}

impl AudioCodec {
    pub fn label(self) -> (r: &'static str)
        ensures
            r@ == match self {
                AudioCodec::Aac => "AAC"@,
                AudioCodec::Opus => "Opus"@,
            },
    {
        match self {
            AudioCodec::Aac => "AAC",
            AudioCodec::Opus => "Opus",
        }
    }
}

/// Where audio is captured from.
#[derive(Debug, Clone, Copy, PartialEq, Eq, Structural)]
pub enum AudioSource {
    /// System or game audio: the monitor of the default output sink.
    SystemMonitor,
    /// The default microphone or input source.
    Microphone,
}

/// Negotiated audio-stream properties, for muxing.
#[derive(Debug, Clone, Copy, PartialEq, Eq, Structural)]
pub struct AudioInfo {
    pub sample_rate: u32,
    pub channels: u32,
    pub codec: AudioCodec,
}

/// Video codec used for the buffered stream.
#[derive(Debug, Clone, Copy, PartialEq, Eq, Structural)]
pub enum Codec {
    H264,
    Hevc,
}

/// Output container format.
#[derive(Debug, Clone, Copy, PartialEq, Eq, Structural)]
pub enum Container {
    Mp4,
    Mkv,
}

/// The file extension of a container.
pub open spec fn container_extension(container: Container) -> Seq<char> {
    match container {
        Container::Mp4 => "mp4"@,
        Container::Mkv => "mkv"@,
    }
}

impl Container {
    pub fn extension(self) -> (r: &'static str)
        ensures
            r@ == container_extension(self),
    {
        match self {
            Container::Mp4 => "mp4",
            Container::Mkv => "mkv",
        }
    }
}

/// Encoder configuration derived from user settings.
#[derive(Debug, Clone, Copy, PartialEq, Eq, Structural)]
pub struct EncodeSettings {
    pub codec: Codec,
    pub bitrate_kbps: u32,
    pub container: Container,
    /// Maximum interval between keyframes, in frames. A smaller one aligns the
    /// start of a clip more tightly, at a small bitrate cost.
    pub keyframe_interval: u32,
    /// Capture and mux an audio track alongside the video.
    pub capture_audio: bool,
    /// Where audio comes from.
    pub audio_source: AudioSource,
    pub audio_codec: AudioCodec,
    pub audio_bitrate_kbps: u32,
    /// After saving, transcode the clip to a shareable H.264/AAC MP4.
    pub auto_convert: bool,
}

impl Default for EncodeSettings {
    fn default() -> (r: EncodeSettings)
        ensures
            r == (EncodeSettings {
                codec: Codec::H264,
                bitrate_kbps: 40_000,
                container: Container::Mp4,
                keyframe_interval: 60,
                capture_audio: true,
                audio_source: AudioSource::SystemMonitor,
                audio_codec: AudioCodec::Aac,
                audio_bitrate_kbps: 160,
                auto_convert: true,
            }),
    {
        EncodeSettings {
            codec: Codec::H264,
            bitrate_kbps: 40_000,
            container: Container::Mp4,
            keyframe_interval: 60,
            capture_audio: true,
            audio_source: AudioSource::SystemMonitor,
            audio_codec: AudioCodec::Aac,
            audio_bitrate_kbps: 160,
            auto_convert: true,
        }
    }
}

/// The contents of a packet are its bytes, its times, its kind and its track.
pub proof fn law_packet_contents(p: EncodedPacket)
    ensures
        p@.data == p.data@,
        p@.pts_ns == p.pts_ns,
        p@.dts_ns == p.dts_ns,
        p@.is_keyframe == p.is_keyframe,
        p@.track == p.track,
{
}

/// The contents of packets are those of each, in order.
pub proof fn law_packets_contents(packets: Seq<EncodedPacket>)
    ensures
        packet_views(packets).len() == packets.len(),
        forall|i: int|
            0 <= i < packets.len() ==> (#[trigger] packet_views(packets)[i]).data
                == packets[i].data@ && packet_views(packets)[i].pts_ns == packets[i].pts_ns
                && packet_views(packets)[i].dts_ns == packets[i].dts_ns && packet_views(
                packets,
            )[i].is_keyframe == packets[i].is_keyframe && packet_views(packets)[i].track
                == packets[i].track,
{
}

/// A copy of a packet has the same bytes, times, kind and track.
pub proof fn law_packet_copies_are_equal(p: EncodedPacket, r: EncodedPacket)
    requires
        call_ensures(EncodedPacket::clone, (&p,), r),
    ensures
        r.data@ == p.data@,
        r.pts_ns == p.pts_ns,
        r.dts_ns == p.dts_ns,
        r.is_keyframe == p.is_keyframe,
        r.track == p.track,
{
}

/// A copy of a frame has the same pixels, layout and time.
pub proof fn law_frame_copies_are_equal(f: Frame, r: Frame)
    requires
        call_ensures(Frame::clone, (&f,), r),
    ensures
        r.data@ == f.data@,
        r.width == f.width,
        r.height == f.height,
        r.stride == f.stride,
        r.format == f.format,
        r.pts_ns == f.pts_ns,
{
}

/// The name of a pixel layout spells its bytes in order; the letter `x` stands for a byte
/// without meaning.
pub proof fn law_format_names_spell_the_bytes(format: PixelFormat, r: &'static str)
    requires
        call_ensures(PixelFormat::gst_format, (format,), r),
    ensures
        r@.len() == 4,
        r@[1] == 'G' || r@[2] == 'G',
        (r@[0] == 'B' && r@[2] == 'R') <==> format is Bgrx8888 || format is Bgra8888,
        (r@[0] == 'R' && r@[2] == 'B') <==> format is Rgbx8888 || format is Rgba8888,
        (r@[0] == 'x' && r@[1] == 'R' && r@[3] == 'B') <==> format is Xrgb8888,
        r@[3] == 'A' <==> format is Bgra8888 || format is Rgba8888,
        r@[3] == 'x' <==> format is Bgrx8888 || format is Rgbx8888,
{
    reveal_strlit("BGRx");
    reveal_strlit("RGBx");
    reveal_strlit("BGRA");
    reveal_strlit("RGBA");
    reveal_strlit("xRGB");
}

/// A pixel of any layout has four bytes; a target is a window exactly where it is not the
/// monitor; and a container has its usual extension.
pub proof fn law_media_constants(
    format: PixelFormat,
    bytes: usize,
    target: CaptureTarget,
    window: bool,
    container: Container,
    extension: &'static str,
)
    requires
        call_ensures(PixelFormat::bytes_per_pixel, (format,), bytes),
        call_ensures(CaptureTarget::is_window, (target,), window),
        call_ensures(Container::extension, (container,), extension),
    ensures
        bytes == 4,
        window <==> !(target is Monitor),
        container is Mp4 ==> extension@ == "mp4"@,
        container is Mkv ==> extension@ == "mkv"@,
{
}

/// The encoder settings by default, and what an audio codec is called.
pub proof fn law_default_settings(r: EncodeSettings, codec: AudioCodec, label: &'static str)
    requires
        call_ensures(EncodeSettings::default, (), r),
        call_ensures(AudioCodec::label, (codec,), label),
    ensures
        r.codec is H264 && r.bitrate_kbps == 40_000 && r.container is Mp4,
        r.keyframe_interval == 60,
        r.capture_audio && r.audio_source is SystemMonitor,
        r.audio_codec is Aac && r.audio_bitrate_kbps == 160,
        r.auto_convert,
        codec is Aac ==> label@ == "AAC"@,
        codec is Opus ==> label@ == "Opus"@,
{
}

} // verus!
