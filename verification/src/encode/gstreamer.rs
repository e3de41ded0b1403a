//! What the GStreamer pipelines are made of: the choice of an encoder, the properties
//! it gets, the packets that are made of its samples, and the tracks of a muxed clip.
//!
//! - Encoding: `appsrc ! videoconvert ! <encoder> ! <parser> ! appsink`, and
//!   `pulsesrc ! audioconvert ! audioresample ! <encoder> ! <parser> ! appsink` for audio.
//! - Muxing: `appsrc ! <parser> ! <muxer> ! filesink`, with one source for each track.

use super::EncodeError;
use crate::media::{
    gst_format_name, packet_views, AudioCodec, AudioInfo, AudioSource, Codec, Container,
    EncodeSettings, EncodedPacket, Frame, PacketView, StreamInfo, Track,
};
use crate::text::{begins_with, joined, joined3, same, starts_with};
use std::collections::VecDeque;
use vstd::prelude::*;
use vstd::string::*;

verus! {

/// A backend error that says in which context another error came.
pub fn backend(ctx: &str, e: &str) -> (r: EncodeError)
    ensures
        r matches EncodeError::Backend(s) && s@ == ctx@ + ": "@ + e@,
{
    EncodeError::Backend(joined3(ctx, ": ", e))
}

/// The error of an initialisation that has failed.
fn init_error(e: &str) -> (r: EncodeError)
    ensures
        r matches EncodeError::Backend(s) && s@ == "gst::init failed: "@ + e@,
{
    EncodeError::Backend(joined("gst::init failed: ", e))
}

/// A fresh encoder, once GStreamer is initialised.
pub fn encoder(init: Result<(), String>) -> (r: Result<GstEncoder, EncodeError>)
    ensures
        match init {
            Ok(_) => r matches Ok(enc) && enc@ == fresh_encoder(),
            Err(e) => r matches Err(EncodeError::Backend(s)) && s@ == "gst::init failed: "@ + e@,
        },
{
    match init {
        Ok(_) => Ok(GstEncoder::new()),
        Err(e) => Err(init_error(e.as_str())),
    }
}

/// The muxer, once GStreamer is initialised.
pub fn muxer(init: Result<(), String>) -> (r: Result<GstMuxer, EncodeError>)
    ensures
        match init {
            Ok(_) => r is Ok,
            Err(e) => r matches Err(EncodeError::Backend(s)) && s@ == "gst::init failed: "@ + e@,
        },
{
    match init {
        Ok(_) => Ok(GstMuxer {  }),
        Err(e) => Err(init_error(e.as_str())),
    }
}

// --- choice of an encoder ----------------------------------------------------------

/// A chosen encoder element and what follows it.
#[derive(Debug, Clone, Copy)]
pub struct EncoderChoice {
    /// The encoder element, such as `x264enc`.
    pub enc: &'static str,
    /// The parser element.
    pub parse: &'static str,
    /// The media type of the encoded stream.
    pub media_type: &'static str,
    /// Whether the encoder is the software fallback.
    pub is_software: bool,
}

/// The encoder elements for a codec in order of preference: VA-API, NVENC, software.
pub open spec fn candidate(codec: Codec, i: int) -> &'static str {
    match codec {
        Codec::H264 => if i == 0 {
            "vaapih264enc"
        } else if i == 1 {
            "nvh264enc"
        } else {
            "x264enc"
        },
        Codec::Hevc => if i == 0 {
            "vaapih265enc"
        } else if i == 1 {
            "nvh265enc"
        } else {
            "x265enc"
        },
    }
}

/// The parser element for a codec.
pub open spec fn parser_name(codec: Codec) -> Seq<char> {
    match codec {
        Codec::H264 => "h264parse"@,
        Codec::Hevc => "h265parse"@,
    }
}

/// The media type of a codec.
pub open spec fn media_type_name(codec: Codec) -> Seq<char> {
    match codec {
        Codec::H264 => "video/x-h264"@,
        Codec::Hevc => "video/x-h265"@,
    }
}

/// What is said when a codec has no encoder.
pub open spec fn no_encoder_text(codec: Codec) -> Seq<char> {
    match codec {
        Codec::H264 => "no GStreamer encoder available for H264 (tried [\"vaapih264enc\", \"nvh264enc\", \"x264enc\"])"@,
        Codec::Hevc => "no GStreamer encoder available for Hevc (tried [\"vaapih265enc\", \"nvh265enc\", \"x265enc\"])"@,
    }
}

/// The parser element and the media type for a codec.
fn stream_names(codec: Codec) -> (r: (&'static str, &'static str))
    ensures
        r.0@ == parser_name(codec),
        r.1@ == media_type_name(codec),
{
    match codec {
        Codec::H264 => ("h264parse", "video/x-h264"),
        Codec::Hevc => ("h265parse", "video/x-h265"),
    }
}

/// Whether a choice is that of the first encoder element for a codec that is registered,
/// and an error that of none being registered, as asked by `have_element`.
pub open spec fn is_choice<F>(
    codec: Codec,
    have_element: F,
    r: Result<EncoderChoice, EncodeError>,
) -> bool where F: Fn(&'static str) -> bool {
    match r {
        Ok(choice) => exists|i: int|
            {
                &&& 0 <= i < 3
                &&& choice.enc == #[trigger] candidate(codec, i)
                &&& have_element.ensures((candidate(codec, i),), true)
                &&& forall|j: int|
                    0 <= j < i ==> have_element.ensures((#[trigger] candidate(codec, j),), false)
                &&& choice.parse@ == parser_name(codec)
                &&& choice.media_type@ == media_type_name(codec)
                &&& choice.is_software == (i == 2)
            },
        Err(e) => {
            &&& e matches EncodeError::Unsupported(s) && s@ == no_encoder_text(codec)
            &&& forall|j: int|
                0 <= j < 3 ==> have_element.ensures((#[trigger] candidate(codec, j),), false)
        },
    }
}

/// Picks the first encoder element for a codec that is registered.
pub fn choose_encoder<F>(codec: Codec, have_element: F) -> (r: Result<
    EncoderChoice,
    EncodeError,
>) where F: Fn(&'static str) -> bool
    requires
        forall|i: int| 0 <= i < 3 ==> have_element.requires((#[trigger] candidate(codec, i),)),
    ensures
        is_choice(codec, have_element, r),
{
    let (first, second, third) = match codec {
        Codec::H264 => ("vaapih264enc", "nvh264enc", "x264enc"),
        Codec::Hevc => ("vaapih265enc", "nvh265enc", "x265enc"),
    };
    let (parse, media_type) = stream_names(codec);
    assert(first == candidate(codec, 0));
    assert(second == candidate(codec, 1));
    assert(third == candidate(codec, 2));
    if have_element(first) {
        return Ok(EncoderChoice { enc: first, parse, media_type, is_software: false });
    }
    if have_element(second) {
        return Ok(EncoderChoice { enc: second, parse, media_type, is_software: false });
    }
    if have_element(third) {
        return Ok(EncoderChoice { enc: third, parse, media_type, is_software: true });
    }
    Err(
        EncodeError::Unsupported(
            match codec {
                Codec::H264 => "no GStreamer encoder available for H264 (tried [\"vaapih264enc\", \"nvh264enc\", \"x264enc\"])".to_owned(),
                Codec::Hevc => "no GStreamer encoder available for Hevc (tried [\"vaapih265enc\", \"nvh265enc\", \"x265enc\"])".to_owned(),
            },
        ),
    )
}

/// The audio elements for a codec.
#[derive(Debug, Clone, Copy)]
pub struct AudioChoice {
    pub enc: &'static str,
    pub parse: &'static str,
    pub media_type: &'static str,
}

/// The encoder, the parser and the media type for an audio codec.
pub fn audio_elements(codec: AudioCodec) -> (r: AudioChoice)
    ensures
        match codec {
            AudioCodec::Aac => r.enc@ == "avenc_aac"@ && r.parse@ == "aacparse"@ && r.media_type@
                == "audio/mpeg"@,
            AudioCodec::Opus => r.enc@ == "opusenc"@ && r.parse@ == "opusparse"@ && r.media_type@
                == "audio/x-opus"@,
        },
{
    match codec {
        AudioCodec::Aac => AudioChoice {
            enc: "avenc_aac",
            parse: "aacparse",
            media_type: "audio/mpeg",
        },
        AudioCodec::Opus => AudioChoice {
            enc: "opusenc",
            parse: "opusparse",
            media_type: "audio/x-opus",
        },
    }
}

/// The device that `pulsesrc` reads from: the monitor of the default sink, or the
/// default source where none is named.
pub fn pulse_device(source: AudioSource) -> (r: Option<&'static str>)
    ensures
        match source {
            AudioSource::SystemMonitor => r matches Some(name) && name@ == "@DEFAULT_MONITOR@"@,
            AudioSource::Microphone => r is None,
        },
{
    match source {
        AudioSource::SystemMonitor => Some("@DEFAULT_MONITOR@"),
        AudioSource::Microphone => None,
    }
}

/// The audio that is captured and muxed, where audio is wanted: 48 kHz stereo.
pub open spec fn wanted_audio(settings: EncodeSettings) -> Option<AudioInfo> {
    if settings.capture_audio {
        Some(AudioInfo { sample_rate: 48_000, channels: 2, codec: settings.audio_codec })
    } else {
        None
    }
}

/// The audio that is captured and muxed, where audio is wanted.
pub fn audio_stream(settings: &EncodeSettings) -> (r: Option<AudioInfo>)
    ensures
        r == wanted_audio(*settings),
{
    if settings.capture_audio {
        Some(AudioInfo { sample_rate: 48_000, channels: 2, codec: settings.audio_codec })
    } else {
        None
    }
}

/// The audio bitrate in bits per second, or the largest number there is.
pub open spec fn audio_bits(settings: EncodeSettings) -> u32 {
    if settings.audio_bitrate_kbps * 1000 > u32::MAX {
        u32::MAX
    } else {
        (settings.audio_bitrate_kbps * 1000) as u32
    }
}

/// The audio bitrate in bits per second, as the audio encoders take it.
pub fn audio_bits_per_second(settings: &EncodeSettings) -> (r: u32)
    ensures
        r == audio_bits(*settings),
{
    let wide: u64 = settings.audio_bitrate_kbps as u64 * 1000;
    if wide > u32::MAX as u64 {
        u32::MAX
    } else {
        wide as u32
    }
}

/// The elements through which a decoded stream goes into a shareable copy, by the media
/// type of the stream: H.264 and AAC, and nothing for any other stream.
pub open spec fn share_elements(media_type: Seq<char>) -> Option<Seq<&'static str>> {
    if begins_with(media_type, "video/"@) {
        Some(seq!["queue", "videoconvert", "x264enc", "h264parse"])
    } else if begins_with(media_type, "audio/"@) {
        Some(seq!["queue", "audioconvert", "audioresample", "avenc_aac", "aacparse"])
    } else {
        None
    }
}

/// The elements through which a decoded stream goes into a shareable copy.
pub fn share_chain(media_type: &str) -> (r: Option<Vec<&'static str>>)
    ensures
        match r {
            Some(chain) => share_elements(media_type@) == Some(chain@),
            None => share_elements(media_type@) is None,
        },
{
    if starts_with(media_type, "video/") {
        let chain = vec!["queue", "videoconvert", "x264enc", "h264parse"];
        assert(chain@ =~= seq!["queue", "videoconvert", "x264enc", "h264parse"]);
        Some(chain)
    } else if starts_with(media_type, "audio/") {
        let chain = vec!["queue", "audioconvert", "audioresample", "avenc_aac", "aacparse"];
        assert(chain@ =~= seq![
            "queue",
            "audioconvert",
            "audioresample",
            "avenc_aac",
            "aacparse",
        ]);
        Some(chain)
    } else {
        None
    }
}

/// The bitrate of an element of a shareable copy, where it takes one: the video encoder
/// in kbit/s, and the audio encoder in bits per second.
pub fn share_bitrate(element: &str, settings: &EncodeSettings) -> (r: Option<u32>)
    ensures
        r == (if element@ == "x264enc"@ {
            Some(settings.bitrate_kbps)
        } else if element@ == "avenc_aac"@ {
            Some(audio_bits(*settings))
        } else {
            None
        }),
{
    if same(element, "x264enc") {
        Some(settings.bitrate_kbps)
    } else if same(element, "avenc_aac") {
        Some(audio_bits_per_second(settings))
    } else {
        None
    }
}

// --- configuration -----------------------------------------------------------------

/// The raw video that is fed to the encoder.
#[derive(Debug, Clone, Copy)]
pub struct RawCaps {
    pub format: &'static str,
    pub width: i32,
    pub height: i32,
    /// Frames per second, over one.
    pub framerate: i32,
}

/// The raw video of a stream. Numbers are 32-bit signed in GStreamer.
pub fn raw_caps(info: StreamInfo) -> (r: RawCaps)
    ensures
        r.format@ == gst_format_name(info.format),
        r.width == info.width as i32,
        r.height == info.height as i32,
        r.framerate == info.framerate as i32,
{
    RawCaps {
        format: info.format.gst_format(),
        width: #[verifier::truncate]
        (info.width as i32),
        height: #[verifier::truncate]
        (info.height as i32),
        framerate: #[verifier::truncate]
        (info.framerate as i32),
    }
}

/// A property to set on the encoder element, where the element has it.
#[derive(Debug, Clone, Copy)]
pub enum Property {
    Number { name: &'static str, value: u32 },
    Text { name: &'static str, text: &'static str },
}

/// The properties of the encoder. All encoders take the bitrate in kbit/s. The software
/// encoders are tuned for latency; the others name the keyframe interval differently, so
/// each name is tried.
pub open spec fn properties_for(is_software: bool, settings: EncodeSettings) -> Seq<Property> {
    let n = settings.keyframe_interval;
    let bitrate = Property::Number { name: "bitrate", value: settings.bitrate_kbps };
    if is_software {
        seq![
            bitrate,
            Property::Text { name: "tune", text: "zerolatency" },
            Property::Number { name: "key-int-max", value: n },
        ]
    } else {
        seq![
            bitrate,
            Property::Number { name: "key-int-max", value: n },
            Property::Number { name: "keyframe-period", value: n },
            Property::Number { name: "gop-size", value: n },
        ]
    }
}

/// The properties to set on a chosen encoder.
pub fn encoder_properties(choice: &EncoderChoice, settings: &EncodeSettings) -> (r: Vec<Property>)
    ensures
        r@ == properties_for(choice.is_software, *settings),
{
    let n: u32 = settings.keyframe_interval;
    let mut r: Vec<Property> = Vec::new();
    r.push(Property::Number { name: "bitrate", value: settings.bitrate_kbps });
    if choice.is_software {
        r.push(Property::Text { name: "tune", text: "zerolatency" });
        r.push(Property::Number { name: "key-int-max", value: n });
    } else {
        r.push(Property::Number { name: "key-int-max", value: n });
        r.push(Property::Number { name: "keyframe-period", value: n });
        r.push(Property::Number { name: "gop-size", value: n });
    }
    assert(r@ =~= properties_for(choice.is_software, *settings));
    r
}

// --- encoder -----------------------------------------------------------------------

/// The state of the encoding pipeline.
#[derive(Debug)]
pub struct GstEncoder {
    name: String,
    configured: bool,
    eos_sent: bool,
    audio: Option<AudioInfo>,
}

/// What an encoder has come to.
#[verifier::ext_equal]
pub struct EncoderState {
    pub name: Seq<char>,
    /// Whether a pipeline has been set up.
    pub configured: bool,
    /// Whether the pipeline has been told that no frame follows.
    pub eos_sent: bool,
    pub audio: Option<AudioInfo>,
}

/// The state of an encoder that is not configured yet.
pub open spec fn fresh_encoder() -> EncoderState {
    EncoderState { name: "gstreamer"@, configured: false, eos_sent: false, audio: None }
}

/// The state of an encoder after a set-up with some audio. A set-up that failed leaves it
/// as it was.
pub open spec fn after_configure(
    before: EncoderState,
    audio: Option<AudioInfo>,
    outcome: Result<EncoderChoice, EncodeError>,
) -> EncoderState {
    match outcome {
        Ok(choice) => EncoderState {
            name: "gstreamer:"@ + choice.enc@,
            configured: true,
            eos_sent: false,
            audio,
        },
        Err(_) => before,
    }
}

impl View for GstEncoder {
    type V = EncoderState;

    closed spec fn view(&self) -> EncoderState {
        EncoderState {
            name: self.name@,
            configured: self.configured,
            eos_sent: self.eos_sent,
            audio: self.audio,
        }
    }
}

impl GstEncoder {
    pub fn new() -> (r: GstEncoder)
        ensures
            r@ == fresh_encoder(),
    {
        GstEncoder {
            name: "gstreamer".to_owned(),
            configured: false,
            eos_sent: false,
            audio: None,
        }
    }

    /// `gstreamer`, and the chosen element once there is one.
    pub fn name(&self) -> (r: &str)
        ensures
            r@ == self@.name,
    {
        self.name.as_str()
    }

    pub fn audio_info(&self) -> (r: Option<AudioInfo>)
        ensures
            r == self@.audio,
    {
        self.audio
    }

    /// Chooses an encoder element, lets `build` set up a pipeline around it, and takes the
    /// outcome. `build` hands back what belongs to a pipeline that plays.
    pub fn configure<F, B, T>(
        &mut self,
        settings: &EncodeSettings,
        have_element: F,
        build: B,
    ) -> (r: Result<T, EncodeError>) where
        F: Fn(&'static str) -> bool,
        B: FnOnce(&EncoderChoice) -> Result<T, EncodeError>,

        requires
            forall|i: int|
                0 <= i < 3 ==> have_element.requires((#[trigger] candidate(settings.codec, i),)),
            forall|choice: EncoderChoice|
                is_choice(settings.codec, have_element, Ok(choice)) ==> #[trigger] build.requires(
                    (&choice,),
                ),
        ensures
            match r {
                Ok(built) => exists|choice: EncoderChoice|
                    {
                        &&& is_choice(settings.codec, have_element, Ok(choice))
                        &&& #[trigger] build.ensures((&choice,), Ok(built))
                        &&& final(self)@ == after_configure(
                            old(self)@,
                            wanted_audio(*settings),
                            Ok(choice),
                        )
                    },
                Err(e) => {
                    &&& final(self)@ == old(self)@
                    &&& is_choice(settings.codec, have_element, Err(e)) || exists|
                        choice: EncoderChoice,
                    |
                        is_choice(settings.codec, have_element, Ok(choice))
                            && #[trigger] build.ensures((&choice,), Err(e))
                },
            },
    {
        let audio = audio_stream(settings);
        let outcome = match choose_encoder(settings.codec, have_element) {
            Ok(choice) => match build(&choice) {
                Ok(built) => Ok((choice, built)),
                Err(e) => Err(e),
            },
            Err(e) => Err(e),
        };
        self.on_configured(audio, outcome)
    }

    /// Takes the outcome of a set-up: the chosen element and what was built around it, or
    /// the error. After an error the encoder is what it was before.
    pub fn on_configured<T>(
        &mut self,
        audio: Option<AudioInfo>,
        outcome: Result<(EncoderChoice, T), EncodeError>,
    ) -> (r: Result<T, EncodeError>)
        ensures
            match outcome {
                Ok((choice, built)) => {
                    &&& r == Ok::<T, EncodeError>(built)
                    &&& final(self)@ == after_configure(old(self)@, audio, Ok(choice))
                },
                Err(e) => {
                    &&& r == Err::<T, EncodeError>(e)
                    &&& final(self)@ == old(self)@
                },
            },
    {
        match outcome {
            Ok((choice, built)) => {
                self.name = joined("gstreamer:", choice.enc);
                self.configured = true;
                self.eos_sent = false;
                self.audio = audio;
                Ok(built)
            },
            Err(e) => Err(e),
        }
    }

    /// Hands a frame to `push`, a copy of its pixels with its time: not before the encoder
    /// is configured.
    pub fn push_frame<P>(&self, frame: &Frame, push: P) -> (r: Result<(), EncodeError>) where
        P: FnOnce(Vec<u8>, u64) -> Result<(), EncodeError>,

        requires
            self@.configured ==> forall|data: Vec<u8>|
                data@ == frame.data@ ==> #[trigger] push.requires((data, frame.pts_ns)),
        ensures
            self@.configured ==> exists|data: Vec<u8>|
                data@ == frame.data@ && #[trigger] push.ensures((data, frame.pts_ns), r),
            !self@.configured ==> (r matches Err(EncodeError::Backend(s)) && s@
                == "push_frame before configure"@),
    {
        if self.configured {
            let data = (*frame.data).clone();
            assert(data@ =~= frame.data@);
            push(data, frame.pts_ns)
        } else {
            Err(EncodeError::Backend("push_frame before configure".to_owned()))
        }
    }

    /// Collects the packets of the samples that are ready: not before the encoder is
    /// configured.
    pub fn poll(&self, ready: &mut Ready, sink: &mut Vec<EncodedPacket>) -> (r: Result<
        (),
        EncodeError,
    >)
        ensures
            self@.configured ==> is_collected(
                *old(ready),
                *final(ready),
                packet_views(old(sink)@),
                packet_views(final(sink)@),
                r,
            ),
            !self@.configured ==> {
                &&& r matches Err(EncodeError::Backend(s)) && s@ == "poll before configure"@
                &&& *final(ready) == *old(ready)
                &&& *final(sink) == *old(sink)
            },
    {
        if self.configured {
            ready.collect(sink)
        } else {
            Err(EncodeError::Backend("poll before configure".to_owned()))
        }
    }

    /// Flushes what the encoder still holds: not before it is configured. `send_eos` tells
    /// the pipeline that no frame follows, unless that was done before. Then `pull` adds
    /// the samples that come to those that are ready, and their packets are collected.
    pub fn flush<S, P>(
        &mut self,
        ready: &mut Ready,
        sink: &mut Vec<EncodedPacket>,
        send_eos: S,
        pull: P,
    ) -> (r: Result<(), EncodeError>) where
        S: FnOnce() -> Result<(), EncodeError>,
        P: FnOnce(Ready) -> Ready,

        requires
            old(self)@.configured && !old(self)@.eos_sent ==> send_eos.requires(()),
            old(self)@.configured && (old(self)@.eos_sent || can_end(send_eos)) ==> pull.requires(
                (*old(ready),),
            ),
        ensures
            ({
                let before = old(self)@;
                let after = final(self)@;
                ||| {
                    &&& !before.configured
                    &&& r matches Err(EncodeError::Backend(s)) && s@ == "flush before configure"@
                    &&& after == before
                    &&& *final(ready) == *old(ready)
                    &&& *final(sink) == *old(sink)
                }
                ||| {
                    &&& before.configured
                    &&& !before.eos_sent
                    &&& r is Err
                    &&& send_eos.ensures((), r)
                    &&& after == before
                    &&& *final(ready) == *old(ready)
                    &&& *final(sink) == *old(sink)
                }
                ||| {
                    &&& before.configured
                    &&& before.eos_sent || can_end(send_eos)
                    &&& after == (EncoderState { eos_sent: true, ..before })
                    &&& exists|made: Ready| #[trigger]
                        pull.ensures((*old(ready),), made) && is_collected(
                            made,
                            *final(ready),
                            packet_views(old(sink)@),
                            packet_views(final(sink)@),
                            r,
                        )
                }
            }),
    {
        if !self.configured {
            return Err(EncodeError::Backend("flush before configure".to_owned()));
        }
        if !self.eos_sent {
            let sent = send_eos();
            if sent.is_err() {
                return sent;
            }
            assert(can_end(send_eos));
            self.eos_sent = true;
        }
        let mut held = Ready::new();
        std::mem::swap(&mut held, ready);
        let ghost before = held;
        *ready = pull(held);
        let ghost made = *ready;
        assert(pull.ensures((before,), made));
        ready.collect(sink)
    }
}

/// Whether `send_eos` can have succeeded.
pub open spec fn can_end<S>(send_eos: S) -> bool where S: FnOnce() -> Result<(), EncodeError> {
    exists|sent: Result<(), EncodeError>| sent is Ok && #[trigger] send_eos.ensures((), sent)
}

// --- samples -----------------------------------------------------------------------

/// The buffer of a pulled sample.
#[derive(Debug)]
pub struct SampleBuffer {
    /// The bytes, or what the error says where they cannot be mapped.
    pub data: Result<Vec<u8>, String>,
    pub pts_ns: Option<u64>,
    pub dts_ns: Option<u64>,
    /// Whether the buffer depends on earlier ones.
    pub delta_unit: bool,
}

/// The packet of a buffer whose bytes can be mapped. A buffer that depends on no earlier
/// one is a keyframe.
pub open spec fn packet_of(b: SampleBuffer, track: Track) -> PacketView {
    PacketView {
        data: b.data->Ok_0@,
        pts_ns: match b.pts_ns {
            Some(t) => t,
            None => 0,
        },
        dts_ns: b.dts_ns,
        is_keyframe: !b.delta_unit,
        track,
    }
}

/// Whether a sample has a buffer whose bytes cannot be mapped.
pub open spec fn is_unreadable(sample: Option<SampleBuffer>) -> bool {
    sample matches Some(b) && b.data is Err
}

/// Whether an error is that of a sample whose bytes cannot be mapped.
pub open spec fn is_map_error(e: EncodeError, sample: Option<SampleBuffer>) -> bool {
    e matches EncodeError::Backend(s) && s@ == "map buffer readable: "@
        + sample->Some_0.data->Err_0@
}

/// Makes a packet of a sample; a sample without a buffer gives none. A buffer that
/// depends on no earlier one is a keyframe.
pub fn sample_to_packet(buffer: Option<SampleBuffer>, track: Track) -> (r: Result<
    Option<EncodedPacket>,
    EncodeError,
>)
    ensures
        match buffer {
            None => r matches Ok(None),
            Some(b) => match b.data {
                Err(_) => r matches Err(e) && is_map_error(e, buffer),
                Ok(_) => r matches Ok(Some(p)) && p@ == packet_of(b, track),
            },
        },
{
    let buffer = match buffer {
        Some(b) => b,
        None => return Ok(None),
    };
    let data = match buffer.data {
        Ok(data) => data,
        Err(e) => {
            return Err(EncodeError::Backend(joined("map buffer readable: ", e.as_str())));
        },
    };
    let pts_ns: u64 = match buffer.pts_ns {
        Some(t) => t,
        None => 0,
    };
    Ok(
        Some(
            EncodedPacket {
                data,
                pts_ns,
                dts_ns: buffer.dts_ns,
                is_keyframe: !buffer.delta_unit,
                track,
            },
        ),
    )
}

/// How many samples come before the first whose bytes cannot be mapped.
pub open spec fn readable_len(samples: Seq<Option<SampleBuffer>>) -> int
    decreases samples.len(),
{
    if samples.len() == 0 || is_unreadable(samples[0]) {
        0
    } else {
        1 + readable_len(samples.skip(1))
    }
}

/// The packets of samples, in order: one for each that has a buffer.
pub open spec fn packets_in(samples: Seq<Option<SampleBuffer>>, track: Track) -> Seq<PacketView>
    decreases samples.len(),
{
    if samples.len() == 0 {
        Seq::empty()
    } else {
        let before = packets_in(samples.drop_last(), track);
        match samples.last() {
            Some(b) => before.push(packet_of(b, track)),
            None => before,
        }
    }
}

/// The packets of the samples before the first whose bytes cannot be mapped.
pub open spec fn collected(samples: Seq<Option<SampleBuffer>>, track: Track) -> Seq<PacketView> {
    packets_in(samples.take(readable_len(samples)), track)
}

/// The samples that are left: those after the first whose bytes cannot be mapped.
pub open spec fn left_over(samples: Seq<Option<SampleBuffer>>) -> Seq<Option<SampleBuffer>> {
    if readable_len(samples) < samples.len() {
        samples.skip(readable_len(samples) + 1)
    } else {
        Seq::empty()
    }
}

/// Whether a result says how the collecting of samples ended: well where the bytes of
/// all can be mapped, and otherwise with the error of the first where they cannot.
pub open spec fn is_end(samples: Seq<Option<SampleBuffer>>, r: Result<(), EncodeError>) -> bool {
    if readable_len(samples) < samples.len() {
        r matches Err(e) && is_map_error(e, samples[readable_len(samples)])
    } else {
        r is Ok
    }
}

/// Collects the packets of the samples of one track, up to the first whose bytes cannot
/// be mapped; that one is dropped, and those after it are left.
pub fn collect_track(
    samples: &mut VecDeque<Option<SampleBuffer>>,
    track: Track,
    sink: &mut Vec<EncodedPacket>,
) -> (r: Result<(), EncodeError>)
    ensures
        packet_views(final(sink)@) == packet_views(old(sink)@) + collected(old(samples)@, track),
        final(samples)@ == left_over(old(samples)@),
        is_end(old(samples)@, r),
{
    let ghost all = samples@;
    let ghost before = packet_views(sink@);
    let ghost mut k: int = 0;
    assert(all.skip(0) =~= all);
    assert(before + packets_in(all.take(0), track) =~= before);
    while samples.len() > 0
        invariant
            0 <= k <= all.len(),
            samples@ == all.skip(k),
            readable_len(all) == k + readable_len(all.skip(k)),
            packet_views(sink@) == before + packets_in(all.take(k), track),
            all == old(samples)@,
            before == packet_views(old(sink)@),
        decreases samples@.len(),
    {
        let ghost held = sink@;
        assert(all.skip(k)[0] == all[k]);
        assert(all.skip(k).skip(1) =~= all.skip(k + 1));
        assert(all.take(k + 1).drop_last() =~= all.take(k));
        if let Some(sample) = samples.pop_front() {
            assert(sample == all[k]);
            match sample_to_packet(sample, track) {
                Err(e) => {
                    return Err(e);
                },
                Ok(None) => {},
                Ok(Some(packet)) => {
                    sink.push(packet);
                    assert(packet_views(sink@) =~= packet_views(held).push(packet@));
                },
            }
            proof {
                k = k + 1;
            }
            assert(packet_views(sink@) =~= before + packets_in(all.take(k), track));
        }
    }
    assert(k == all.len());
    Ok(())
}

/// The samples that the encoder has made and that are not collected yet, oldest first.
/// A sample may lack a buffer.
#[derive(Debug)]
pub struct Ready {
    pub video: VecDeque<Option<SampleBuffer>>,
    pub audio: VecDeque<Option<SampleBuffer>>,
}

/// Whether collecting turned `before` into `after` and added to what was in the sink the
/// packets of the video samples and then those of the audio samples. Where the bytes of
/// a video sample cannot be mapped, the audio samples have to wait.
pub open spec fn is_collected(
    before: Ready,
    after: Ready,
    sink: Seq<PacketView>,
    filled: Seq<PacketView>,
    r: Result<(), EncodeError>,
) -> bool {
    let video = collected(before.video@, Track::Video);
    &&& after.video@ == left_over(before.video@)
    &&& if readable_len(before.video@) < before.video@.len() {
        &&& is_end(before.video@, r)
        &&& filled == sink + video
        &&& after.audio@ == before.audio@
    } else {
        &&& is_end(before.audio@, r)
        &&& filled == sink + video + collected(before.audio@, Track::Audio)
        &&& after.audio@ == left_over(before.audio@)
    }
}

impl Ready {
    pub fn new() -> (r: Ready)
        ensures
            r.video@.len() == 0,
            r.audio@.len() == 0,
    {
        Ready { video: VecDeque::new(), audio: VecDeque::new() }
    }

    /// Collects the packets of the video samples and then those of the audio samples,
    /// each with its track.
    pub fn collect(&mut self, sink: &mut Vec<EncodedPacket>) -> (r: Result<(), EncodeError>)
        ensures
            is_collected(
                *old(self),
                *final(self),
                packet_views(old(sink)@),
                packet_views(final(sink)@),
                r,
            ),
    {
        match collect_track(&mut self.video, Track::Video, sink) {
            Ok(_) => collect_track(&mut self.audio, Track::Audio, sink),
            Err(e) => Err(e),
        }
    }
}

// --- muxer -------------------------------------------------------------------------

/// A buffer of a muxed track.
#[derive(Debug)]
pub struct MuxBuffer {
    pub data: Vec<u8>,
    pub pts_ns: u64,
    pub dts_ns: Option<u64>,
    /// Whether the buffer depends on earlier ones.
    pub delta_unit: bool,
}

/// The contents of a buffer of a muxed track.
#[verifier::ext_equal]
pub struct MuxView {
    pub data: Seq<u8>,
    pub pts_ns: int,
    pub dts_ns: Option<int>,
    pub delta_unit: bool,
}

impl View for MuxBuffer {
    type V = MuxView;

    open spec fn view(&self) -> MuxView {
        MuxView {
            data: self.data@,
            pts_ns: self.pts_ns as int,
            dts_ns: match self.dts_ns {
                Some(t) => Some(t as int),
                None => None,
            },
            delta_unit: self.delta_unit,
        }
    }
}

/// The contents of the buffers of a muxed track.
pub open spec fn mux_views(buffers: Seq<MuxBuffer>) -> Seq<MuxView> {
    buffers.map_values(|b: MuxBuffer| b@)
}

/// The earlier of a packet's timestamps.
pub open spec fn first_stamp(p: PacketView) -> u64 {
    if p.dts_ns is Some && p.dts_ns->0 < p.pts_ns {
        p.dts_ns->0
    } else {
        p.pts_ns
    }
}

/// The earliest timestamp of a track, from which its time is counted.
pub open spec fn origin(track: Seq<PacketView>) -> u64
    decreases track.len(),
{
    if track.len() == 0 {
        0
    } else if track.len() == 1 {
        first_stamp(track[0])
    } else {
        let before = origin(track.drop_last());
        if first_stamp(track.last()) < before {
            first_stamp(track.last())
        } else {
            before
        }
    }
}

/// A packet with its time counted from `zero`.
pub open spec fn rebased_packet(p: PacketView, zero: int) -> MuxView {
    MuxView {
        data: p.data,
        pts_ns: p.pts_ns - zero,
        dts_ns: match p.dts_ns {
            Some(t) => Some(t - zero),
            None => None,
        },
        delta_unit: !p.is_keyframe,
    }
}

/// A track with its time counted from its own earliest timestamp.
pub open spec fn rebased(track: Seq<PacketView>) -> Seq<MuxView> {
    track.map_values(|p: PacketView| rebased_packet(p, origin(track) as int))
}

/// No timestamp of a track comes before its origin, and one is the origin.
proof fn lemma_origin(track: Seq<PacketView>)
    ensures
        forall|i: int| 0 <= i < track.len() ==> origin(track) <= first_stamp(#[trigger] track[i]),
        track.len() > 0 ==> exists|i: int|
            0 <= i < track.len() && origin(track) == first_stamp(#[trigger] track[i]),
    decreases track.len(),
{
    if track.len() == 1 {
        assert(origin(track) == first_stamp(track[0]));
    } else if track.len() > 1 {
        let before = track.drop_last();
        lemma_origin(before);
        assert forall|i: int| 0 <= i < track.len() implies origin(track) <= first_stamp(
            #[trigger] track[i],
        ) by {
            if i < before.len() {
                assert(before[i] == track[i]);
            }
        }
        let i = choose|i: int|
            0 <= i < before.len() && origin(before) == first_stamp(#[trigger] before[i]);
        assert(before[i] == track[i]);
        assert(track.last() == track[track.len() - 1]);
    }
}

fn origin_of(track: &Vec<EncodedPacket>) -> (r: u64)
    ensures
        r == origin(packet_views(track@)),
{
    let mut r: u64 = 0;
    let ghost views = packet_views(track@);
    for i in 0..track.len()
        invariant
            views == packet_views(track@),
            r == origin(views.take(i as int)),
    {
        let ghost seen = views.take(i + 1);
        assert(seen.drop_last() =~= views.take(i as int));
        assert(seen.last() == track@[i as int]@);
        let mut stamp: u64 = track[i].pts_ns;
        match track[i].dts_ns {
            Some(t) => {
                if t < stamp {
                    stamp = t;
                }
            },
            None => {},
        }
        if i == 0 || stamp < r {
            r = stamp;
        }
    }
    assert(views.take(views.len() as int) =~= views);
    r
}

/// The buffers of a track, with its time counted from its own earliest timestamp.
pub fn rebase(track: &Vec<EncodedPacket>) -> (r: Vec<MuxBuffer>)
    ensures
        mux_views(r@) == rebased(packet_views(track@)),
{
    let zero = origin_of(track);
    let mut r: Vec<MuxBuffer> = Vec::new();
    let ghost views = packet_views(track@);
    proof {
        lemma_origin(views);
    }
    for i in 0..track.len()
        invariant
            views == packet_views(track@),
            zero == origin(views),
            forall|k: int| 0 <= k < views.len() ==> zero <= first_stamp(#[trigger] views[k]),
            mux_views(r@) == rebased(views).take(i as int),
    {
        let ghost before = r@;
        let p = track[i].clone();
        assert(views[i as int] == p@);
        let dts_ns: Option<u64> = match p.dts_ns {
            Some(t) => Some(t - zero),
            None => None,
        };
        r.push(
            MuxBuffer { data: p.data, pts_ns: p.pts_ns - zero, dts_ns, delta_unit: !p.is_keyframe },
        );
        assert(r@.last()@ == rebased(views)[i as int]);
        assert(before.len() == mux_views(before).len() == i);
        assert forall|k: int| 0 <= k < i implies #[trigger] mux_views(r@)[k] == rebased(views)[k] by {
            assert(mux_views(before)[k] == rebased(views).take(i as int)[k]);
            assert(r@[k] == before[k]);
        }
        assert(mux_views(r@) =~= rebased(views).take(i + 1));
    }
    assert(rebased(views).take(views.len() as int) =~= rebased(views));
    r
}

/// A file that is written under another name until it is complete.
#[derive(Debug)]
pub struct ClipFile {
    /// The file that is written.
    pub partial: String,
    /// What it becomes.
    pub out: String,
}

/// What is done with a file next.
#[derive(Debug)]
pub enum FileStep {
    /// Give the complete file its name.
    Rename { from: String, to: String },
    /// Remove what was written, and fail.
    Remove { path: String, cause: EncodeError },
    /// The file is there.
    Done,
}

/// Whether a step follows on writing a file: it gets its name exactly where it is
/// complete, and otherwise it is removed and the error stays.
pub open spec fn follows_writing(
    file: ClipFile,
    outcome: Result<(), EncodeError>,
    step: FileStep,
) -> bool {
    match outcome {
        Ok(_) => step matches FileStep::Rename { from, to } && from@ == file.partial@ && to@
            == file.out@,
        Err(e) => step matches FileStep::Remove { path, cause } && path@ == file.partial@ && cause
            == e,
    }
}

/// Whether a step follows on giving a file its name: what could not get it is removed.
pub open spec fn follows_renaming(
    file: ClipFile,
    outcome: Result<(), String>,
    step: FileStep,
) -> bool {
    match outcome {
        Ok(_) => step is Done,
        Err(e) => step matches FileStep::Remove { path, cause } && path@ == file.partial@ && (
        cause matches EncodeError::Backend(s) && s@ == "rename clip"@ + ": "@ + e@),
    }
}

/// Whether `write` can have written a file.
pub open spec fn can_write<W>(write: W, path: String) -> bool where
    W: FnOnce(&String) -> Result<(), EncodeError>,
 {
    exists|outcome: Result<(), EncodeError>|
        outcome is Ok && #[trigger] write.ensures((&path,), outcome)
}

/// Whether `rename` can have given a file another name.
pub open spec fn can_rename<R>(rename: R, from: String, to: String) -> bool where
    R: FnOnce(&String, &String) -> Result<(), String>,
 {
    exists|outcome: Result<(), String>|
        outcome is Ok && #[trigger] rename.ensures((&from, &to), outcome)
}

/// Whether an error is that of `rename`.
pub open spec fn is_rename_error<R>(rename: R, from: String, to: String, e: EncodeError) -> bool where
    R: FnOnce(&String, &String) -> Result<(), String>,
 {
    exists|cause: String| #[trigger]
        rename.ensures((&from, &to), Err(cause)) && (e matches EncodeError::Backend(s) && s@
            == "rename clip"@ + ": "@ + cause@)
}

impl ClipFile {
    /// The file that is written has a name of its own.
    pub open spec fn wf(self) -> bool {
        self.partial@ == self.out@ + ".part"@
    }

    pub fn new(out: &str) -> (r: ClipFile)
        ensures
            r.out@ == out@,
            r.wf(),
    {
        ClipFile { partial: joined(out, ".part"), out: out.to_owned() }
    }

    /// Takes the outcome of writing the file.
    pub fn on_written(&self, outcome: Result<(), EncodeError>) -> (r: FileStep)
        ensures
            follows_writing(*self, outcome, r),
    {
        match outcome {
            Ok(_) => FileStep::Rename { from: self.partial.clone(), to: self.out.clone() },
            Err(cause) => FileStep::Remove { path: self.partial.clone(), cause },
        }
    }

    /// Takes the outcome of giving the file its name.
    pub fn on_renamed(&self, outcome: Result<(), String>) -> (r: FileStep)
        ensures
            follows_renaming(*self, outcome, r),
    {
        match outcome {
            Ok(_) => FileStep::Done,
            Err(e) => FileStep::Remove {
                path: self.partial.clone(),
                cause: backend("rename clip", e.as_str()),
            },
        }
    }

    /// Writes the file: `write` fills the partial file, `rename` gives it its name once it
    /// is complete, and `remove` takes it away where either fails.
    pub fn write<W, R, D>(&self, write: W, rename: R, remove: D) -> (r: Result<(), EncodeError>) where
        W: FnOnce(&String) -> Result<(), EncodeError>,
        R: FnOnce(&String, &String) -> Result<(), String>,
        D: FnOnce(&String),

        requires
            write.requires((&self.partial,)),
            can_write(write, self.partial) ==> rename.requires((&self.partial, &self.out)),
            (exists|e: EncodeError| write.ensures((&self.partial,), Err(e))) ==> remove.requires(
                (&self.partial,),
            ),
            can_write(write, self.partial) && (exists|e: String|
                rename.ensures((&self.partial, &self.out), Err(e))) ==> remove.requires(
                (&self.partial,),
            ),
        ensures
            match r {
                Ok(_) => can_write(write, self.partial) && can_rename(
                    rename,
                    self.partial,
                    self.out,
                ),
                Err(e) => {
                    &&& remove.ensures((&self.partial,), ())
                    &&& write.ensures((&self.partial,), Err(e)) || (can_write(write, self.partial)
                        && is_rename_error(rename, self.partial, self.out, e))
                },
            },
    {
        let written = write(&self.partial);
        let ghost seen = written;
        let step = self.on_written(written);
        match step {
            FileStep::Rename { from: _, to: _ } => {
                assert(write.ensures((&self.partial,), seen));
                assert(can_write(write, self.partial));
                let renamed = rename(&self.partial, &self.out);
                let ghost answer = renamed;
                assert(rename.ensures((&self.partial, &self.out), answer));
                match self.on_renamed(renamed) {
                    FileStep::Remove { path: _, cause } => {
                        assert(rename.ensures((&self.partial, &self.out), Err(answer->Err_0)));
                        assert(is_rename_error(rename, self.partial, self.out, cause));
                        remove(&self.partial);
                        Err(cause)
                    },
                    _ => Ok(()),
                }
            },
            FileStep::Remove { path: _, cause } => {
                assert(write.ensures((&self.partial,), Err(cause)));
                remove(&self.partial);
                Err(cause)
            },
            FileStep::Done => Ok(()),
        }
    }
}

/// How a shareable copy is muxed: an MP4 that can be streamed from its start.
#[derive(Debug)]
pub struct SharePlan {
    /// The muxer element.
    pub mux: &'static str,
    /// Whether the index comes before the media.
    pub faststart: bool,
    pub file: ClipFile,
}

/// The muxing of a shareable copy.
pub fn share_plan(output: &str) -> (r: SharePlan)
    ensures
        r.mux@ == mux_name(Container::Mp4),
        r.faststart,
        r.file.out@ == output@,
        r.file.wf(),
{
    SharePlan { mux: "mp4mux", faststart: true, file: ClipFile::new(output) }
}

/// One track of a muxed clip: the parser before the muxer, the media type, and the
/// buffers.
#[derive(Debug)]
pub struct TrackPlan {
    pub parse: &'static str,
    pub media_type: &'static str,
    pub buffers: Vec<MuxBuffer>,
}

/// How a clip is muxed.
#[derive(Debug)]
pub struct MuxPlan {
    /// The muxer element.
    pub mux: &'static str,
    pub video: TrackPlan,
    pub audio: Option<TrackPlan>,
    /// The codec of the audio track.
    pub audio_codec: AudioCodec,
    pub file: ClipFile,
}

/// The muxer element of a container.
pub open spec fn mux_name(container: Container) -> Seq<char> {
    match container {
        Container::Mp4 => "mp4mux"@,
        Container::Mkv => "matroskamux"@,
    }
}

/// The codec of a clip's audio: that of the captured audio, or the one in the settings.
pub open spec fn clip_audio_codec(
    audio_info: Option<AudioInfo>,
    settings: EncodeSettings,
) -> AudioCodec {
    match audio_info {
        Some(info) => info.codec,
        None => settings.audio_codec,
    }
}

/// Writes buffered packets to a container file.
#[derive(Debug)]
pub struct GstMuxer {}

impl GstMuxer {
    /// The muxing of a clip. Each track counts time from its own start, so that both
    /// start together; there is an audio track where there are audio packets. The file
    /// is written under another name until it is complete.
    pub fn write_clip(
        &self,
        video: &Vec<EncodedPacket>,
        audio: &Vec<EncodedPacket>,
        audio_info: Option<AudioInfo>,
        settings: &EncodeSettings,
        out: &str,
    ) -> (r: MuxPlan)
        ensures
            r.mux@ == mux_name(settings.container),
            r.video.parse@ == parser_name(settings.codec),
            r.video.media_type@ == media_type_name(settings.codec),
            mux_views(r.video.buffers@) == rebased(packet_views(video@)),
            r.audio is Some <==> audio@.len() > 0,
            r.audio_codec == clip_audio_codec(audio_info, *settings),
            r.audio matches Some(track) ==> {
                let codec = clip_audio_codec(audio_info, *settings);
                &&& track.parse@ == (if codec is Aac {
                    "aacparse"@
                } else {
                    "opusparse"@
                })
                &&& track.media_type@ == (if codec is Aac {
                    "audio/mpeg"@
                } else {
                    "audio/x-opus"@
                })
                &&& mux_views(track.buffers@) == rebased(packet_views(audio@))
            },
            r.file.out@ == out@,
            r.file.wf(),
    {
        let (parse, media_type) = stream_names(settings.codec);
        let mux = match settings.container {
            Container::Mp4 => "mp4mux",
            Container::Mkv => "matroskamux",
        };
        let video_track = TrackPlan { parse, media_type, buffers: rebase(video) };
        let audio_codec = match audio_info {
            Some(info) => info.codec,
            None => settings.audio_codec,
        };
        let audio_track = if audio.len() > 0 {
            let names = audio_elements(audio_codec);
            Some(
                TrackPlan {
                    parse: names.parse,
                    media_type: names.media_type,
                    buffers: rebase(audio),
                },
            )
        } else {
            None
        };
        MuxPlan {
            mux,
            video: video_track,
            audio: audio_track,
            audio_codec,
            file: ClipFile::new(out),
        }
    }
}

/// A message on the bus of the muxing pipeline, or that none has come for too long.
#[derive(Debug)]
pub enum BusMessage {
    Eos,
    /// Where the error came from, what it says, and what helps to find its cause.
    Error { source: String, error: String, debug: String },
    Other,
    TimedOut,
}

/// How a muxing pipeline goes on after a message.
#[derive(Debug)]
pub enum BusStep {
    Continue,
    /// The file is complete.
    Finished,
    Failed(EncodeError),
}

/// Takes a message of the muxing pipeline: the file is complete at the end of the
/// stream, and not where the messages stop before it.
pub fn on_bus_message(msg: BusMessage) -> (r: BusStep)
    ensures
        match msg {
            BusMessage::Eos => r is Finished,
            BusMessage::Other => r is Continue,
            BusMessage::Error { source, error, debug } => r matches BusStep::Failed(
                EncodeError::Backend(s),
            ) && s@ == "mux pipeline error from "@ + source@ + ": "@ + error@ + " ("@ + debug@
                + ")"@,
            BusMessage::TimedOut => r matches BusStep::Failed(EncodeError::Backend(s)) && s@
                == "mux pipeline timed out before EOS"@,
        },
{
    match msg {
        BusMessage::Eos => BusStep::Finished,
        BusMessage::Other => BusStep::Continue,
        BusMessage::Error { source, error, debug } => {
            let mut text = joined("mux pipeline error from ", source.as_str());
            text.append(": ");
            text.append(error.as_str());
            text.append(" (");
            text.append(debug.as_str());
            text.append(")");
            BusStep::Failed(EncodeError::Backend(text))
        },
        BusMessage::TimedOut => BusStep::Failed(
            EncodeError::Backend("mux pipeline timed out before EOS".to_owned()),
        ),
    }
}

// --- laws --------------------------------------------------------------------------

/// A fresh encoder takes frames exactly after a set-up that succeeded, and is then named
/// after the chosen element. A set-up that failed leaves it fresh.
pub proof fn law_failed_configure_leaves_the_encoder_fresh(
    audio: Option<AudioInfo>,
    outcome: Result<EncoderChoice, EncodeError>,
)
    ensures
        ({
            let after = after_configure(fresh_encoder(), audio, outcome);
            &&& after.configured <==> outcome is Ok
            &&& outcome matches Ok(choice) ==> after.name == "gstreamer:"@ + choice.enc@
                && after.audio == audio
            &&& outcome is Err ==> after == fresh_encoder()
        }),
{
}

/// Samples that are collected in two turns give the same packets as in one: none is lost
/// and none comes twice.
pub proof fn law_turns_add_up(
    first: Seq<Option<SampleBuffer>>,
    second: Seq<Option<SampleBuffer>>,
    track: Track,
)
    ensures
        packets_in(first + second, track) == packets_in(first, track) + packets_in(second, track),
    decreases second.len(),
{
    if second.len() == 0 {
        assert(first + second =~= first);
    } else {
        law_turns_add_up(first, second.drop_last(), track);
        assert((first + second).drop_last() =~= first + second.drop_last());
    }
    assert(packets_in(first + second, track) =~= packets_in(first, track) + packets_in(
        second,
        track,
    ));
}

/// Every sample with a buffer gives exactly one packet, with its track, behind those of
/// the samples before it; where the bytes of all can be mapped, all are collected and
/// nothing is left.
pub proof fn law_every_ready_sample_is_collected(
    samples: Seq<Option<SampleBuffer>>,
    track: Track,
    i: int,
)
    requires
        0 <= i < samples.len(),
        forall|j: int| 0 <= j < samples.len() ==> !is_unreadable(#[trigger] samples[j]),
    ensures
        collected(samples, track) == packets_in(samples, track),
        left_over(samples).len() == 0,
        ({
            let earlier = packets_in(samples.take(i), track).len() as int;
            let next = packets_in(samples.take(i + 1), track).len() as int;
            match samples[i] {
                Some(b) => {
                    &&& next == earlier + 1
                    &&& earlier < collected(samples, track).len()
                    &&& collected(samples, track)[earlier] == packet_of(b, track)
                    &&& collected(samples, track)[earlier].track == track
                },
                None => next == earlier,
            }
        }),
{
    lemma_all_readable(samples);
    assert(samples.take(samples.len() as int) =~= samples);
    assert(samples.take(i + 1) + samples.skip(i + 1) =~= samples);
    law_turns_add_up(samples.take(i + 1), samples.skip(i + 1), track);
    assert(samples.take(i + 1).drop_last() =~= samples.take(i));
}

proof fn lemma_all_readable(samples: Seq<Option<SampleBuffer>>)
    requires
        forall|j: int| 0 <= j < samples.len() ==> !is_unreadable(#[trigger] samples[j]),
    ensures
        readable_len(samples) == samples.len(),
    decreases samples.len(),
{
    if samples.len() > 0 {
        let rest = samples.skip(1);
        assert forall|j: int| 0 <= j < rest.len() implies !is_unreadable(#[trigger] rest[j]) by {
            assert(rest[j] == samples[j + 1]);
        }
        lemma_all_readable(rest);
        assert(!is_unreadable(samples[0]));
    }
}

/// The files by their paths after a step.
pub open spec fn files_after(files: Map<Seq<char>, Seq<u8>>, step: FileStep) -> Map<
    Seq<char>,
    Seq<u8>,
> {
    match step {
        FileStep::Rename { from, to } => files.remove(from@).insert(to@, files[from@]),
        FileStep::Remove { path, cause } => files.remove(path@),
        FileStep::Done => files,
    }
}

/// A clip is written atomically. While it is written, `before` becomes `during`, and only
/// the partial file differs. Then the clip is either the complete file, or what it was
/// before; the partial file is gone and no other file has changed.
pub proof fn law_clip_is_written_atomically(
    file: ClipFile,
    outcome: Result<(), EncodeError>,
    step: FileStep,
    before: Map<Seq<char>, Seq<u8>>,
    during: Map<Seq<char>, Seq<u8>>,
)
    requires
        file.wf(),
        follows_writing(file, outcome, step),
        during.remove(file.partial@) == before.remove(file.partial@),
    ensures
        outcome is Ok ==> files_after(during, step) == before.remove(file.partial@).insert(
            file.out@,
            during[file.partial@],
        ),
        outcome is Err ==> files_after(during, step) == before.remove(file.partial@),
        file.out@ != file.partial@,
{
    reveal_strlit(".part");
    assert(file.partial@.len() == file.out@.len() + 5);
}

/// A clip that cannot get its name leaves the clip of before in place, and no partial
/// file.
pub proof fn law_failed_rename_leaves_the_clip(
    file: ClipFile,
    e: String,
    step: FileStep,
    before: Map<Seq<char>, Seq<u8>>,
    during: Map<Seq<char>, Seq<u8>>,
)
    requires
        file.wf(),
        follows_renaming(file, Err(e), step),
        during.remove(file.partial@) == before.remove(file.partial@),
    ensures
        files_after(during, step) == before.remove(file.partial@),
{
}

/// A muxed track starts at 0: no timestamp is earlier, and one is 0.
pub proof fn law_track_starts_at_zero(track: Seq<PacketView>)
    requires
        track.len() > 0,
    ensures
        forall|i: int|
            0 <= i < track.len() ==> (#[trigger] rebased(track)[i]).pts_ns >= 0 && (rebased(
                track,
            )[i].dts_ns is Some ==> rebased(track)[i].dts_ns->0 >= 0),
        exists|i: int|
            0 <= i < track.len() && ((#[trigger] rebased(track)[i]).pts_ns == 0 || rebased(
                track,
            )[i].dts_ns == Some(0int)),
{
    lemma_origin(track);
    let r = rebased(track);
    assert forall|i: int| 0 <= i < track.len() implies (#[trigger] r[i]).pts_ns >= 0 && (
    r[i].dts_ns is Some ==> r[i].dts_ns->0 >= 0) by {
        assert(origin(track) <= first_stamp(track[i]));
    }
    let i = choose|i: int|
        0 <= i < track.len() && origin(track) == first_stamp(#[trigger] track[i]);
    assert(r[i].pts_ns == 0 || r[i].dts_ns == Some(0int));
}

/// Muxing keeps every packet of a track, its data, its place, its kind and the time
/// between any two of its timestamps.
pub proof fn law_rebase_keeps_spacing(track: Seq<PacketView>, i: int, j: int)
    requires
        0 <= i < track.len(),
        0 <= j < track.len(),
    ensures
        rebased(track).len() == track.len(),
        rebased(track)[i].data == track[i].data,
        rebased(track)[i].delta_unit == !track[i].is_keyframe,
        rebased(track)[i].pts_ns - rebased(track)[j].pts_ns == track[i].pts_ns - track[j].pts_ns,
        rebased(track)[i].dts_ns is Some <==> track[i].dts_ns is Some,
        track[i].dts_ns is Some ==> rebased(track)[i].pts_ns - rebased(track)[i].dts_ns->0
            == track[i].pts_ns - track[i].dts_ns->0,
{
}

/// A sample whose bytes can be mapped gives a packet with its bytes, its times and its
/// track; it is a keyframe exactly where it depends on no earlier one. A sample without a
/// time is at 0, and one without a buffer gives no packet.
pub proof fn law_packet_is_its_sample(
    b: SampleBuffer,
    track: Track,
    r: Result<Option<EncodedPacket>, EncodeError>,
    none: Result<Option<EncodedPacket>, EncodeError>,
)
    requires
        call_ensures(sample_to_packet, (Some(b), track), r),
        call_ensures(sample_to_packet, (None, track), none),
    ensures
        b.data matches Ok(data) ==> (r matches Ok(Some(p)) && {
            &&& p.data@ == data@
            &&& b.pts_ns matches Some(t) ==> p.pts_ns == t
            &&& b.pts_ns is None ==> p.pts_ns == 0
            &&& p.dts_ns == b.dts_ns
            &&& p.is_keyframe <==> !b.delta_unit
            &&& p.track == track
        }),
        b.data matches Err(e) ==> (r matches Err(EncodeError::Backend(s)) && s@
            == "map buffer readable: "@ + e@),
        none matches Ok(None),
{
}

/// Samples that can all be read give one packet each, in order: with the bytes, the times
/// and the kind of the sample. So the time between packets is that between their samples.
pub proof fn law_packets_keep_the_time_of_samples(
    samples: Seq<Option<SampleBuffer>>,
    track: Track,
    i: int,
    j: int,
)
    requires
        forall|k: int|
            0 <= k < samples.len() ==> (#[trigger] samples[k]) is Some && samples[k]->0.data is Ok
                && samples[k]->0.pts_ns is Some,
        0 <= i < samples.len(),
        0 <= j < samples.len(),
    ensures
        ({
            let packets = collected(samples, track);
            &&& packets.len() == samples.len()
            &&& packets[i].data == samples[i]->0.data->Ok_0@
            &&& packets[i].pts_ns == samples[i]->0.pts_ns->0
            &&& packets[i].dts_ns == samples[i]->0.dts_ns
            &&& packets[i].is_keyframe <==> !samples[i]->0.delta_unit
            &&& packets[i].track == track
            &&& packets[i].pts_ns - packets[j].pts_ns == samples[i]->0.pts_ns->0
                - samples[j]->0.pts_ns->0
        }),
        left_over(samples).len() == 0,
{
    assert forall|k: int| 0 <= k < samples.len() implies !is_unreadable(#[trigger] samples[k]) by {}
    lemma_all_readable(samples);
    assert(samples.take(samples.len() as int) =~= samples);
    lemma_one_packet_each(samples, track);
}

proof fn lemma_one_packet_each(samples: Seq<Option<SampleBuffer>>, track: Track)
    requires
        forall|k: int| 0 <= k < samples.len() ==> (#[trigger] samples[k]) is Some,
    ensures
        packets_in(samples, track).len() == samples.len(),
        forall|k: int|
            0 <= k < samples.len() ==> #[trigger] packets_in(samples, track)[k] == packet_of(
                samples[k]->0,
                track,
            ),
    decreases samples.len(),
{
    if samples.len() > 0 {
        let earlier = samples.drop_last();
        assert forall|k: int| 0 <= k < earlier.len() implies (#[trigger] earlier[k]) is Some by {
            assert(earlier[k] == samples[k]);
        }
        lemma_one_packet_each(earlier, track);
        assert(samples.last() == samples[samples.len() - 1]);
        assert forall|k: int| 0 <= k < samples.len() implies #[trigger] packets_in(
            samples,
            track,
        )[k] == packet_of(samples[k]->0, track) by {
            if k < earlier.len() {
                assert(packets_in(earlier, track)[k] == packet_of(earlier[k]->0, track));
            }
        }
    }
}

/// A sample without a buffer gives no packet, and one whose bytes cannot be mapped ends
/// the collecting: what comes before it is collected, and what comes after it is left.
pub proof fn law_unreadable_samples_end_the_collecting(
    first: Seq<Option<SampleBuffer>>,
    bad: SampleBuffer,
    rest: Seq<Option<SampleBuffer>>,
    track: Track,
)
    requires
        forall|k: int|
            0 <= k < first.len() ==> ((#[trigger] first[k]) matches Some(b) ==> b.data is Ok),
        bad.data is Err,
    ensures
        collected(first + seq![Some(bad)] + rest, track) == collected(first, track),
        left_over(first + seq![Some(bad)] + rest) == rest,
        collected(first.push(None), track) == collected(first, track),
{
    let all = first + seq![Some(bad)] + rest;
    let n = first.len() as int;
    lemma_readable_up_to(first, bad, rest);
    assert(all.take(n) =~= first);
    assert(all.skip(n + 1) =~= rest);
    assert forall|k: int| 0 <= k < first.len() implies !is_unreadable(#[trigger] first[k]) by {}
    lemma_all_readable(first);
    assert(first.take(n) =~= first);
    let more = first.push(None);
    assert forall|k: int| 0 <= k < more.len() implies !is_unreadable(#[trigger] more[k]) by {
        if k < n {
            assert(more[k] == first[k]);
        }
    }
    lemma_all_readable(more);
    assert(more.take(n + 1) =~= more);
    assert(more.drop_last() =~= first);
}

proof fn lemma_readable_up_to(
    first: Seq<Option<SampleBuffer>>,
    bad: SampleBuffer,
    rest: Seq<Option<SampleBuffer>>,
)
    requires
        forall|k: int|
            0 <= k < first.len() ==> ((#[trigger] first[k]) matches Some(b) ==> b.data is Ok),
        bad.data is Err,
    ensures
        readable_len(first + seq![Some(bad)] + rest) == first.len(),
    decreases first.len(),
{
    let all = first + seq![Some(bad)] + rest;
    if first.len() > 0 {
        assert(all[0] == first[0]);
        let tail = first.skip(1);
        assert forall|k: int| 0 <= k < tail.len() implies ((#[trigger] tail[k]) matches Some(b)
            ==> b.data is Ok) by {
            assert(tail[k] == first[k + 1]);
        }
        assert(all.skip(1) =~= tail + seq![Some(bad)] + rest);
        lemma_readable_up_to(tail, bad, rest);
    } else {
        assert(all[0] == Some(bad));
    }
}

/// Polling a configured encoder whose samples can all be read appends all of them to the
/// sink, the video ones with the video track and then the audio ones with the audio track,
/// and leaves none. What was in the sink stays.
pub proof fn law_poll_hands_out_every_sample(
    encoder: GstEncoder,
    ready: &mut Ready,
    sink: &mut Vec<EncodedPacket>,
    r: Result<(), EncodeError>,
    i: int,
)
    requires
        encoder@.configured,
        call_ensures(GstEncoder::poll, (&encoder, ready, sink), r),
        forall|k: int|
            0 <= k < old(ready).video@.len() ==> (#[trigger] old(ready).video@[k]) is Some
                && old(ready).video@[k]->0.data is Ok && old(ready).video@[k]->0.pts_ns is Some,
        forall|k: int|
            0 <= k < old(ready).audio@.len() ==> (#[trigger] old(ready).audio@[k]) is Some
                && old(ready).audio@[k]->0.data is Ok && old(ready).audio@[k]->0.pts_ns is Some,
    ensures
        ({
            let before = old(sink)@.len() as int;
            let v = old(ready).video@.len() as int;
            let a = old(ready).audio@.len() as int;
            &&& r is Ok
            &&& final(ready).video@.len() == 0
            &&& final(ready).audio@.len() == 0
            &&& final(sink)@.len() == before + v + a
            &&& 0 <= i < before ==> final(sink)@[i]@ == old(sink)@[i]@
            &&& 0 <= i < v ==> {
                let p = final(sink)@[before + i];
                let b = old(ready).video@[i]->0;
                &&& p.data@ == b.data->Ok_0@
                &&& Some(p.pts_ns) == b.pts_ns
                &&& p.dts_ns == b.dts_ns
                &&& p.is_keyframe <==> !b.delta_unit
                &&& p.track is Video
            }
            &&& 0 <= i < a ==> {
                let p = final(sink)@[before + v + i];
                let b = old(ready).audio@[i]->0;
                &&& p.data@ == b.data->Ok_0@
                &&& Some(p.pts_ns) == b.pts_ns
                &&& p.dts_ns == b.dts_ns
                &&& p.is_keyframe <==> !b.delta_unit
                &&& p.track is Audio
            }
        }),
{
    let v = old(ready).video@;
    let a = old(ready).audio@;
    let sunk = packet_views(old(sink)@);
    let filled = packet_views(final(sink)@);
    if v.len() > 0 {
        law_packets_keep_the_time_of_samples(v, Track::Video, 0, 0);
    } else {
        assert(v.take(0) =~= v);
    }
    if a.len() > 0 {
        law_packets_keep_the_time_of_samples(a, Track::Audio, 0, 0);
    } else {
        assert(a.take(0) =~= a);
    }
    assert forall|k: int| 0 <= k < v.len() implies !is_unreadable(#[trigger] v[k]) by {}
    assert forall|k: int| 0 <= k < a.len() implies !is_unreadable(#[trigger] a[k]) by {}
    lemma_all_readable(v);
    lemma_all_readable(a);
    assert(filled == sunk + collected(v, Track::Video) + collected(a, Track::Audio));
    assert(filled.len() == final(sink)@.len());
    if 0 <= i < old(sink)@.len() {
        assert(filled[i] == final(sink)@[i]@);
        assert(sunk[i] == old(sink)@[i]@);
    }
    if 0 <= i < v.len() {
        law_packets_keep_the_time_of_samples(v, Track::Video, i, i);
        assert(filled[sunk.len() + i] == collected(v, Track::Video)[i]);
        assert(filled[sunk.len() + i] == final(sink)@[sunk.len() + i]@);
    }
    if 0 <= i < a.len() {
        law_packets_keep_the_time_of_samples(a, Track::Audio, i, i);
        assert(filled[sunk.len() + v.len() + i] == collected(a, Track::Audio)[i]);
        assert(filled[sunk.len() + v.len() + i] == final(sink)@[sunk.len() + v.len() + i]@);
    }
}

/// Before it is configured an encoder is not polled: nothing is taken, and an error says
/// so.
pub proof fn law_poll_needs_a_set_up(
    encoder: GstEncoder,
    ready: &mut Ready,
    sink: &mut Vec<EncodedPacket>,
    r: Result<(), EncodeError>,
)
    requires
        !encoder@.configured,
        call_ensures(GstEncoder::poll, (&encoder, ready, sink), r),
    ensures
        r matches Err(EncodeError::Backend(s)) && s@ == "poll before configure"@,
        final(ready).video@ == old(ready).video@,
        final(ready).audio@ == old(ready).audio@,
        final(sink)@ == old(sink)@,
{
}

/// A track that is muxed has every packet in its place, with its bytes and its kind. Its
/// times are all moved by the same amount, so that the earliest of them is 0.
pub proof fn law_muxed_track_keeps_its_packets(
    track: Vec<EncodedPacket>,
    r: Vec<MuxBuffer>,
    i: int,
    j: int,
)
    requires
        call_ensures(rebase, (&track,), r),
        0 <= i < track@.len(),
        0 <= j < track@.len(),
    ensures
        r@.len() == track@.len(),
        r@[i].data@ == track@[i].data@,
        r@[i].delta_unit <==> !track@[i].is_keyframe,
        r@[i].pts_ns - r@[j].pts_ns == track@[i].pts_ns - track@[j].pts_ns,
        r@[i].dts_ns is Some <==> track@[i].dts_ns is Some,
        track@[i].dts_ns is Some ==> r@[i].pts_ns - r@[i].dts_ns->0 == track@[i].pts_ns
            - track@[i].dts_ns->0,
        exists|k: int|
            0 <= k < track@.len() && ((#[trigger] r@[k]).pts_ns == 0 || r@[k].dts_ns == Some(0u64)),
{
    let views = packet_views(track@);
    assert(views.len() == track@.len());
    let out = mux_views(r@);
    assert(out == rebased(views));
    assert(out.len() == r@.len());
    assert(views[i] == track@[i]@ && views[j] == track@[j]@);
    assert(out[i] == r@[i]@ && out[j] == r@[j]@);
    law_rebase_keeps_spacing(views, i, j);
    law_track_starts_at_zero(views);
    let k = choose|k: int|
        0 <= k < views.len() && ((#[trigger] rebased(views)[k]).pts_ns == 0 || rebased(
            views,
        )[k].dts_ns == Some(0int));
    assert(out[k] == r@[k]@);
    assert(r@[k].pts_ns == 0 || r@[k].dts_ns == Some(0u64));
}

/// A clip is muxed with all of its video and, where there is any, all of its audio: each
/// packet in its place, and the time between packets as it was. It is written beside the
/// clip, into the container and with the codecs that it has.
pub proof fn law_clip_is_muxed_whole(
    muxer: GstMuxer,
    video: Vec<EncodedPacket>,
    audio: Vec<EncodedPacket>,
    audio_info: Option<AudioInfo>,
    settings: EncodeSettings,
    out: &str,
    plan: MuxPlan,
    i: int,
    j: int,
)
    requires
        call_ensures(
            GstMuxer::write_clip,
            (&muxer, &video, &audio, audio_info, &settings, out),
            plan,
        ),
    ensures
        plan.video.buffers@.len() == video@.len(),
        0 <= i < video@.len() && 0 <= j < video@.len() ==> {
            let b = plan.video.buffers@;
            &&& b[i].data@ == video@[i].data@
            &&& b[i].delta_unit <==> !video@[i].is_keyframe
            &&& b[i].pts_ns - b[j].pts_ns == video@[i].pts_ns - video@[j].pts_ns
            &&& b[i].dts_ns is Some <==> video@[i].dts_ns is Some
        },
        plan.audio is Some <==> audio@.len() > 0,
        plan.audio matches Some(track) ==> track.buffers@.len() == audio@.len(),
        plan.audio is Some && 0 <= i < audio@.len() && 0 <= j < audio@.len() ==> {
            let b = plan.audio->0.buffers@;
            &&& b[i].data@ == audio@[i].data@
            &&& b[i].delta_unit <==> !audio@[i].is_keyframe
            &&& b[i].pts_ns - b[j].pts_ns == audio@[i].pts_ns - audio@[j].pts_ns
        },
        settings.container is Mp4 ==> plan.mux@ == "mp4mux"@,
        settings.container is Mkv ==> plan.mux@ == "matroskamux"@,
        settings.codec is H264 ==> plan.video.parse@ == "h264parse"@ && plan.video.media_type@
            == "video/x-h264"@,
        settings.codec is Hevc ==> plan.video.parse@ == "h265parse"@ && plan.video.media_type@
            == "video/x-h265"@,
        audio_info matches Some(info) ==> plan.audio_codec == info.codec,
        audio_info is None ==> plan.audio_codec == settings.audio_codec,
        plan.audio is Some && plan.audio_codec is Aac ==> plan.audio->0.parse@ == "aacparse"@
            && plan.audio->0.media_type@ == "audio/mpeg"@,
        plan.audio is Some && plan.audio_codec is Opus ==> plan.audio->0.parse@ == "opusparse"@
            && plan.audio->0.media_type@ == "audio/x-opus"@,
        plan.file.out@ == out@,
        plan.file.partial@ == out@ + ".part"@,
{
    let views = packet_views(video@);
    let moved = mux_views(plan.video.buffers@);
    assert(moved.len() == plan.video.buffers@.len());
    assert(views.len() == video@.len());
    if 0 <= i < video@.len() && 0 <= j < video@.len() {
        law_rebase_keeps_spacing(views, i, j);
        assert(moved[i] == plan.video.buffers@[i]@ && moved[j] == plan.video.buffers@[j]@);
        assert(views[i] == video@[i]@ && views[j] == video@[j]@);
    }
    if plan.audio is Some {
        let sounds = packet_views(audio@);
        let buffers = plan.audio->0.buffers@;
        let heard = mux_views(buffers);
        assert(heard.len() == buffers.len());
        assert(sounds.len() == audio@.len());
        if 0 <= i < audio@.len() && 0 <= j < audio@.len() {
            law_rebase_keeps_spacing(sounds, i, j);
            assert(heard[i] == buffers[i]@ && heard[j] == buffers[j]@);
            assert(sounds[i] == audio@[i]@ && sounds[j] == audio@[j]@);
        }
    }
}

/// The encoder of the VA-API is taken where it is registered, else that of NVENC, else the
/// software one; without any of them there is none.
pub proof fn law_hardware_comes_first<F: Fn(&'static str) -> bool>(
    codec: Codec,
    have: F,
    r: Result<EncoderChoice, EncodeError>,
)
    requires
        call_ensures(choose_encoder::<F>, (codec, have), r),
    ensures
        codec is H264 ==> match r {
            Ok(c) => {
                &&& c.parse@ == "h264parse"@ && c.media_type@ == "video/x-h264"@
                &&& {
                    ||| c.enc == "vaapih264enc" && have.ensures(("vaapih264enc",), true)
                        && !c.is_software
                    ||| c.enc == "nvh264enc" && have.ensures(("vaapih264enc",), false)
                        && have.ensures(("nvh264enc",), true) && !c.is_software
                    ||| c.enc == "x264enc" && have.ensures(("vaapih264enc",), false)
                        && have.ensures(("nvh264enc",), false) && have.ensures(("x264enc",), true)
                        && c.is_software
                }
            },
            Err(_) => have.ensures(("vaapih264enc",), false) && have.ensures(("nvh264enc",), false)
                && have.ensures(("x264enc",), false),
        },
        codec is Hevc ==> match r {
            Ok(c) => {
                &&& c.parse@ == "h265parse"@ && c.media_type@ == "video/x-h265"@
                &&& {
                    ||| c.enc == "vaapih265enc" && have.ensures(("vaapih265enc",), true)
                        && !c.is_software
                    ||| c.enc == "nvh265enc" && have.ensures(("vaapih265enc",), false)
                        && have.ensures(("nvh265enc",), true) && !c.is_software
                    ||| c.enc == "x265enc" && have.ensures(("vaapih265enc",), false)
                        && have.ensures(("nvh265enc",), false) && have.ensures(("x265enc",), true)
                        && c.is_software
                }
            },
            Err(_) => have.ensures(("vaapih265enc",), false) && have.ensures(("nvh265enc",), false)
                && have.ensures(("x265enc",), false),
        },
{
    let a = candidate(codec, 0);
    let b = candidate(codec, 1);
    let c = candidate(codec, 2);
    match r {
        Ok(choice) => {
            let i = choose|i: int|
                {
                    &&& 0 <= i < 3
                    &&& choice.enc == #[trigger] candidate(codec, i)
                    &&& have.ensures((candidate(codec, i),), true)
                    &&& forall|j: int|
                        0 <= j < i ==> have.ensures((#[trigger] candidate(codec, j),), false)
                    &&& choice.parse@ == parser_name(codec)
                    &&& choice.media_type@ == media_type_name(codec)
                    &&& choice.is_software == (i == 2)
                };
            assert(i == 0 || i == 1 || i == 2);
        },
        Err(_) => {},
    }
}

/// The encoder gets the bitrate and the keyframe interval of the settings, under every
/// name that it may know them by; a software encoder is tuned for latency.
pub proof fn law_encoder_gets_its_settings(
    choice: EncoderChoice,
    settings: EncodeSettings,
    r: Vec<Property>,
)
    requires
        call_ensures(encoder_properties, (&choice, &settings), r),
    ensures
        r@.contains(Property::Number { name: "bitrate", value: settings.bitrate_kbps }),
        r@.contains(Property::Number { name: "key-int-max", value: settings.keyframe_interval }),
        choice.is_software ==> r@.len() == 3 && r@.contains(
            Property::Text { name: "tune", text: "zerolatency" },
        ),
        !choice.is_software ==> r@.len() == 4 && r@.contains(
            Property::Number { name: "keyframe-period", value: settings.keyframe_interval },
        ) && r@.contains(Property::Number { name: "gop-size", value: settings.keyframe_interval }),
{
    if choice.is_software {
        assert(r@[0] == (Property::Number { name: "bitrate", value: settings.bitrate_kbps }));
        assert(r@[1] == (Property::Text { name: "tune", text: "zerolatency" }));
        assert(r@[2] == (Property::Number {
            name: "key-int-max",
            value: settings.keyframe_interval,
        }));
    } else {
        assert(r@[0] == (Property::Number { name: "bitrate", value: settings.bitrate_kbps }));
        assert(r@[1] == (Property::Number {
            name: "key-int-max",
            value: settings.keyframe_interval,
        }));
        assert(r@[2] == (Property::Number {
            name: "keyframe-period",
            value: settings.keyframe_interval,
        }));
        assert(r@[3] == (Property::Number { name: "gop-size", value: settings.keyframe_interval }));
    }
}

/// The raw video has the size, the rate and the layout of the stream, where they fit.
pub proof fn law_raw_video_is_the_stream(info: StreamInfo, r: RawCaps, name: &'static str)
    requires
        call_ensures(raw_caps, (info,), r),
        call_ensures(crate::media::PixelFormat::gst_format, (info.format,), name),
        info.width <= i32::MAX,
        info.height <= i32::MAX,
        info.framerate <= i32::MAX,
    ensures
        r.width == info.width,
        r.height == info.height,
        r.framerate == info.framerate,
        r.format@ == name@,
{
}

/// Audio is captured exactly where it is wanted: 48 kHz stereo in the wanted codec, with
/// a thousand bits for each kilobit.
pub proof fn law_audio_is_captured_as_wanted(
    settings: EncodeSettings,
    r: Option<AudioInfo>,
    bits: u32,
)
    requires
        call_ensures(audio_stream, (&settings,), r),
        call_ensures(audio_bits_per_second, (&settings,), bits),
    ensures
        r is Some <==> settings.capture_audio,
        r matches Some(info) ==> info.sample_rate == 48_000 && info.channels == 2 && info.codec
            == settings.audio_codec,
        settings.audio_bitrate_kbps * 1000 <= u32::MAX ==> bits == settings.audio_bitrate_kbps
            * 1000,
        settings.audio_bitrate_kbps * 1000 > u32::MAX ==> bits == u32::MAX,
{
}

/// Every video stream of a clip is made H.264 and every audio stream AAC in a shareable
/// copy, with the bitrates of the settings; other streams are left out.
pub proof fn law_shareable_copy_is_h264_and_aac(
    media: &str,
    r: Option<Vec<&'static str>>,
    video: bool,
    audio: bool,
    settings: EncodeSettings,
    element: &str,
    rate: Option<u32>,
)
    requires
        call_ensures(starts_with, (media, "video/"), video),
        call_ensures(starts_with, (media, "audio/"), audio),
        call_ensures(share_chain, (media,), r),
        call_ensures(share_bitrate, (element, &settings), rate),
    ensures
        video ==> (r matches Some(chain) && chain@ == seq![
            "queue",
            "videoconvert",
            "x264enc",
            "h264parse",
        ]),
        !video && audio ==> (r matches Some(chain) && chain@ == seq![
            "queue",
            "audioconvert",
            "audioresample",
            "avenc_aac",
            "aacparse",
        ]),
        !video && !audio ==> r is None,
        element@ == "x264enc"@ ==> rate == Some(settings.bitrate_kbps),
        element@ == "avenc_aac"@ && settings.audio_bitrate_kbps * 1000 <= u32::MAX ==> rate == Some(
            (settings.audio_bitrate_kbps * 1000) as u32,
        ),
        element@ != "x264enc"@ && element@ != "avenc_aac"@ ==> rate is None,
{
    reveal_strlit("x264enc");
    reveal_strlit("avenc_aac");
    assert("x264enc"@.len() != "avenc_aac"@.len());
}

/// A set-up that succeeded is taken over with what was built, and gives the encoder its
/// name and its audio; one that failed leaves the encoder as it was.
pub proof fn law_set_up_is_taken_over<T>(
    encoder: &mut GstEncoder,
    audio: Option<AudioInfo>,
    outcome: Result<(EncoderChoice, T), EncodeError>,
    r: Result<T, EncodeError>,
)
    requires
        call_ensures(GstEncoder::on_configured::<T>, (encoder, audio, outcome), r),
    ensures
        outcome matches Ok((choice, built)) ==> {
            &&& r == Ok::<T, EncodeError>(built)
            &&& final(encoder)@.name == "gstreamer:"@ + choice.enc@
            &&& final(encoder)@.configured
            &&& !final(encoder)@.eos_sent
            &&& final(encoder)@.audio == audio
        },
        outcome matches Err(e) ==> r == Err::<T, EncodeError>(e) && final(encoder)@.name == old(encoder)@.name && final(encoder)@.configured == old(encoder)@.configured
            && final(encoder)@.eos_sent == old(encoder)@.eos_sent && final(encoder)@.audio == old(encoder)@.audio,
{
}

/// A frame is pushed with its own bytes and its own time, and only into an encoder that is
/// set up.
pub proof fn law_frames_are_pushed_as_they_are<P: FnOnce(Vec<u8>, u64) -> Result<(), EncodeError>>(
    encoder: GstEncoder,
    frame: Frame,
    push: P,
    r: Result<(), EncodeError>,
)
    requires
        call_ensures(GstEncoder::push_frame::<P>, (&encoder, &frame, push), r),
    ensures
        !encoder@.configured ==> (r matches Err(EncodeError::Backend(s)) && s@
            == "push_frame before configure"@),
        encoder@.configured ==> exists|data: Vec<u8>|
            data@ == frame.data@ && #[trigger] push.ensures((data, frame.pts_ns), r),
{
}

/// A clip is written as `.part` beside its name.
pub proof fn law_partial_file(out: &str, r: ClipFile, share: SharePlan)
    requires
        call_ensures(ClipFile::new, (out,), r),
        call_ensures(share_plan, (out,), share),
    ensures
        r.out@ == out@,
        r.partial@ == out@ + ".part"@,
        share.file.out@ == out@,
        share.file.partial@ == out@ + ".part"@,
        share.mux@ == "mp4mux"@,
        share.faststart,
{
}

/// A complete file gets its name, and one that is not complete is removed, with the error
/// that came.
pub proof fn law_only_complete_files_get_their_name(
    file: ClipFile,
    written: Result<(), EncodeError>,
    first: FileStep,
    renamed: Result<(), String>,
    second: FileStep,
)
    requires
        call_ensures(ClipFile::on_written, (&file, written), first),
        call_ensures(ClipFile::on_renamed, (&file, renamed), second),
    ensures
        written is Ok ==> (first matches FileStep::Rename { from, to } && from@ == file.partial@
            && to@ == file.out@),
        written matches Err(e) ==> (first matches FileStep::Remove { path, cause } && path@
            == file.partial@ && cause == e),
        renamed is Ok ==> second is Done,
        renamed is Err ==> (second matches FileStep::Remove { path, cause } && path@
            == file.partial@),
{
}

/// A muxed file is complete at the end of the stream and at nothing else, and an error
/// says where it came from and why.
pub proof fn law_files_end_with_the_stream(msg: BusMessage, r: BusStep)
    requires
        call_ensures(on_bus_message, (msg,), r),
    ensures
        r is Finished <==> msg is Eos,
        r is Continue <==> msg is Other,
        r is Failed <==> msg is TimedOut || msg is Error,
        msg matches BusMessage::Error { source, error, debug } ==> (r matches BusStep::Failed(
            EncodeError::Backend(s),
        ) && s@ == "mux pipeline error from "@ + source@ + ": "@ + error@ + " ("@ + debug@ + ")"@),
{
}

/// One sample more at the end of samples that can all be read: it gives one packet more where
/// it has a buffer that can be read, and none otherwise. Where its bytes cannot be mapped, the
/// error says why. Nothing is left either way, and what was in the sink stays.
pub proof fn law_each_sample_is_collected(
    samples: &mut VecDeque<Option<SampleBuffer>>,
    sink: &mut Vec<EncodedPacket>,
    r: Result<(), EncodeError>,
    next: Option<SampleBuffer>,
    more: &mut VecDeque<Option<SampleBuffer>>,
    filled: &mut Vec<EncodedPacket>,
    s: Result<(), EncodeError>,
    track: Track,
)
    requires
        call_ensures(collect_track, (samples, track, sink), r),
        call_ensures(collect_track, (more, track, filled), s),
        old(more)@ == old(samples)@.push(next),
        packet_views(old(filled)@) == packet_views(old(sink)@),
        forall|k: int|
            0 <= k < old(samples)@.len() ==> ((#[trigger] old(samples)@[k]) matches Some(b)
                ==> b.data is Ok),
    ensures
        r is Ok && final(samples)@.len() == 0 && final(more)@.len() == 0,
        old(samples)@.len() == 0 ==> packet_views(final(sink)@) == packet_views(old(sink)@),
        next is None ==> s is Ok && packet_views(final(filled)@) == packet_views(final(sink)@),
        next matches Some(b) ==> (match b.data {
            Ok(data) => {
                &&& s is Ok
                &&& packet_views(final(filled)@) == packet_views(final(sink)@).push(
                    PacketView {
                        data: data@,
                        pts_ns: if b.pts_ns is Some {
                            b.pts_ns->0
                        } else {
                            0
                        },
                        dts_ns: b.dts_ns,
                        is_keyframe: !b.delta_unit,
                        track,
                    },
                )
            },
            Err(e) => {
                &&& s matches Err(EncodeError::Backend(text)) && text@ == "map buffer readable: "@
                    + e@
                &&& packet_views(final(filled)@) == packet_views(final(sink)@)
            },
        }),
{
    let all = old(samples)@;
    let longer = old(more)@;
    let n = all.len() as int;
    assert forall|k: int| 0 <= k < n implies !is_unreadable(#[trigger] all[k]) by {}
    lemma_all_readable(all);
    assert(all.take(n) =~= all);
    if n == 0 {
        assert(packets_in(all, track) =~= Seq::empty());
        assert(packet_views(old(sink)@) + packets_in(all, track) =~= packet_views(old(sink)@));
    }
    assert(longer.drop_last() =~= all);
    assert(longer.last() == next);
    if is_unreadable(next) {
        let none = Seq::<Option<SampleBuffer>>::empty();
        assert(longer =~= all + seq![Some(next->0)] + none);
        lemma_readable_up_to(all, next->0, none);
        assert(longer.take(n) =~= all);
        assert(longer.skip(n + 1) =~= none);
        assert(longer[n] == next);
    } else {
        assert forall|k: int| 0 <= k < longer.len() implies !is_unreadable(#[trigger] longer[k]) by {
            if k < n {
                assert(longer[k] == all[k]);
            }
        }
        lemma_all_readable(longer);
        assert(longer.take(n + 1) =~= longer);
        let before = packet_views(old(sink)@);
        match next {
            Some(b) => {
                assert(before + packets_in(all, track).push(packet_of(b, track)) =~= (before
                    + packets_in(all, track)).push(packet_of(b, track)));
            },
            None => {},
        }
    }
}

/// A sample whose bytes cannot be mapped ends the collecting of its track: those before it
/// are collected as if it were not there, it is dropped, and those after it are left.
pub proof fn law_collecting_ends_at_an_error(
    first: &mut VecDeque<Option<SampleBuffer>>,
    sink: &mut Vec<EncodedPacket>,
    r: Result<(), EncodeError>,
    bad: SampleBuffer,
    rest: Seq<Option<SampleBuffer>>,
    all: &mut VecDeque<Option<SampleBuffer>>,
    filled: &mut Vec<EncodedPacket>,
    s: Result<(), EncodeError>,
    track: Track,
)
    requires
        call_ensures(collect_track, (first, track, sink), r),
        call_ensures(collect_track, (all, track, filled), s),
        forall|k: int|
            0 <= k < old(first)@.len() ==> ((#[trigger] old(first)@[k]) matches Some(b)
                ==> b.data is Ok),
        bad.data is Err,
        old(all)@ == old(first)@ + seq![Some(bad)] + rest,
        packet_views(old(filled)@) == packet_views(old(sink)@),
    ensures
        packet_views(final(filled)@) == packet_views(final(sink)@),
        final(all)@ == rest,
        s matches Err(EncodeError::Backend(text)) && text@ == "map buffer readable: "@
            + bad.data->Err_0@,
{
    let a = old(first)@;
    let n = a.len() as int;
    law_unreadable_samples_end_the_collecting(a, bad, rest, track);
    lemma_readable_up_to(a, bad, rest);
    assert(old(all)@[n] == Some(bad));
}

/// The video samples are collected and then the audio samples; where a video sample ends the
/// collecting, the audio samples wait.
pub proof fn law_video_is_collected_first(
    ready: &mut Ready,
    sink: &mut Vec<EncodedPacket>,
    r: Result<(), EncodeError>,
    video: &mut VecDeque<Option<SampleBuffer>>,
    first: &mut Vec<EncodedPacket>,
    v: Result<(), EncodeError>,
    audio: &mut VecDeque<Option<SampleBuffer>>,
    second: &mut Vec<EncodedPacket>,
    a: Result<(), EncodeError>,
    fresh: Ready,
)
    requires
        call_ensures(Ready::collect, (ready, sink), r),
        call_ensures(collect_track, (video, Track::Video, first), v),
        old(video)@ == old(ready).video@,
        packet_views(old(first)@) == packet_views(old(sink)@),
        call_ensures(collect_track, (audio, Track::Audio, second), a),
        old(audio)@ == old(ready).audio@,
        packet_views(old(second)@) == packet_views(final(first)@),
        call_ensures(Ready::new, (), fresh),
    ensures
        final(ready).video@ == final(video)@,
        v is Err ==> r is Err && packet_views(final(sink)@) == packet_views(final(first)@)
            && final(ready).audio@ == old(ready).audio@,
        v is Ok ==> (r is Ok <==> a is Ok) && packet_views(final(sink)@) == packet_views(
            final(second)@,
        ) && final(ready).audio@ == final(audio)@,
        fresh.video@.len() == 0 && fresh.audio@.len() == 0,
{
}

/// Flushing an encoder that is set up ends the stream, once, and then collects what `pull`
/// brings, just as polling would; where the stream cannot be ended, or the encoder is not set
/// up, nothing is taken and the encoder stays as it was.
pub proof fn law_flush_collects_what_is_pulled<S, P>(
    encoder: &mut GstEncoder,
    ready: &mut Ready,
    sink: &mut Vec<EncodedPacket>,
    send_eos: S,
    pull: P,
    r: Result<(), EncodeError>,
    pulled: Ready,
    other: GstEncoder,
    there: &mut Ready,
    filled: &mut Vec<EncodedPacket>,
    s: Result<(), EncodeError>,
) where S: FnOnce() -> Result<(), EncodeError>, P: FnOnce(Ready) -> Ready
    requires
        call_ensures(GstEncoder::flush::<S, P>, (encoder, ready, sink, send_eos, pull), r),
        forall|made: Ready| pull.ensures((*old(ready),), made) ==> made == pulled,
        other@.configured,
        call_ensures(GstEncoder::poll, (&other, there, filled), s),
        *old(there) == pulled,
        packet_views(old(filled)@) == packet_views(old(sink)@),
    ensures
        old(encoder)@.configured && (old(encoder)@.eos_sent || forall|sent: Result<(), EncodeError>|
            send_eos.ensures((), sent) ==> sent is Ok) ==> {
            &&& final(encoder)@.eos_sent
            &&& r is Ok <==> s is Ok
            &&& packet_views(final(sink)@) == packet_views(final(filled)@)
            &&& final(ready).video@ == final(there).video@
            &&& final(ready).audio@ == final(there).audio@
        },
        !old(encoder)@.configured || (!old(encoder)@.eos_sent && forall|
            sent: Result<(), EncodeError>,
        |
            send_eos.ensures((), sent) ==> sent is Err) ==> {
            &&& r is Err
            &&& final(sink)@ == old(sink)@
            &&& final(ready).video@ == old(ready).video@
            &&& final(ready).audio@ == old(ready).audio@
            &&& final(encoder)@.eos_sent == old(encoder)@.eos_sent
        },
        !old(encoder)@.configured ==> (r matches Err(EncodeError::Backend(text)) && text@
            == "flush before configure"@),
        final(encoder)@.configured == old(encoder)@.configured,
        final(encoder)@.name == old(encoder)@.name,
        final(encoder)@.audio == old(encoder)@.audio,
{
}

/// A set-up chooses an element as it would be chosen on its own, builds with it, and takes
/// over what was built. The encoder is then named after the element, and has 48 kHz stereo
/// sound in the wanted codec exactly where sound is wanted.
pub proof fn law_encoder_is_set_up<F, B, T>(
    encoder: &mut GstEncoder,
    settings: EncodeSettings,
    have: F,
    build: B,
    r: Result<T, EncodeError>,
) where F: Fn(&'static str) -> bool, B: FnOnce(&EncoderChoice) -> Result<T, EncodeError>
    requires
        call_ensures(GstEncoder::configure::<F, B, T>, (encoder, &settings, have, build), r),
    ensures
        r matches Ok(built) ==> {
            &&& exists|choice: EncoderChoice| #[trigger]
                build.ensures((&choice,), Ok(built)) && final(encoder)@.name == "gstreamer:"@
                    + choice.enc@ && have.ensures((choice.enc,), true)
            &&& final(encoder)@.configured
            &&& !final(encoder)@.eos_sent
            &&& final(encoder)@.audio is Some <==> settings.capture_audio
            &&& final(encoder)@.audio matches Some(info) ==> info.sample_rate == 48_000
                && info.channels == 2 && info.codec == settings.audio_codec
        },
        r is Err ==> final(encoder)@.configured == old(encoder)@.configured && final(encoder)@.name
            == old(encoder)@.name && final(encoder)@.audio == old(encoder)@.audio && final(encoder)@.eos_sent == old(encoder)@.eos_sent,
        (forall|choice: EncoderChoice, o: Result<T, EncodeError>|
            build.ensures((&choice,), o) ==> o is Ok) && (forall|name: &'static str, o: bool|
            have.ensures((name,), o) ==> o) ==> r is Ok,
{
    if r is Ok {
        let built = r->Ok_0;
        let choice = choose|choice: EncoderChoice|
            {
                &&& is_choice(settings.codec, have, Ok(choice))
                &&& #[trigger] build.ensures((&choice,), Ok(built))
                &&& final(encoder)@ == after_configure(
                    old(encoder)@,
                    wanted_audio(settings),
                    Ok(choice),
                )
            };
        assert(build.ensures((&choice,), Ok(built)));
    } else {
        assert(have.ensures((candidate(settings.codec, 0),), false) || exists|
            choice: EncoderChoice,
        | #[trigger]
            build.ensures((&choice,), Err(r->Err_0)));
    }
}

/// A fresh encoder has no set-up, and neither an encoder nor a muxer is made without a
/// GStreamer that is initialised.
pub proof fn law_fresh_encoder(
    fresh: GstEncoder,
    encoder: GstEncoder,
    name: &str,
    audio: Option<AudioInfo>,
    made: Result<GstEncoder, EncodeError>,
    e: String,
    none: Result<GstEncoder, EncodeError>,
    muxer_made: Result<GstMuxer, EncodeError>,
    no_muxer: Result<GstMuxer, EncodeError>,
    context: &str,
    cause: &str,
    error: EncodeError,
)
    requires
        call_ensures(GstEncoder::new, (), fresh),
        call_ensures(GstEncoder::name, (&encoder,), name),
        call_ensures(GstEncoder::audio_info, (&encoder,), audio),
        call_ensures(self::encoder, (Ok(()),), made),
        call_ensures(self::encoder, (Err(e),), none),
        call_ensures(muxer, (Ok(()),), muxer_made),
        call_ensures(muxer, (Err(e),), no_muxer),
        call_ensures(backend, (context, cause), error),
    ensures
        !fresh@.configured && !fresh@.eos_sent && fresh@.audio is None,
        fresh@.name == "gstreamer"@,
        name@ == encoder@.name,
        audio == encoder@.audio,
        made matches Ok(enc) && !enc@.configured && !enc@.eos_sent && enc@.audio is None
            && enc@.name == "gstreamer"@,
        none matches Err(EncodeError::Backend(s)) && s@ == "gst::init failed: "@ + e@,
        muxer_made is Ok,
        no_muxer matches Err(EncodeError::Backend(s)) && s@ == "gst::init failed: "@ + e@,
        error matches EncodeError::Backend(s) && s@ == context@ + ": "@ + cause@,
{
}

/// A file is written under its partial name and renamed once it is complete. Where either
/// fails, the partial file is removed, and the error is the one that came.
pub proof fn law_file_is_written<W, R, D>(
    file: ClipFile,
    write: W,
    rename: R,
    remove: D,
    r: Result<(), EncodeError>,
) where
    W: FnOnce(&String) -> Result<(), EncodeError>,
    R: FnOnce(&String, &String) -> Result<(), String>,
    D: FnOnce(&String),

    requires
        call_ensures(ClipFile::write::<W, R, D>, (&file, write, rename, remove), r),
    ensures
        (forall|o: Result<(), EncodeError>| write.ensures((&file.partial,), o) ==> o is Ok) && (
        forall|o: Result<(), String>| rename.ensures((&file.partial, &file.out), o) ==> o is Ok)
            ==> r is Ok,
        (forall|o: Result<(), EncodeError>| write.ensures((&file.partial,), o) ==> o is Err) ==> r is Err
            && write.ensures((&file.partial,), r) && remove.ensures((&file.partial,), ()),
        (forall|o: Result<(), EncodeError>| write.ensures((&file.partial,), o) ==> o is Ok) && (
        forall|o: Result<(), String>| rename.ensures((&file.partial, &file.out), o) ==> o is Err)
            ==> r is Err && remove.ensures((&file.partial,), ()) && exists|cause: String| #[trigger]
            rename.ensures((&file.partial, &file.out), Err(cause)) && (
            r->Err_0 matches EncodeError::Backend(s) && s@ == "rename clip"@ + ": "@ + cause@),
{
    match r {
        Ok(_) => {
            let written = choose|outcome: Result<(), EncodeError>|
                outcome is Ok && #[trigger] write.ensures((&file.partial,), outcome);
            assert(written is Ok);
        },
        Err(e) => {
            if write.ensures((&file.partial,), Err(e)) {
            } else {
                let cause = choose|cause: String| #[trigger]
                    rename.ensures((&file.partial, &file.out), Err(cause)) && (
                    e matches EncodeError::Backend(s) && s@ == "rename clip"@ + ": "@ + cause@);
                assert(rename.ensures((&file.partial, &file.out), Err(cause)));
                let written = choose|outcome: Result<(), EncodeError>|
                    outcome is Ok && #[trigger] write.ensures((&file.partial,), outcome);
                assert(written is Ok);
            }
        },
    }
}

/// The elements of each audio codec, the device of each source, and numbers that do not fit.
pub proof fn law_audio_elements(
    codec: AudioCodec,
    r: AudioChoice,
    source: AudioSource,
    device: Option<&'static str>,
    settings: EncodeSettings,
    element: &str,
    rate: Option<u32>,
    bits: u32,
    info: StreamInfo,
    caps: RawCaps,
)
    requires
        call_ensures(audio_elements, (codec,), r),
        call_ensures(pulse_device, (source,), device),
        element@ == "avenc_aac"@,
        call_ensures(share_bitrate, (element, &settings), rate),
        call_ensures(audio_bits_per_second, (&settings,), bits),
        call_ensures(raw_caps, (info,), caps),
    ensures
        codec is Aac ==> r.enc@ == "avenc_aac"@ && r.parse@ == "aacparse"@ && r.media_type@
            == "audio/mpeg"@,
        codec is Opus ==> r.enc@ == "opusenc"@ && r.parse@ == "opusparse"@ && r.media_type@
            == "audio/x-opus"@,
        source is SystemMonitor ==> (device matches Some(name) && name@ == "@DEFAULT_MONITOR@"@),
        source is Microphone ==> device is None,
        rate == Some(bits),
        caps.width == info.width as i32 && caps.height == info.height as i32 && caps.framerate
            == info.framerate as i32,
{
    reveal_strlit("x264enc");
    reveal_strlit("avenc_aac");
    assert("x264enc"@.len() != "avenc_aac"@.len());
}

/// What is said where a codec has no encoder, where a file cannot get its name, and where the
/// messages stop before the end of the stream.
pub proof fn law_failures_are_told<F: Fn(&'static str) -> bool>(
    codec: Codec,
    have: F,
    r: Result<EncoderChoice, EncodeError>,
    file: ClipFile,
    e: String,
    step: FileStep,
    late: BusStep,
)
    requires
        call_ensures(choose_encoder::<F>, (codec, have), r),
        call_ensures(ClipFile::on_renamed, (&file, Err(e)), step),
        call_ensures(on_bus_message, (BusMessage::TimedOut,), late),
    ensures
        codec is H264 && r is Err ==> (r->Err_0 matches EncodeError::Unsupported(s) && s@
            == "no GStreamer encoder available for H264 (tried [\"vaapih264enc\", \"nvh264enc\", \"x264enc\"])"@),
        codec is Hevc && r is Err ==> (r->Err_0 matches EncodeError::Unsupported(s) && s@
            == "no GStreamer encoder available for Hevc (tried [\"vaapih265enc\", \"nvh265enc\", \"x265enc\"])"@),
        step matches FileStep::Remove { path, cause } && (cause matches EncodeError::Backend(s)
            && s@ == "rename clip"@ + ": "@ + e@),
        late matches BusStep::Failed(EncodeError::Backend(s)) && s@
            == "mux pipeline timed out before EOS"@,
{
}

} // verus!
