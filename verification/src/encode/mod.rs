//! Encoding and muxing: an encoder turns raw frames into encoded packets continuously,
//! and a muxer writes a buffered set of packets to a clip file.

pub mod gstreamer;

use crate::media::{AudioInfo, EncodeSettings, EncodedPacket, Frame, StreamInfo};
use crate::text::joined;
use vstd::prelude::*;
use vstd::string::*;

verus! {

#[derive(Debug)]
pub enum EncodeError {
    Unsupported(String),
    Backend(String),
}

/// What an error says.
pub open spec fn encode_message(e: EncodeError) -> Seq<char> {
    match e {
        EncodeError::Unsupported(s) => "encode unsupported: "@ + s@,
        EncodeError::Backend(s) => "encode backend error: "@ + s@,
    }
}

impl EncodeError {
    /// What the error says, for a user to read.
    pub fn message(&self) -> (r: String)
        ensures
            r@ == encode_message(*self),
    {
        match self {
            EncodeError::Unsupported(s) => joined("encode unsupported: ", s.as_str()),
            EncodeError::Backend(s) => joined("encode backend error: ", s.as_str()),
        }
    }
}

/// A continuous encoder: raw frames in, encoded packets out. Where audio capture is
/// enabled, the encoder also captures and encodes audio and hands out packets of the
/// audio track.
pub trait Encoder: Send {
    fn name(&self) -> &str;

    /// Configures the encoder for a negotiated video stream, once before any frame.
    fn configure(&mut self, info: StreamInfo, settings: &EncodeSettings) -> Result<
        (),
        EncodeError,
    >;

    /// Submits a raw video frame.
    fn push_frame(&mut self, frame: &Frame) -> Result<(), EncodeError>;

    /// Appends the encoded packets that are ready to `sink`.
    fn poll(&mut self, sink: &mut Vec<EncodedPacket>) -> Result<(), EncodeError>;

    /// Appends the remaining packets to `sink`.
    fn flush(&mut self, sink: &mut Vec<EncodedPacket>) -> Result<(), EncodeError>;

    /// Negotiated audio-track info, once configured with audio enabled.
    fn audio_info(&self) -> Option<AudioInfo>;
}

/// Muxes an ordered set of encoded packets into a container file. Where `audio` is not
/// empty, an audio track is muxed alongside the video.
pub trait Muxer: Send {
    fn write_clip(
        &self,
        video: &Vec<EncodedPacket>,
        info: StreamInfo,
        audio: &Vec<EncodedPacket>,
        audio_info: Option<AudioInfo>,
        settings: &EncodeSettings,
        out: &str,
    ) -> Result<(), EncodeError>;
}

/// Transcodes a saved clip into a shareable MP4 with the backend, where one is built in.
pub fn convert_to_shareable<F>(
    input: &str,
    output: &str,
    settings: &EncodeSettings,
    backend: Option<F>,
) -> (r: Result<(), EncodeError>) where
    F: FnOnce(&str, &str, &EncodeSettings) -> Result<(), EncodeError>,

    requires
        backend matches Some(f) ==> f.requires((input, output, settings)),
    ensures
        match backend {
            Some(f) => f.ensures((input, output, settings), r),
            None => r matches Err(EncodeError::Unsupported(s)) && s@
                == "auto-convert needs the `encode-gstreamer` feature"@,
        },
{
    match backend {
        Some(f) => f(input, output, settings),
        None => Err(
            EncodeError::Unsupported(
                "auto-convert needs the `encode-gstreamer` feature".to_owned(),
            ),
        ),
    }
}

/// The encoder backend, where one is built in.
pub fn create_encoder(built: Option<Result<Box<dyn Encoder>, EncodeError>>) -> (r: Result<
    Box<dyn Encoder>,
    EncodeError,
>)
    ensures
        match built {
            Some(opened) => r == opened,
            None => r matches Err(EncodeError::Unsupported(s)) && s@
                == "no encoder built (enable feature `encode-gstreamer`)"@,
        },
{
    match built {
        Some(opened) => opened,
        None => Err(
            EncodeError::Unsupported(
                "no encoder built (enable feature `encode-gstreamer`)".to_owned(),
            ),
        ),
    }
}

/// The muxer backend, where one is built in.
pub fn create_muxer(built: Option<Result<Box<dyn Muxer>, EncodeError>>) -> (r: Result<
    Box<dyn Muxer>,
    EncodeError,
>)
    ensures
        match built {
            Some(opened) => r == opened,
            None => r matches Err(EncodeError::Unsupported(s)) && s@
                == "no muxer built (enable feature `encode-gstreamer`)"@,
        },
{
    match built {
        Some(opened) => opened,
        None => Err(
            EncodeError::Unsupported(
                "no muxer built (enable feature `encode-gstreamer`)".to_owned(),
            ),
        ),
    }
}

/// An error says what kind it is and why.
pub proof fn law_encode_errors_say_why(e: EncodeError, r: String)
    requires
        call_ensures(EncodeError::message, (&e,), r),
    ensures
        r@ == encode_message(e),
        e matches EncodeError::Unsupported(s) ==> r@ == "encode unsupported: "@ + s@,
        e matches EncodeError::Backend(s) ==> r@ == "encode backend error: "@ + s@,
{
}

/// A backend that is built in is taken as it was made, and one that is not is unsupported.
pub proof fn law_built_backends_are_taken(
    encoder: Result<Box<dyn Encoder>, EncodeError>,
    encoder_made: Result<Box<dyn Encoder>, EncodeError>,
    no_encoder: Result<Box<dyn Encoder>, EncodeError>,
    muxer: Result<Box<dyn Muxer>, EncodeError>,
    muxer_made: Result<Box<dyn Muxer>, EncodeError>,
    no_muxer: Result<Box<dyn Muxer>, EncodeError>,
)
    requires
        call_ensures(create_encoder, (Some(encoder),), encoder_made),
        call_ensures(create_encoder, (None,), no_encoder),
        call_ensures(create_muxer, (Some(muxer),), muxer_made),
        call_ensures(create_muxer, (None,), no_muxer),
    ensures
        encoder_made == encoder,
        muxer_made == muxer,
        no_encoder matches Err(EncodeError::Unsupported(s)) && s@
            == "no encoder built (enable feature `encode-gstreamer`)"@,
        no_muxer matches Err(EncodeError::Unsupported(s)) && s@
            == "no muxer built (enable feature `encode-gstreamer`)"@,
{
}

/// A conversion hands the clip, its copy and the settings to the backend as they are.
pub proof fn law_conversion_is_handed_on<F>(
    input: &str,
    output: &str,
    settings: EncodeSettings,
    backend: F,
    r: Result<(), EncodeError>,
    none: Result<(), EncodeError>,
) where F: FnOnce(&str, &str, &EncodeSettings) -> Result<(), EncodeError>
    requires
        call_ensures(convert_to_shareable::<F>, (input, output, &settings, Some(backend)), r),
        call_ensures(convert_to_shareable::<F>, (input, output, &settings, None), none),
    ensures
        backend.ensures((input, output, &settings), r),
        none matches Err(EncodeError::Unsupported(s)) && s@
            == "auto-convert needs the `encode-gstreamer` feature"@,
{
}

} // verus!
