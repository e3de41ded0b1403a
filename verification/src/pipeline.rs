//! The runtime pipeline: capture, encode, rolling buffer, save.
//!
//! A pipeline is started and stopped; its core holds the buffers, the configuration and
//! what was negotiated, and decides on every save. What is to be reported comes back as
//! events, so that any front-end can react.

use crate::buffer::{
    age, from_keyframe, has_stayed, in_time_order, is_kept, is_stale,
    law_ring_holds_the_last_window, law_snapshot_starts_on_keyframe, ring_fits, ClipBuffer, Ring,
};
use crate::capture::{capture_message, CaptureError};
use crate::config::{clip_path, share_path, Config};
use crate::encode::{encode_message, EncodeError, Muxer};
use crate::hotkey::{hotkey_message, HotkeyError};
use crate::media::{
    packet_views, AudioInfo, CaptureTarget, EncodeSettings, EncodedPacket, Frame, PacketView,
    StreamInfo, Track,
};
use crate::path::{parent, parent_of};
use crate::text::{decimal, joined, joined3, opt_text, u64_text};
use vstd::prelude::*;
use vstd::string::*;

verus! {

/// What the pipeline reports to its front-end.
#[derive(Debug)]
pub enum PipelineEvent {
    Status(String),
    /// A clip was written to this path.
    ClipSaved(String),
    /// A shareable copy was written to this path.
    ClipConverted(String),
    Error(String),
}

impl Clone for PipelineEvent {
    fn clone(&self) -> (r: PipelineEvent)
        ensures
            r == *self,
    {
        match self {
            PipelineEvent::Status(s) => PipelineEvent::Status(s.clone()),
            PipelineEvent::ClipSaved(s) => PipelineEvent::ClipSaved(s.clone()),
            PipelineEvent::ClipConverted(s) => PipelineEvent::ClipConverted(s.clone()),
            PipelineEvent::Error(s) => PipelineEvent::Error(s.clone()),
        }
    }
}

// --- core --------------------------------------------------------------------------

/// The shared state of a pipeline: one rolling buffer for each track, the settings, and
/// what was negotiated.
pub struct PipelineCore {
    buffer: ClipBuffer,
    audio: ClipBuffer,
    config: Config,
    stream_info: Option<StreamInfo>,
    audio_info: Option<AudioInfo>,
    saving: bool,
}

/// What the core of a pipeline holds.
#[verifier::ext_equal]
pub struct CoreState {
    pub video: Ring,
    pub audio: Ring,
    pub config: Config,
    pub stream_info: Option<StreamInfo>,
    pub audio_info: Option<AudioInfo>,
    /// Whether a clip is being written.
    pub saving: bool,
}

impl View for PipelineCore {
    type V = CoreState;

    closed spec fn view(&self) -> CoreState {
        CoreState {
            video: self.buffer@,
            audio: self.audio@,
            config: self.config,
            stream_info: self.stream_info,
            audio_info: self.audio_info,
            saving: self.saving,
        }
    }
}

impl CoreState {
    pub open spec fn wf(self) -> bool {
        self.video.wf() && self.audio.wf()
    }

    /// The core with a packet in the ring of its track.
    pub open spec fn absorbed(self, packet: PacketView) -> CoreState {
        match packet.track {
            Track::Video => CoreState { video: self.video.pushed(packet), ..self },
            Track::Audio => CoreState { audio: self.audio.pushed(packet), ..self },
        }
    }

    /// The core with packets in the rings of their tracks.
    pub open spec fn absorbed_all(self, packets: Seq<PacketView>) -> CoreState
        decreases packets.len(),
    {
        if packets.len() == 0 {
            self
        } else {
            self.absorbed_all(packets.drop_last()).absorbed(packets.last())
        }
    }

    /// The core as capture starts: empty rings for the settings, nothing negotiated.
    pub open spec fn restarted(self) -> CoreState {
        CoreState {
            video: Ring::empty(self.config.buffer_seconds, self.config.target_fps),
            audio: Ring::empty(self.config.buffer_seconds, audio_rate(self.config)),
            stream_info: None,
            audio_info: None,
            ..self
        }
    }
}

/// Audio packets in a second, for which the audio ring has room at least: more than
/// common codecs make.
pub const AUDIO_PACKETS_PER_SECOND: u32 = 50;

/// The packet rate that the audio ring is made for.
pub open spec fn audio_rate(config: Config) -> u32 {
    if config.target_fps < AUDIO_PACKETS_PER_SECOND && ring_fits(
        config.buffer_seconds,
        AUDIO_PACKETS_PER_SECOND,
    ) {
        AUDIO_PACKETS_PER_SECOND
    } else {
        config.target_fps
    }
}

/// Why a save is not started.
pub enum Refusal {
    /// Another one is in progress.
    Busy,
    /// Nothing has been captured.
    NotCapturing,
    /// The buffer is empty.
    Empty,
}

/// Whether and why a save is refused.
pub open spec fn refusal(c: CoreState) -> Option<Refusal> {
    if c.saving {
        Some(Refusal::Busy)
    } else if c.stream_info is None {
        Some(Refusal::NotCapturing)
    } else if c.video.packets.len() == 0 {
        Some(Refusal::Empty)
    } else {
        None
    }
}

/// What is reported of a refused save.
pub open spec fn is_refusal_event(event: PipelineEvent, why: Refusal) -> bool {
    match why {
        Refusal::Busy => event matches PipelineEvent::Status(s) && s@
            == "save already in progress"@,
        Refusal::NotCapturing => event matches PipelineEvent::Error(s) && s@
            == "nothing to save yet — capture is not running"@,
        Refusal::Empty => event matches PipelineEvent::Error(s) && s@ == "buffer is empty"@,
    }
}

/// A clip to write.
pub struct SaveJob {
    pub video: Vec<EncodedPacket>,
    pub info: StreamInfo,
    pub audio: Vec<EncodedPacket>,
    pub audio_info: Option<AudioInfo>,
    pub settings: EncodeSettings,
    /// The file to write.
    pub out: String,
    /// The folder of the file, which may have to be made first.
    pub folder: Option<String>,
    /// Whether a reference to the clip goes to the clipboard.
    pub copy: bool,
}

/// Whether a job writes what a core holds at a time in seconds.
pub open spec fn is_job_of(job: SaveJob, c: CoreState, secs: u64) -> bool {
    &&& packet_views(job.video@) == from_keyframe(c.video.packets)
    &&& c.stream_info == Some(job.info)
    &&& packet_views(job.audio@) == from_keyframe(c.audio.packets)
    &&& job.audio_info == c.audio_info
    &&& job.settings == c.config.settings()
    &&& job.out@ == clip_path(c.config.output_dir@, secs, c.config.container)
    &&& opt_text(job.folder) == parent_of(job.out@)
    &&& job.copy == c.config.copy_to_clipboard
}

/// The outcome of asking for a save.
pub enum SaveStart {
    Refused(PipelineEvent),
    Started(SaveJob),
}

/// A copy to make of a saved clip.
#[derive(Debug)]
pub struct Conversion {
    pub input: String,
    pub output: String,
}

/// What follows when a clip was written, or could not be.
#[derive(Debug)]
pub struct AfterSave {
    pub event: PipelineEvent,
    /// The shareable copy to make.
    pub convert: Option<Conversion>,
    /// The file to put on the clipboard.
    pub copy: Option<String>,
}

impl PipelineCore {
    /// A core for a configuration, with nothing captured.
    pub fn new(config: Config) -> (r: PipelineCore)
        requires
            config.in_range(),
        ensures
            r@.wf(),
            r@.config == config,
            r@.video == Ring::empty(config.buffer_seconds, config.target_fps),
            r@.audio == Ring::empty(config.buffer_seconds, audio_rate(config)),
            r@.stream_info is None,
            r@.audio_info is None,
            !r@.saving,
    {
        let buffer = ClipBuffer::new(config.buffer_seconds, config.target_fps);
        let audio = ClipBuffer::new(config.buffer_seconds, audio_rate_of(&config));
        PipelineCore {
            buffer,
            audio,
            config,
            stream_info: None,
            audio_info: None,
            saving: false,
        }
    }

    /// The ring of the video track.
    pub fn buffer(&self) -> (r: &ClipBuffer)
        ensures
            r@ == self@.video,
    {
        &self.buffer
    }

    /// The ring of the audio track.
    pub fn audio(&self) -> (r: &ClipBuffer)
        ensures
            r@ == self@.audio,
    {
        &self.audio
    }

    /// The settings.
    pub fn config(&self) -> (r: &Config)
        ensures
            *r == self@.config,
    {
        &self.config
    }

    pub fn stream_info(&self) -> (r: Option<StreamInfo>)
        ensures
            r == self@.stream_info,
    {
        self.stream_info
    }

    pub fn audio_info(&self) -> (r: Option<AudioInfo>)
        ensures
            r == self@.audio_info,
    {
        self.audio_info
    }

    pub fn is_saving(&self) -> (r: bool)
        ensures
            r == self@.saving,
    {
        self.saving
    }

    /// Takes new settings.
    pub fn set_config(&mut self, config: Config)
        ensures
            final(self)@ == (CoreState { config, ..old(self)@ }),
    {
        self.config = config;
    }

    /// Takes what was negotiated for the video and for the audio.
    pub fn set_stream_info(&mut self, info: StreamInfo, audio: Option<AudioInfo>)
        ensures
            final(self)@ == (CoreState {
                stream_info: Some(info),
                audio_info: audio,
                ..old(self)@
            }),
    {
        self.stream_info = Some(info);
        self.audio_info = audio;
    }

    /// Puts an encoded packet into the ring of its track.
    pub fn absorb(&mut self, packet: EncodedPacket)
        requires
            old(self)@.wf(),
        ensures
            final(self)@ == old(self)@.absorbed(packet@),
            final(self)@.wf(),
    {
        match packet.track {
            Track::Video => self.buffer.push(packet),
            Track::Audio => self.audio.push(packet),
        }
    }

    /// Puts encoded packets, in order, into the rings of their tracks.
    pub fn absorb_all(&mut self, packets: &Vec<EncodedPacket>)
        requires
            old(self)@.wf(),
        ensures
            final(self)@ == old(self)@.absorbed_all(packet_views(packets@)),
            final(self)@.wf(),
    {
        let ghost views = packet_views(packets@);
        let ghost before = self@;
        for i in 0..packets.len()
            invariant
                views == packet_views(packets@),
                self@ == before.absorbed_all(views.take(i as int)),
                self@.wf(),
        {
            assert(views.take(i + 1).drop_last() =~= views.take(i as int));
            self.absorb(packets[i].clone());
        }
        assert(views.take(views.len() as int) =~= views);
    }

    /// Makes the rings anew for the current settings and forgets what was negotiated.
    pub fn restart(&mut self)
        requires
            old(self)@.config.in_range(),
        ensures
            final(self)@ == old(self)@.restarted(),
            final(self)@.wf(),
    {
        self.buffer = ClipBuffer::new(self.config.buffer_seconds, self.config.target_fps);
        self.audio = ClipBuffer::new(self.config.buffer_seconds, audio_rate_of(&self.config));
        self.stream_info = None;
        self.audio_info = None;
    }

    /// Asks for a save of what the buffers hold, `secs` seconds after the Unix epoch.
    /// One save is in progress at a time, and there must be something to save.
    pub fn save_last_n(&mut self, secs: u64) -> (r: SaveStart)
        requires
            refusal(old(self)@) is None ==> old(self)@.config.target_fps * 2 <= u32::MAX,
        ensures
            match r {
                SaveStart::Refused(event) => {
                    &&& final(self)@ == old(self)@
                    &&& refusal(old(self)@) is Some
                    &&& is_refusal_event(event, refusal(old(self)@)->0)
                },
                SaveStart::Started(job) => {
                    &&& final(self)@ == (CoreState { saving: true, ..old(self)@ })
                    &&& refusal(old(self)@) is None
                    &&& is_job_of(job, old(self)@, secs)
                },
            },
    {
        if self.saving {
            return SaveStart::Refused(
                PipelineEvent::Status("save already in progress".to_owned()),
            );
        }
        let info = match self.stream_info {
            Some(info) => info,
            None => {
                return SaveStart::Refused(
                    PipelineEvent::Error(
                        "nothing to save yet — capture is not running".to_owned(),
                    ),
                );
            },
        };
        if self.buffer.is_empty() {
            return SaveStart::Refused(PipelineEvent::Error("buffer is empty".to_owned()));
        }
        let video = self.buffer.snapshot();
        let audio = self.audio.snapshot();
        let settings = self.config.encode_settings();
        let out = self.config.new_clip_path(secs);
        let folder = parent(out.as_str());
        self.saving = true;
        SaveStart::Started(
            SaveJob {
                video,
                info,
                audio,
                audio_info: self.audio_info,
                settings,
                out,
                folder,
                copy: self.config.copy_to_clipboard,
            },
        )
    }

    /// Ends a save, once its outcome has been reported: another can be asked for.
    pub fn finish_save(&mut self)
        ensures
            final(self)@ == (CoreState { saving: false, ..old(self)@ }),
    {
        self.saving = false;
    }
}

/// What follows on a save, which depends on whether the clip was written.
pub fn after_save(job: &SaveJob, result: Result<(), EncodeError>) -> (r: AfterSave)
    ensures
        match result {
            Ok(_) => {
                &&& r.event matches PipelineEvent::ClipSaved(p) && p@ == job.out@
                &&& r.convert is Some <==> job.settings.auto_convert
                &&& r.convert matches Some(c) ==> c.input@ == job.out@ && c.output@ == share_path(
                    job.out@,
                )
                &&& opt_text(r.copy) == (if job.copy {
                    Some(job.out@)
                } else {
                    None
                })
            },
            Err(e) => {
                &&& r.event matches PipelineEvent::Error(s) && s@ == "save failed: "@
                    + encode_message(e)
                &&& r.convert is None
                &&& r.copy is None
            },
        },
{
    match result {
        Ok(_) => {
            let convert = if job.settings.auto_convert {
                Some(
                    Conversion {
                        input: job.out.clone(),
                        output: Config::shareable_path(job.out.as_str()),
                    },
                )
            } else {
                None
            };
            let copy = if job.copy {
                Some(job.out.clone())
            } else {
                None
            };
            AfterSave { event: PipelineEvent::ClipSaved(job.out.clone()), convert, copy }
        },
        Err(e) => {
            let text = e.message();
            AfterSave {
                event: PipelineEvent::Error(joined("save failed: ", text.as_str())),
                convert: None,
                copy: None,
            }
        },
    }
}

fn audio_rate_of(config: &Config) -> (r: u32)
    requires
        config.in_range(),
    ensures
        r == audio_rate(*config),
        ring_fits(config.buffer_seconds, r),
{
    let seconds: u64 = if config.buffer_seconds == 0 {
        1
    } else {
        config.buffer_seconds as u64
    };
    let rate: u64 = AUDIO_PACKETS_PER_SECOND as u64;
    assert(seconds * rate <= u32::MAX * 50) by (nonlinear_arith)
        requires
            0 <= seconds <= u32::MAX,
            rate == 50,
    ;
    if config.target_fps < AUDIO_PACKETS_PER_SECOND && seconds * rate <= u32::MAX as u64 {
        AUDIO_PACKETS_PER_SECOND
    } else {
        config.target_fps
    }
}

/// Writes the clip of a job with a muxer, where there is one.
pub fn write_clip<M: Muxer + ?Sized>(job: &SaveJob, muxer: Result<&M, EncodeError>) -> (r: Result<
    (),
    EncodeError,
>)
    ensures
        match muxer {
            Ok(m) => exists|out: &str|
                out@ == job.out@ && #[trigger] call_ensures(
                    M::write_clip,
                    (
                        m,
                        &job.video,
                        job.info,
                        &job.audio,
                        job.audio_info,
                        &job.settings,
                        out,
                    ),
                    r,
                ),
            Err(e) => r == Err::<(), EncodeError>(e),
        },
{
    match muxer {
        Ok(m) => m.write_clip(
            &job.video,
            job.info,
            &job.audio,
            job.audio_info,
            &job.settings,
            job.out.as_str(),
        ),
        Err(e) => Err(e),
    }
}

/// What is reported of a shareable copy.
pub fn after_convert(output: &str, result: Result<(), EncodeError>) -> (r: PipelineEvent)
    ensures
        match result {
            Ok(_) => r matches PipelineEvent::ClipConverted(p) && p@ == output@,
            Err(e) => r matches PipelineEvent::Error(s) && s@ == "auto-convert failed: "@
                + encode_message(e),
        },
{
    match result {
        Ok(_) => PipelineEvent::ClipConverted(output.to_owned()),
        Err(e) => {
            let text = e.message();
            PipelineEvent::Error(joined("auto-convert failed: ", text.as_str()))
        },
    }
}

/// What is reported of a copy to the clipboard.
pub fn after_copy(result: Result<String, String>) -> (r: PipelineEvent)
    ensures
        match result {
            Ok(text) => r matches PipelineEvent::Status(s) && s@ == text@,
            Err(e) => r matches PipelineEvent::Error(s) && s@ == "clipboard copy failed: "@ + e@,
        },
{
    match result {
        Ok(text) => PipelineEvent::Status(text),
        Err(e) => PipelineEvent::Error(joined("clipboard copy failed: ", e.as_str())),
    }
}

// --- encode worker -----------------------------------------------------------------

/// The worker that hands frames to the encoder.
#[derive(Debug)]
pub struct EncodeWorker {
    fps: u32,
    has_encoder: bool,
    configured: bool,
}

/// What the worker has come to.
pub struct WorkerState {
    /// The frame rate of the settings.
    pub fps: u32,
    pub has_encoder: bool,
    /// Whether the encoder was configured for a first frame.
    pub configured: bool,
}

impl View for EncodeWorker {
    type V = WorkerState;

    closed spec fn view(&self) -> WorkerState {
        WorkerState { fps: self.fps, has_encoder: self.has_encoder, configured: self.configured }
    }
}

/// What is done with a frame.
#[derive(Debug, Clone, Copy, PartialEq, Eq, Structural)]
pub enum FrameStep {
    /// There is no encoder.
    Drop,
    /// Configure the encoder for this stream.
    Configure(StreamInfo),
    /// Push the frame.
    Push,
}

/// What is done with a frame after a step of the encoder.
#[derive(Debug)]
pub enum NextStep {
    /// Report the event and go on to the next frame: nothing is pushed and nothing is
    /// polled.
    Drop(PipelineEvent),
    /// Push the frame.
    Push,
    /// Poll the encoder for packets.
    Poll,
}

impl EncodeWorker {
    /// A worker, and what is reported where no encoder could be made.
    pub fn new(fps: u32, failure: Option<EncodeError>) -> (r: (EncodeWorker, Option<PipelineEvent>))
        ensures
            r.0@ == (WorkerState { fps, has_encoder: failure is None, configured: false }),
            match failure {
                None => r.1 is None,
                Some(e) => r.1 matches Some(PipelineEvent::Status(s)) && s@
                    == "capture running without an encoder: "@ + encode_message(e),
            },
    {
        match failure {
            None => (EncodeWorker { fps, has_encoder: true, configured: false }, None),
            Some(e) => {
                let text = e.message();
                (
                    EncodeWorker { fps, has_encoder: false, configured: false },
                    Some(
                        PipelineEvent::Status(
                            joined("capture running without an encoder: ", text.as_str()),
                        ),
                    ),
                )
            },
        }
    }

    /// Takes a frame: the first one says for what stream the encoder is configured.
    pub fn on_frame(&self, frame: &Frame) -> (r: FrameStep)
        ensures
            r == (if !self@.has_encoder {
                FrameStep::Drop
            } else if self@.configured {
                FrameStep::Push
            } else {
                FrameStep::Configure(
                    StreamInfo {
                        width: frame.width,
                        height: frame.height,
                        framerate: self@.fps,
                        format: frame.format,
                    },
                )
            }),
    {
        if !self.has_encoder {
            FrameStep::Drop
        } else if self.configured {
            FrameStep::Push
        } else {
            FrameStep::Configure(
                StreamInfo {
                    width: frame.width,
                    height: frame.height,
                    framerate: self.fps,
                    format: frame.format,
                },
            )
        }
    }

    /// Takes the outcome of configuring the encoder. On success the stream is known to
    /// the core and the frame can be pushed; on failure the frame is dropped, an error is
    /// reported, and the next frame tries again.
    pub fn on_configured(
        &mut self,
        core: &mut PipelineCore,
        info: StreamInfo,
        audio: Option<AudioInfo>,
        result: Result<(), EncodeError>,
    ) -> (r: NextStep)
        ensures
            match result {
                Ok(_) => {
                    &&& r is Push
                    &&& final(self)@ == (WorkerState { configured: true, ..old(self)@ })
                    &&& final(core)@ == (CoreState {
                        stream_info: Some(info),
                        audio_info: audio,
                        ..old(core)@
                    })
                },
                Err(e) => {
                    &&& r matches NextStep::Drop(PipelineEvent::Error(s)) && s@
                        == "encoder configure failed: "@ + encode_message(e)
                    &&& final(self)@ == old(self)@
                    &&& final(core)@ == old(core)@
                },
            },
    {
        match result {
            Ok(_) => {
                core.set_stream_info(info, audio);
                self.configured = true;
                NextStep::Push
            },
            Err(e) => {
                let text = e.message();
                NextStep::Drop(
                    PipelineEvent::Error(joined("encoder configure failed: ", text.as_str())),
                )
            },
        }
    }
}

/// Takes the outcome of pushing a frame: the encoder is polled exactly where the frame was
/// pushed; otherwise an error is reported.
pub fn on_pushed(result: Result<(), EncodeError>) -> (r: NextStep)
    ensures
        match result {
            Ok(_) => r is Poll,
            Err(e) => r matches NextStep::Drop(PipelineEvent::Error(s)) && s@ == "encode error: "@
                + encode_message(e),
        },
{
    match result {
        Ok(_) => NextStep::Poll,
        Err(e) => {
            let text = e.message();
            NextStep::Drop(PipelineEvent::Error(joined("encode error: ", text.as_str())))
        },
    }
}

// --- pipeline ----------------------------------------------------------------------

/// A pipeline with its core.
pub struct Pipeline {
    core: PipelineCore,
    running: bool,
    has_source: bool,
    has_hotkeys: bool,
}

/// What a pipeline has come to.
#[verifier::ext_equal]
pub struct PipelineState {
    pub core: CoreState,
    pub running: bool,
    /// Whether a capture source runs.
    pub has_source: bool,
    /// Whether the save hotkey is registered.
    pub has_hotkeys: bool,
}

impl View for Pipeline {
    type V = PipelineState;

    closed spec fn view(&self) -> PipelineState {
        PipelineState {
            core: self.core@,
            running: self.running,
            has_source: self.has_source,
            has_hotkeys: self.has_hotkeys,
        }
    }
}

impl PipelineState {
    pub open spec fn wf(self) -> bool {
        &&& self.core.wf()
        &&& self.has_source ==> self.running
        &&& self.has_hotkeys ==> self.has_source
    }

    /// The pipeline as a start begins.
    pub open spec fn starting(self) -> PipelineState {
        PipelineState { core: self.core.restarted(), running: true, ..self }
    }

    /// The pipeline after a start that was given up.
    pub open spec fn given_up(self) -> PipelineState {
        PipelineState { running: false, ..self }
    }

    /// The pipeline after it was stopped.
    pub open spec fn stopped(self) -> PipelineState {
        PipelineState { running: false, has_source: false, has_hotkeys: false, ..self }
    }
}

/// What a start needs to know.
#[derive(Debug)]
pub struct StartPlan {
    pub fps: u32,
    pub settings: EncodeSettings,
    pub accelerator: String,
    pub target: CaptureTarget,
}

/// What is to be torn down.
#[derive(Debug, Clone, Copy, PartialEq, Eq, Structural)]
pub struct StopPlan {
    pub source: bool,
    pub hotkeys: bool,
}

/// What became of the save hotkey.
pub enum HotkeyOutcome {
    /// It is registered with a manager of this name.
    Registered(String),
    /// The manager could not register it.
    Failed(HotkeyError),
    /// There is no manager.
    NoManager(HotkeyError),
}

impl Pipeline {
    /// A pipeline for a configuration, not running.
    pub fn new(config: Config) -> (r: Pipeline)
        requires
            config.in_range(),
        ensures
            r@.wf(),
            r@.core.config == config,
            r@.core.video == Ring::empty(config.buffer_seconds, config.target_fps),
            r@.core.audio == Ring::empty(config.buffer_seconds, audio_rate(config)),
            r@.core.stream_info is None,
            r@.core.audio_info is None,
            !r@.core.saving,
            !r@.running,
            !r@.has_source,
            !r@.has_hotkeys,
    {
        Pipeline {
            core: PipelineCore::new(config),
            running: false,
            has_source: false,
            has_hotkeys: false,
        }
    }

    /// The core of the pipeline.
    pub fn shared_core(&self) -> (r: &PipelineCore)
        ensures
            r@ == self@.core,
    {
        &self.core
    }

    /// The core of the pipeline, to be changed.
    pub fn shared_core_mut(&mut self) -> (r: &mut PipelineCore)
        ensures
            r@ == old(self)@.core,
            final(self)@ == (PipelineState { core: final(r)@, ..old(self)@ }),
    {
        &mut self.core
    }

    pub fn is_running(&self) -> (r: bool)
        ensures
            r == self@.running,
    {
        self.running
    }

    /// Begins to start: the buffers are made anew for the current settings. A pipeline
    /// that runs is left alone.
    pub fn start(&mut self) -> (r: Option<StartPlan>)
        requires
            old(self)@.wf(),
            old(self)@.running || old(self)@.core.config.in_range(),
        ensures
            final(self)@.wf(),
            r is None <==> old(self)@.running,
            r is None ==> final(self)@ == old(self)@,
            r matches Some(plan) ==> {
                let config = old(self)@.core.config;
                &&& final(self)@ == old(self)@.starting()
                &&& plan.fps == config.target_fps
                &&& plan.settings == config.settings()
                &&& plan.accelerator@ == config.save_hotkey@
                &&& plan.target == config.capture_target
            },
    {
        if self.running {
            return None;
        }
        self.core.restart();
        self.running = true;
        Some(
            StartPlan {
                fps: self.core.config.target_fps,
                settings: self.core.config.encode_settings(),
                accelerator: self.core.config.save_hotkey.clone(),
                target: self.core.config.capture_target,
            },
        )
    }

    /// Gives up a start whose source could not be opened or started: the pipeline is not
    /// running. The result is what is said of the failure.
    pub fn start_failed(&mut self, e: &CaptureError) -> (r: String)
        requires
            old(self)@.wf(),
            !old(self)@.has_source,
        ensures
            r@ == capture_message(*e),
            final(self)@ == old(self)@.given_up(),
            final(self)@.wf(),
    {
        self.running = false;
        e.message()
    }

    /// Takes a source that captures, and says so.
    pub fn source_started(&mut self, name: &str) -> (r: PipelineEvent)
        requires
            old(self)@.wf(),
            old(self)@.running,
        ensures
            r matches PipelineEvent::Status(s) && s@ == "capturing via "@ + name@
                + " — buffering last "@ + decimal(old(self)@.core.config.buffer_seconds as nat)
                + "s"@,
            final(self)@ == (PipelineState { has_source: true, ..old(self)@ }),
            final(self)@.wf(),
    {
        self.has_source = true;
        let seconds = u64_text(self.core.config.buffer_seconds as u64);
        let mut text = joined3("capturing via ", name, " — buffering last ");
        text.append(seconds.as_str());
        text.append("s");
        PipelineEvent::Status(text)
    }

    /// Takes what became of the save hotkey. Without one the pipeline runs all the same.
    pub fn hotkey_tried(&mut self, accelerator: &str, outcome: HotkeyOutcome) -> (r: PipelineEvent)
        requires
            old(self)@.wf(),
            old(self)@.has_source,
        ensures
            final(self)@ == (PipelineState {
                has_hotkeys: outcome is Registered || old(self)@.has_hotkeys,
                ..old(self)@
            }),
            final(self)@.wf(),
            r matches PipelineEvent::Status(s) && s@ == match outcome {
                HotkeyOutcome::Registered(name) => "save hotkey registered ("@ + accelerator@
                    + ") via "@ + name@,
                HotkeyOutcome::Failed(e) => "hotkey unavailable: "@ + hotkey_message(e)
                    + " — use the Save button"@,
                HotkeyOutcome::NoManager(e) => "hotkey backend unavailable: "@ + hotkey_message(e)
                    + " — use the Save button"@,
            },
    {
        match outcome {
            HotkeyOutcome::Registered(name) => {
                self.has_hotkeys = true;
                let text = joined3("save hotkey registered (", accelerator, ") via ");
                PipelineEvent::Status(joined(text.as_str(), name.as_str()))
            },
            HotkeyOutcome::Failed(e) => {
                let text = e.message();
                PipelineEvent::Status(
                    joined3("hotkey unavailable: ", text.as_str(), " — use the Save button"),
                )
            },
            HotkeyOutcome::NoManager(e) => {
                let text = e.message();
                PipelineEvent::Status(
                    joined3("hotkey backend unavailable: ", text.as_str(), " — use the Save button"),
                )
            },
        }
    }

    /// Stops the pipeline: what is to be torn down, and what is reported once that is
    /// done. A pipeline that does not run is left alone.
    pub fn stop(&mut self) -> (r: Option<(StopPlan, PipelineEvent)>)
        requires
            old(self)@.wf(),
        ensures
            final(self)@.wf(),
            final(self)@ == old(self)@.stopped(),
            r is Some <==> old(self)@.running,
            r matches Some((plan, event)) ==> plan == (StopPlan {
                source: old(self)@.has_source,
                hotkeys: old(self)@.has_hotkeys,
            }) && (event matches PipelineEvent::Status(s) && s@ == "capture stopped"@),
    {
        if !self.running {
            return None;
        }
        let plan = StopPlan { source: self.has_source, hotkeys: self.has_hotkeys };
        self.running = false;
        self.has_source = false;
        self.has_hotkeys = false;
        Some((plan, PipelineEvent::Status("capture stopped".to_owned())))
    }

    /// Asks the core for a save.
    pub fn save_last_n(&mut self, secs: u64) -> (r: SaveStart)
        requires
            refusal(old(self)@.core) is None ==> old(self)@.core.config.target_fps * 2
                <= u32::MAX,
        ensures
            match r {
                SaveStart::Refused(event) => {
                    &&& final(self)@ == old(self)@
                    &&& refusal(old(self)@.core) is Some
                    &&& is_refusal_event(event, refusal(old(self)@.core)->0)
                },
                SaveStart::Started(job) => {
                    &&& final(self)@ == (PipelineState {
                        core: CoreState { saving: true, ..old(self)@.core },
                        ..old(self)@
                    })
                    &&& refusal(old(self)@.core) is None
                    &&& is_job_of(job, old(self)@.core, secs)
                },
            },
    {
        self.core.save_last_n(secs)
    }
}

// --- laws --------------------------------------------------------------------------

/// While a save is in progress every other is refused; once it has ended, whether it
/// succeeded or not, a save is answered as if there had been none.
pub proof fn law_one_save_at_a_time(c: CoreState)
    requires
        !c.saving,
    ensures
        refusal(CoreState { saving: true, ..c }) == Some(Refusal::Busy),
        ({
            let during = CoreState { saving: true, ..c };
            let after = CoreState { saving: false, ..during };
            after == c && refusal(after) == refusal(c)
        }),
{
}

/// The packets of one track, in order.
pub open spec fn of_track(packets: Seq<PacketView>, track: Track) -> Seq<PacketView> {
    packets.filter(|p: PacketView| p.track == track)
}

/// Each track has its own ring: the video ring gets the video packets and the audio ring
/// the audio packets, each in order, and nothing else of the core changes.
pub proof fn law_tracks_do_not_mix(c: CoreState, packets: Seq<PacketView>)
    ensures
        c.absorbed_all(packets) == (CoreState {
            video: c.video.pushed_all(of_track(packets, Track::Video)),
            audio: c.audio.pushed_all(of_track(packets, Track::Audio)),
            ..c
        }),
    decreases packets.len(),
{
    reveal(Seq::filter);
    if packets.len() > 0 {
        let earlier = packets.drop_last();
        let p = packets.last();
        law_tracks_do_not_mix(c, earlier);
        let mine = of_track(earlier, p.track).push(p);
        assert(of_track(packets, p.track) == mine);
        assert(mine.drop_last() =~= of_track(earlier, p.track));
        assert(mine.last() == p);
    }
}

/// A saved clip is the last of what was captured into an empty buffer: it ends with the
/// newest packet, has nothing older than the window and no more than the cap admits, and
/// starts on a keyframe where one has never been out of bounds. Where the packets came in
/// time order, it has exactly those within the window of the newest one and among the last
/// that the cap admits, from the first keyframe of these on where there is one.
pub proof fn law_clip_is_the_last_window(
    c: CoreState,
    packets: Seq<PacketView>,
    job: SaveJob,
    secs: u64,
)
    requires
        c.video.wf(),
        c.video.packets.len() == 0,
        packets.len() > 0,
        is_job_of(job, CoreState { video: c.video.pushed_all(packets), ..c }, secs),
    ensures
        ({
            let clip = packet_views(job.video@);
            let w = c.video.window_ns;
            let m = c.video.max_packets;
            &&& 0 < clip.len() <= m
            &&& clip.last() == packets.last()
            &&& forall|i: int|
                0 <= i < clip.len() ==> #[trigger] age(clip, i) <= w && packets.contains(clip[i])
            &&& (exists|i: int|
                0 <= i < packets.len() && #[trigger] has_stayed(packets, i, w, m)
                    && packets[i].is_keyframe) ==> clip[0].is_keyframe
            &&& in_time_order(packets) ==> is_end_of(clip, packets, w, m)
        }),
{
    let w = c.video.window_ns;
    let m = c.video.max_packets;
    law_ring_holds_the_last_window(c.video, packets);
    let kept = c.video.pushed_all(packets).packets;
    let stale = packets.len() - kept.len();
    law_snapshot_starts_on_keyframe(kept);
    let clip = packet_views(job.video@);
    let cut = kept.len() - clip.len();
    assert(clip == from_keyframe(kept));
    if clip.len() == 0 {
        assert(clip == kept);
    }
    assert forall|i: int| 0 <= i < clip.len() implies #[trigger] age(clip, i) <= w
        && packets.contains(clip[i]) by {
        assert(clip[i] == kept[i + cut]);
        assert(age(kept, i + cut) <= w);
    }
    if exists|i: int|
        0 <= i < packets.len() && #[trigger] has_stayed(packets, i, w, m)
            && packets[i].is_keyframe {
        let i = choose|i: int|
            0 <= i < packets.len() && #[trigger] has_stayed(packets, i, w, m)
                && packets[i].is_keyframe;
        assert(is_kept(kept, packets, i));
        let k = choose|k: int|
            0 <= k < kept.len() && #[trigger] kept[k] == packets[i] && kept.len() - k
                <= packets.len() - i;
        assert(kept[k].is_keyframe);
    }
    if in_time_order(packets) {
        let gone = packets.len() - clip.len();
        assert(kept.skip(cut) =~= packets.skip(gone));
        assert forall|i: int| 0 <= i < gone implies is_stale(packets, i, w, m)
            || !(#[trigger] packets[i]).is_keyframe by {
            if i >= stale {
                assert(kept[i - stale] == packets[i]);
            }
        }
        if exists|i: int|
            0 <= i < packets.len() && !is_stale(packets, i, w, m)
                && #[trigger] packets[i].is_keyframe {
            let i = choose|i: int|
                0 <= i < packets.len() && !is_stale(packets, i, w, m)
                    && #[trigger] packets[i].is_keyframe;
            assert(stale <= i);
            assert(kept[i - stale] == packets[i]);
        }
    }
}

/// Whether a clip is the end of `packets` that is within bounds, from its first keyframe
/// on where it has one.
pub open spec fn is_end_of(
    clip: Seq<PacketView>,
    packets: Seq<PacketView>,
    window_ns: int,
    max_packets: int,
) -> bool {
    let gone = packets.len() - clip.len();
    &&& 0 <= gone < packets.len()
    &&& clip == packets.skip(gone)
    &&& forall|i: int|
        gone <= i < packets.len() ==> !#[trigger] is_stale(packets, i, window_ns, max_packets)
    &&& forall|i: int|
        0 <= i < gone ==> is_stale(packets, i, window_ns, max_packets) || !(
        #[trigger] packets[i]).is_keyframe
    &&& (exists|i: int|
        0 <= i < packets.len() && !is_stale(packets, i, window_ns, max_packets)
            && #[trigger] packets[i].is_keyframe) ==> clip[0].is_keyframe
}

/// A start that was given up leaves a pipeline that does not run and can be started
/// again, just as if for the first time.
pub proof fn law_failed_start_can_be_repeated(p: PipelineState)
    requires
        p.wf(),
        !p.running,
    ensures
        !p.starting().given_up().running,
        p.starting().given_up().starting() == p.starting(),
{
}

/// Stopping twice is stopping once, and nothing of what was captured is lost by it.
pub proof fn law_stop_is_idempotent(p: PipelineState)
    ensures
        p.stopped().stopped() == p.stopped(),
        !p.stopped().running,
        p.stopped().core == p.core,
{
}

/// Whether a clip is the last seconds of what came: the end of it that is no older than
/// the window before the newest packet and no more than the cap, from its first keyframe
/// on where it has one.
pub open spec fn is_last_seconds(
    clip: Seq<PacketView>,
    all: Seq<PacketView>,
    window_ns: int,
    cap: int,
) -> bool {
    let gone = all.len() - clip.len();
    &&& 0 <= gone < all.len()
    &&& clip == all.skip(gone)
    &&& forall|i: int|
        gone <= i < all.len() ==> all.last().pts_ns - (#[trigger] all[i]).pts_ns <= window_ns
            && all.len() - i <= cap
    &&& forall|i: int|
        0 <= i < gone ==> all.last().pts_ns - (#[trigger] all[i]).pts_ns > window_ns || all.len()
            - i > cap || (!all[i].is_keyframe && clip[0].is_keyframe)
    &&& (exists|i: int| gone <= i < all.len() && (#[trigger] all[i]).is_keyframe)
        ==> clip[0].is_keyframe
}

proof fn lemma_ring_gives_the_last_seconds(ring: Ring, all: Seq<PacketView>, clip: Seq<PacketView>)
    requires
        ring.wf(),
        ring.packets.len() == 0,
        all.len() > 0,
        forall|i: int, j: int|
            0 <= i <= j < all.len() ==> (#[trigger] all[i]).pts_ns <= (#[trigger] all[j]).pts_ns,
        clip == from_keyframe(ring.pushed_all(all).packets),
    ensures
        is_last_seconds(clip, all, ring.window_ns, ring.max_packets),
{
    crate::buffer::law_ring_in_time_order(ring, all);
    let kept = ring.pushed_all(all).packets;
    let stale = all.len() - kept.len();
    law_snapshot_starts_on_keyframe(kept);
    let cut = kept.len() - clip.len();
    let gone = all.len() - clip.len();
    if clip.len() == 0 {
        assert(clip == kept);
    }
    assert(kept.skip(cut) =~= all.skip(gone));
    assert forall|i: int| 0 <= i < gone implies all.last().pts_ns - (#[trigger] all[i]).pts_ns
        > ring.window_ns || all.len() - i > ring.max_packets || (!all[i].is_keyframe
        && clip[0].is_keyframe) by {
        if i >= stale {
            assert(kept[i - stale] == all[i]);
        }
    }
    if exists|i: int| gone <= i < all.len() && (#[trigger] all[i]).is_keyframe {
        let i = choose|i: int| gone <= i < all.len() && (#[trigger] all[i]).is_keyframe;
        assert(kept[i - stale] == all[i]);
    }
}

/// A started save holds, of each track on its own, the last seconds for which the core was
/// made, whatever was negotiated: of the video exactly the packets no older than these
/// seconds before the newest and no more than the cap, from the first keyframe on, and of
/// the audio likewise. So a clip has sound wherever sound was captured, and each track ends
/// with its newest packet.
pub proof fn law_save_holds_the_last_seconds(
    config: Config,
    made: PipelineCore,
    core: &mut PipelineCore,
    video: Seq<PacketView>,
    audio: Seq<PacketView>,
    secs: u64,
    job: SaveJob,
)
    requires
        config.buffer_seconds >= 1,
        config.target_fps >= 1,
        config.buffer_seconds * config.target_fps <= u32::MAX,
        call_ensures(PipelineCore::new, (config,), made),
        old(core)@.video == made@.video.pushed_all(video),
        old(core)@.audio == made@.audio.pushed_all(audio),
        call_ensures(PipelineCore::save_last_n, (core, secs), SaveStart::Started(job)),
        forall|i: int, j: int|
            0 <= i <= j < video.len() ==> (#[trigger] video[i]).pts_ns <= (
            #[trigger] video[j]).pts_ns,
        forall|i: int, j: int|
            0 <= i <= j < audio.len() ==> (#[trigger] audio[i]).pts_ns <= (
            #[trigger] audio[j]).pts_ns,
    ensures
        ({
            let s = config.buffer_seconds;
            let window = s * 1_000_000_000;
            let frames = 2 * (s * config.target_fps);
            let sounds = 2 * (s * (if config.target_fps < 50 && s * 50 <= u32::MAX {
                50int
            } else {
                config.target_fps as int
            }));
            let room = |n: int|
                if n > u32::MAX {
                    u32::MAX as int
                } else if n < 64 {
                    64
                } else {
                    n
                };
            &&& video.len() > 0 ==> is_last_seconds(
                packet_views(job.video@),
                video,
                window,
                room(frames),
            )
            &&& audio.len() > 0 ==> is_last_seconds(
                packet_views(job.audio@),
                audio,
                window,
                room(sounds),
            )
        }),
        video.len() > 0 ==> job.video@.len() > 0 && job.video@.last()@ == video.last(),
        audio.len() > 0 ==> job.audio@.len() > 0 && job.audio@.last()@ == audio.last(),
        audio.len() == 0 ==> job.audio@.len() == 0,
{
    let v = packet_views(job.video@);
    let a = packet_views(job.audio@);
    assert(v.len() == job.video@.len() && a.len() == job.audio@.len());
    if video.len() > 0 {
        lemma_ring_gives_the_last_seconds(made@.video, video, v);
        assert(v.last() == job.video@.last()@);
    }
    if audio.len() > 0 {
        lemma_ring_gives_the_last_seconds(made@.audio, audio, a);
        assert(a.last() == job.audio@.last()@);
    } else {
        assert(made@.audio.pushed_all(audio) == made@.audio);
    }
}

/// A save is refused exactly where another is in progress, nothing was negotiated, or no
/// video is buffered; a refused one changes nothing. A started one takes what was
/// negotiated and what the settings say, and takes nothing from the buffers.
pub proof fn law_saves_start_where_there_is_something(
    core: &mut PipelineCore,
    secs: u64,
    r: SaveStart,
)
    requires
        call_ensures(PipelineCore::save_last_n, (core, secs), r),
    ensures
        r is Refused <==> old(core)@.saving || old(core)@.stream_info is None || old(
            core,
        )@.video.packets.len() == 0,
        r matches SaveStart::Refused(event) ==> {
            &&& final(core)@ == old(core)@
            &&& old(core)@.saving ==> (event matches PipelineEvent::Status(s) && s@
                == "save already in progress"@)
            &&& !old(core)@.saving && old(core)@.stream_info is None ==> (
            event matches PipelineEvent::Error(s) && s@
                == "nothing to save yet — capture is not running"@)
            &&& !old(core)@.saving && old(core)@.stream_info is Some ==> (
            event matches PipelineEvent::Error(s) && s@ == "buffer is empty"@)
        },
        r matches SaveStart::Started(job) ==> {
            let config = old(core)@.config;
            &&& final(core)@.saving
            &&& final(core)@.video == old(core)@.video
            &&& final(core)@.audio == old(core)@.audio
            &&& final(core)@.config == config
            &&& final(core)@.stream_info == old(core)@.stream_info
            &&& final(core)@.audio_info == old(core)@.audio_info
            &&& Some(job.info) == old(core)@.stream_info
            &&& job.audio_info == old(core)@.audio_info
            &&& job.settings.codec == config.codec
            &&& job.settings.container == config.container
            &&& job.settings.bitrate_kbps == config.bitrate_kbps
            &&& job.settings.auto_convert == config.auto_convert
            &&& job.settings.capture_audio == config.capture_audio
            &&& job.settings.audio_bitrate_kbps == config.audio_bitrate_kbps
            &&& job.copy == config.copy_to_clipboard
            &&& job.out@ == clip_path(config.output_dir@, secs, config.container)
            &&& job.folder is Some <==> parent_of(job.out@) is Some
            &&& job.folder is Some ==> job.folder->0@ == parent_of(job.out@)->0
        },
{
}

/// A core for a configuration has empty rings for its seconds and knows of no stream; so
/// has one that is started anew, which keeps its settings.
pub proof fn law_rings_are_for_the_configured_seconds(
    config: Config,
    made: PipelineCore,
    core: &mut PipelineCore,
)
    requires
        call_ensures(PipelineCore::new, (config,), made),
        call_ensures(PipelineCore::restart, (core,), ()),
        config.buffer_seconds >= 1,
        old(core)@.config.buffer_seconds >= 1,
    ensures
        made@.video.packets.len() == 0,
        made@.audio.packets.len() == 0,
        made@.video.window_ns == config.buffer_seconds * 1_000_000_000,
        made@.audio.window_ns == config.buffer_seconds * 1_000_000_000,
        made@.config == config,
        made@.stream_info is None && made@.audio_info is None && !made@.saving,
        final(core)@.video.packets.len() == 0,
        final(core)@.audio.packets.len() == 0,
        final(core)@.video.window_ns == old(core)@.config.buffer_seconds * 1_000_000_000,
        final(core)@.audio.window_ns == old(core)@.config.buffer_seconds * 1_000_000_000,
        final(core)@.config == old(core)@.config,
        final(core)@.stream_info is None && final(core)@.audio_info is None,
        final(core)@.saving == old(core)@.saving,
{
}

/// Packets go into the ring of their track, in order, and change nothing else.
pub proof fn law_packets_go_to_their_track(core: &mut PipelineCore, packets: Vec<EncodedPacket>)
    requires
        call_ensures(PipelineCore::absorb_all, (core, &packets), ()),
    ensures
        final(core)@.video == old(core)@.video.pushed_all(
            packet_views(packets@).filter(|p: PacketView| p.track == Track::Video),
        ),
        final(core)@.audio == old(core)@.audio.pushed_all(
            packet_views(packets@).filter(|p: PacketView| p.track == Track::Audio),
        ),
        final(core)@.config == old(core)@.config,
        final(core)@.stream_info == old(core)@.stream_info,
        final(core)@.audio_info == old(core)@.audio_info,
        final(core)@.saving == old(core)@.saving,
{
    law_tracks_do_not_mix(old(core)@, packet_views(packets@));
}

/// One packet goes into the ring of its track.
pub proof fn law_packet_goes_to_its_track(core: &mut PipelineCore, packet: EncodedPacket)
    requires
        call_ensures(PipelineCore::absorb, (core, packet), ()),
    ensures
        packet.track is Video ==> final(core)@.video == old(core)@.video.pushed(packet@)
            && final(core)@.audio == old(core)@.audio,
        packet.track is Audio ==> final(core)@.audio == old(core)@.audio.pushed(packet@)
            && final(core)@.video == old(core)@.video,
        final(core)@.config == old(core)@.config,
        final(core)@.stream_info == old(core)@.stream_info,
        final(core)@.audio_info == old(core)@.audio_info,
        final(core)@.saving == old(core)@.saving,
{
}

/// What was negotiated and what the settings say is kept as it came, and nothing else
/// changes.
pub proof fn law_core_keeps_what_it_is_told(
    core: &mut PipelineCore,
    info: StreamInfo,
    audio: Option<AudioInfo>,
    other: &mut PipelineCore,
    config: Config,
    third: &mut PipelineCore,
)
    requires
        call_ensures(PipelineCore::set_stream_info, (core, info, audio), ()),
        call_ensures(PipelineCore::set_config, (other, config), ()),
        call_ensures(PipelineCore::finish_save, (third,), ()),
    ensures
        final(core)@.stream_info == Some(info),
        final(core)@.audio_info == audio,
        final(core)@.video == old(core)@.video,
        final(core)@.audio == old(core)@.audio,
        final(core)@.config == old(core)@.config,
        final(core)@.saving == old(core)@.saving,
        final(other)@.config == config,
        final(other)@.video == old(other)@.video,
        final(other)@.audio == old(other)@.audio,
        final(other)@.stream_info == old(other)@.stream_info,
        final(other)@.audio_info == old(other)@.audio_info,
        final(other)@.saving == old(other)@.saving,
        !final(third)@.saving,
        final(third)@.video == old(third)@.video,
        final(third)@.audio == old(third)@.audio,
        final(third)@.stream_info == old(third)@.stream_info,
        final(third)@.config == old(third)@.config,
{
}

/// A clip that was written is reported under its path, is converted exactly where the
/// settings want it, and goes to the clipboard exactly where they want that; one that was
/// not is reported with the reason, and nothing follows.
pub proof fn law_what_follows_on_a_save(
    job: SaveJob,
    result: Result<(), EncodeError>,
    r: AfterSave,
    share: String,
    clip: &str,
)
    requires
        call_ensures(after_save, (&job, result), r),
        clip@ == job.out@,
        call_ensures(Config::shareable_path, (clip,), share),
    ensures
        result is Ok ==> {
            &&& r.event matches PipelineEvent::ClipSaved(p) && p@ == job.out@
            &&& r.convert is Some <==> job.settings.auto_convert
            &&& r.convert matches Some(c) ==> c.input@ == job.out@ && c.output@ == share@
            &&& r.copy is Some <==> job.copy
            &&& r.copy matches Some(p) ==> p@ == job.out@
        },
        result matches Err(e) ==> {
            &&& r.event matches PipelineEvent::Error(s) && s@ == "save failed: "@ + encode_message(e)
            &&& r.convert is None
            &&& r.copy is None
        },
{
}

/// What came of a copy and of the clipboard is reported as it is.
pub proof fn law_what_follows_is_reported(
    output: &str,
    result: Result<(), EncodeError>,
    converted: PipelineEvent,
    copy: Result<String, String>,
    copied: PipelineEvent,
)
    requires
        call_ensures(after_convert, (output, result), converted),
        call_ensures(after_copy, (copy,), copied),
    ensures
        result is Ok ==> (converted matches PipelineEvent::ClipConverted(p) && p@ == output@),
        result matches Err(e) ==> (converted matches PipelineEvent::Error(s) && s@
            == "auto-convert failed: "@ + encode_message(e)),
        copy matches Ok(t) ==> (copied matches PipelineEvent::Status(s) && s@ == t@),
        copy matches Err(e) ==> (copied matches PipelineEvent::Error(s) && s@
            == "clipboard copy failed: "@ + e@),
{
}

/// The encoder is configured with the size and the layout of the first frame and the
/// configured frame rate; once that has succeeded, every frame is pushed.
pub proof fn law_first_frame_configures(
    fps: u32,
    failure: Option<EncodeError>,
    made: (EncodeWorker, Option<PipelineEvent>),
    worker: EncodeWorker,
    frame: Frame,
    r: FrameStep,
)
    requires
        call_ensures(EncodeWorker::new, (fps, failure), made),
        call_ensures(EncodeWorker::on_frame, (&worker, &frame), r),
    ensures
        made.0@.fps == fps,
        made.0@.has_encoder <==> failure is None,
        !made.0@.configured,
        failure is None <==> made.1 is None,
        r is Drop <==> !worker@.has_encoder,
        worker@.has_encoder && worker@.configured ==> r is Push,
        worker@.has_encoder && !worker@.configured ==> (r matches FrameStep::Configure(info)
            && info.width == frame.width && info.height == frame.height && info.format
            == frame.format && info.framerate == worker@.fps),
{
}

/// After the encoder is configured the core knows the stream and the frame is pushed; after
/// a push the encoder is polled. A failure is reported and the frame is dropped.
pub proof fn law_frames_go_on_after_success(
    worker: &mut EncodeWorker,
    core: &mut PipelineCore,
    info: StreamInfo,
    audio: Option<AudioInfo>,
    result: Result<(), EncodeError>,
    next: NextStep,
    pushed: Result<(), EncodeError>,
    then_step: NextStep,
)
    requires
        call_ensures(EncodeWorker::on_configured, (worker, core, info, audio, result), next),
        call_ensures(on_pushed, (pushed,), then_step),
    ensures
        result is Ok ==> next is Push && final(worker)@.configured && final(core)@.stream_info
            == Some(info) && final(core)@.audio_info == audio,
        result matches Err(e) ==> (next matches NextStep::Drop(PipelineEvent::Error(s)) && s@
            == "encoder configure failed: "@ + encode_message(e)) && final(worker)@.configured
            == old(worker)@.configured && final(core)@.stream_info == old(core)@.stream_info,
        final(worker)@.fps == old(worker)@.fps,
        final(worker)@.has_encoder == old(worker)@.has_encoder,
        final(core)@.video == old(core)@.video,
        final(core)@.audio == old(core)@.audio,
        pushed is Ok ==> then_step is Poll,
        pushed matches Err(e) ==> (then_step matches NextStep::Drop(PipelineEvent::Error(s)) && s@
            == "encode error: "@ + encode_message(e)),
{
}

/// A start makes the buffers anew for the configured seconds and hands out the settings;
/// a pipeline that runs is left alone.
pub proof fn law_start_begins_anew(p: &mut Pipeline, r: Option<StartPlan>)
    requires
        call_ensures(Pipeline::start, (p,), r),
        old(p)@.core.config.buffer_seconds >= 1,
        old(p)@.core.config.target_fps >= 1,
        old(p)@.core.config.target_fps * 2 <= u32::MAX,
    ensures
        r is None <==> old(p)@.running,
        final(p)@.running,
        r is None ==> final(p)@ == old(p)@,
        r matches Some(plan) ==> {
            let config = old(p)@.core.config;
            &&& plan.fps == config.target_fps
            &&& plan.accelerator@ == config.save_hotkey@
            &&& plan.target == config.capture_target
            &&& plan.settings.codec == config.codec
            &&& plan.settings.bitrate_kbps == config.bitrate_kbps
            &&& plan.settings.container == config.container
            &&& plan.settings.keyframe_interval == 2 * config.target_fps
            &&& plan.settings.capture_audio == config.capture_audio
            &&& plan.settings.audio_source == config.audio_source
            &&& final(p)@.core.config == config
            &&& final(p)@.core.video.packets.len() == 0
            &&& final(p)@.core.audio.packets.len() == 0
            &&& final(p)@.core.video.window_ns == config.buffer_seconds * 1_000_000_000
            &&& final(p)@.core.audio.window_ns == config.buffer_seconds * 1_000_000_000
            &&& final(p)@.core.stream_info is None
            &&& final(p)@.core.saving == old(p)@.core.saving
        },
{
}

/// A source that captures is announced with its name and the configured seconds.
pub proof fn law_capture_is_announced(p: &mut Pipeline, name: &str, r: PipelineEvent)
    requires
        call_ensures(Pipeline::source_started, (p, name), r),
    ensures
        r matches PipelineEvent::Status(s) && s@ == "capturing via "@ + name@
            + " — buffering last "@ + decimal(old(p)@.core.config.buffer_seconds as nat) + "s"@,
        final(p)@.has_source,
        final(p)@.running == old(p)@.running,
        final(p)@.core == old(p)@.core,
{
}

/// Stopping tears down exactly what runs and keeps what was captured.
pub proof fn law_stop_tears_down_what_runs(
    p: &mut Pipeline,
    r: Option<(StopPlan, PipelineEvent)>,
)
    requires
        call_ensures(Pipeline::stop, (p,), r),
    ensures
        r is Some <==> old(p)@.running,
        r matches Some((plan, event)) ==> plan.source == old(p)@.has_source && plan.hotkeys == old(
            p,
        )@.has_hotkeys,
        !final(p)@.running && !final(p)@.has_source && !final(p)@.has_hotkeys,
        final(p)@.core == old(p)@.core,
{
}

/// A save asked of the pipeline is that of its core.
pub proof fn law_pipeline_saves_its_core(p: &mut Pipeline, secs: u64, r: SaveStart)
    requires
        call_ensures(Pipeline::save_last_n, (p, secs), r),
    ensures
        r is Refused <==> old(p)@.core.saving || old(p)@.core.stream_info is None || old(
            p,
        )@.core.video.packets.len() == 0,
        r matches SaveStart::Started(job) ==> {
            &&& packet_views(job.video@) == from_keyframe(old(p)@.core.video.packets)
            &&& packet_views(job.audio@) == from_keyframe(old(p)@.core.audio.packets)
            &&& Some(job.info) == old(p)@.core.stream_info
            &&& job.audio_info == old(p)@.core.audio_info
            &&& job.out@ == clip_path(
                old(p)@.core.config.output_dir@,
                secs,
                old(p)@.core.config.container,
            )
        },
        final(p)@.running == old(p)@.running,
        final(p)@.core.video == old(p)@.core.video,
        final(p)@.core.audio == old(p)@.core.audio,
{
}

/// The muxer gets the clip of the job as it is: its video, its audio, what was negotiated,
/// the settings and the path.
pub proof fn law_muxer_gets_the_job<M: Muxer>(job: SaveJob, muxer: M, r: Result<(), EncodeError>)
    requires
        call_ensures(write_clip::<M>, (&job, Ok(&muxer)), r),
    ensures
        exists|out: &str|
            out@ == job.out@ && #[trigger] call_ensures(
                M::write_clip,
                (
                    &muxer,
                    &job.video,
                    job.info,
                    &job.audio,
                    job.audio_info,
                    &job.settings,
                    out,
                ),
                r,
            ),
{
}

/// What a core shows is what it holds.
pub proof fn law_core_shows_what_it_holds(
    core: PipelineCore,
    video: &ClipBuffer,
    audio: &ClipBuffer,
    config: &Config,
    info: Option<StreamInfo>,
    sound: Option<AudioInfo>,
    saving: bool,
    p: Pipeline,
    shared: &PipelineCore,
    running: bool,
)
    requires
        call_ensures(PipelineCore::buffer, (&core,), video),
        call_ensures(PipelineCore::audio, (&core,), audio),
        call_ensures(PipelineCore::config, (&core,), config),
        call_ensures(PipelineCore::stream_info, (&core,), info),
        call_ensures(PipelineCore::audio_info, (&core,), sound),
        call_ensures(PipelineCore::is_saving, (&core,), saving),
        call_ensures(Pipeline::shared_core, (&p,), shared),
        call_ensures(Pipeline::is_running, (&p,), running),
    ensures
        video@ == core@.video,
        audio@ == core@.audio,
        *config == core@.config,
        info == core@.stream_info,
        sound == core@.audio_info,
        saving == core@.saving,
        shared@ == p@.core,
        running == p@.running,
{
}

/// The rings of a core are buffers for the configured seconds: the video ring for the
/// configured rate, and the audio ring for that rate too, or for 50 packets a second where
/// that is more and they fit. A start makes the same rings.
pub proof fn law_rings_are_buffers(
    config: Config,
    made: PipelineCore,
    core: &mut PipelineCore,
    rate: u32,
    video: ClipBuffer,
    audio: ClipBuffer,
    p: Pipeline,
)
    requires
        config.buffer_seconds >= 1,
        rate == (if config.target_fps < 50 && config.buffer_seconds * 50 <= u32::MAX {
            50
        } else {
            config.target_fps
        }),
        call_ensures(ClipBuffer::new, (config.buffer_seconds, config.target_fps), video),
        call_ensures(ClipBuffer::new, (config.buffer_seconds, rate), audio),
        call_ensures(PipelineCore::new, (config,), made),
        call_ensures(PipelineCore::restart, (core,), ()),
        old(core)@.config == config,
        call_ensures(Pipeline::new, (config,), p),
    ensures
        made@.video == video@,
        made@.audio == audio@,
        final(core)@.video == video@,
        final(core)@.audio == audio@,
        p@.core.video == video@,
        p@.core.audio == audio@,
        p@.core.config == config,
        p@.core.stream_info is None && p@.core.audio_info is None && !p@.core.saving,
        !p@.running && !p@.has_source && !p@.has_hotkeys,
{
}

/// A save takes copies of both buffers, the encoder settings of the configuration, and the
/// path of a clip at the time, with its folder.
pub proof fn law_save_takes_copies(
    core: &mut PipelineCore,
    secs: u64,
    job: SaveJob,
    video: ClipBuffer,
    frames: Vec<EncodedPacket>,
    audio: ClipBuffer,
    sounds: Vec<EncodedPacket>,
    config: Config,
    settings: EncodeSettings,
    path: String,
    path_text: &str,
    folder: Option<String>,
)
    requires
        call_ensures(PipelineCore::save_last_n, (core, secs), SaveStart::Started(job)),
        video@ == old(core)@.video,
        call_ensures(ClipBuffer::snapshot, (&video,), frames),
        audio@ == old(core)@.audio,
        call_ensures(ClipBuffer::snapshot, (&audio,), sounds),
        config == old(core)@.config,
        call_ensures(Config::encode_settings, (&config,), settings),
        call_ensures(Config::new_clip_path, (&config, secs), path),
        path_text@ == path@,
        call_ensures(parent, (path_text,), folder),
    ensures
        packet_views(job.video@) == packet_views(frames@),
        packet_views(job.audio@) == packet_views(sounds@),
        job.settings == settings,
        job.out@ == path@,
        job.folder is Some <==> folder is Some,
        job.folder is Some ==> job.folder->0@ == folder->0@,
        job.copy == config.copy_to_clipboard,
{
}

/// A save that is asked of a pipeline is the one that its core would give.
pub proof fn law_pipeline_asks_its_core(
    p: &mut Pipeline,
    core: &mut PipelineCore,
    secs: u64,
    r: SaveStart,
    s: SaveStart,
)
    requires
        call_ensures(Pipeline::save_last_n, (p, secs), r),
        call_ensures(PipelineCore::save_last_n, (core, secs), s),
        old(core)@ == old(p)@.core,
    ensures
        r is Started <==> s is Started,
        final(p)@.core == final(core)@,
        final(p)@.running == old(p)@.running,
        final(p)@.has_source == old(p)@.has_source,
        final(p)@.has_hotkeys == old(p)@.has_hotkeys,
        r is Started ==> {
            let a = r->Started_0;
            let b = s->Started_0;
            &&& packet_views(a.video@) == packet_views(b.video@)
            &&& packet_views(a.audio@) == packet_views(b.audio@)
            &&& a.info == b.info
            &&& a.audio_info == b.audio_info
            &&& a.settings == b.settings
            &&& a.out@ == b.out@
            &&& opt_text(a.folder) == opt_text(b.folder)
            &&& a.copy == b.copy
        },
        r is Refused ==> match (r->Refused_0, s->Refused_0) {
            (PipelineEvent::Status(a), PipelineEvent::Status(b)) => a@ == b@,
            (PipelineEvent::Error(a), PipelineEvent::Error(b)) => a@ == b@,
            _ => false,
        },
{
}

/// A start hands out the encoder settings of the configuration, forgets what was negotiated,
/// and leaves what it does not make; a failed one is told with the reason, and the pipeline
/// does not run.
pub proof fn law_starts(
    p: &mut Pipeline,
    plan: StartPlan,
    config: Config,
    settings: EncodeSettings,
    failed: &mut Pipeline,
    e: CaptureError,
    said: String,
    text: String,
)
    requires
        call_ensures(Pipeline::start, (p,), Some(plan)),
        config == old(p)@.core.config,
        call_ensures(Config::encode_settings, (&config,), settings),
        call_ensures(Pipeline::start_failed, (failed, &e), said),
        call_ensures(CaptureError::message, (&e,), text),
    ensures
        plan.settings == settings,
        final(p)@.core.audio_info is None,
        final(p)@.has_source == old(p)@.has_source,
        final(p)@.has_hotkeys == old(p)@.has_hotkeys,
        said@ == text@,
        !final(failed)@.running,
        final(failed)@.core == old(failed)@.core,
        final(failed)@.has_source == old(failed)@.has_source,
        final(failed)@.has_hotkeys == old(failed)@.has_hotkeys,
{
}

/// The save hotkey is told with what became of it, and only one that is registered counts.
pub proof fn law_hotkey_is_told(
    p: &mut Pipeline,
    accelerator: &str,
    outcome: HotkeyOutcome,
    r: PipelineEvent,
    e: HotkeyError,
    why: String,
)
    requires
        call_ensures(Pipeline::hotkey_tried, (p, accelerator, outcome), r),
        call_ensures(HotkeyError::message, (&e,), why),
    ensures
        final(p)@.has_hotkeys <==> outcome is Registered || old(p)@.has_hotkeys,
        final(p)@.running == old(p)@.running,
        final(p)@.has_source == old(p)@.has_source,
        final(p)@.core == old(p)@.core,
        r is Status,
        outcome matches HotkeyOutcome::Registered(name) ==> r->Status_0@
            == "save hotkey registered ("@ + accelerator@ + ") via "@ + name@,
        outcome == HotkeyOutcome::Failed(e) ==> r->Status_0@ == "hotkey unavailable: "@ + why@
            + " — use the Save button"@,
        outcome == HotkeyOutcome::NoManager(e) ==> r->Status_0@ == "hotkey backend unavailable: "@
            + why@ + " — use the Save button"@,
{
}

/// What is said of a worker without an encoder and of a pipeline that was stopped, and what
/// stays as it was when the encoder is set up and when a save ends.
pub proof fn law_what_is_said_and_what_stays(
    fps: u32,
    e: EncodeError,
    why: String,
    made: (EncodeWorker, Option<PipelineEvent>),
    p: &mut Pipeline,
    plan: StopPlan,
    event: PipelineEvent,
    worker: &mut EncodeWorker,
    core: &mut PipelineCore,
    info: StreamInfo,
    audio: Option<AudioInfo>,
    result: Result<(), EncodeError>,
    next: NextStep,
    done: &mut PipelineCore,
    said: PipelineEvent,
    copy: PipelineEvent,
)
    requires
        call_ensures(EncodeError::message, (&e,), why),
        call_ensures(EncodeWorker::new, (fps, Some(e)), made),
        call_ensures(Pipeline::stop, (p,), Some((plan, event))),
        call_ensures(EncodeWorker::on_configured, (worker, core, info, audio, result), next),
        call_ensures(PipelineCore::finish_save, (done,), ()),
        call_ensures(PipelineEvent::clone, (&said,), copy),
    ensures
        made.1 matches Some(PipelineEvent::Status(s)) && s@
            == "capture running without an encoder: "@ + why@,
        event matches PipelineEvent::Status(s) && s@ == "capture stopped"@,
        final(core)@.config == old(core)@.config,
        final(core)@.saving == old(core)@.saving,
        result is Err ==> final(core)@.audio_info == old(core)@.audio_info,
        final(done)@.audio_info == old(done)@.audio_info,
        copy == said,
{
}

/// What is done to the core of a pipeline is done to the pipeline, and to nothing else of it.
pub proof fn law_core_is_shared(p: &mut Pipeline, core: &mut PipelineCore)
    requires
        call_ensures(Pipeline::shared_core_mut, (p,), core),
    ensures
        old(core)@ == old(p)@.core,
        final(p)@.core == final(core)@,
        final(p)@.running == old(p)@.running,
        final(p)@.has_source == old(p)@.has_source,
        final(p)@.has_hotkeys == old(p)@.has_hotkeys,
{
}

/// Without a muxer nothing is written, and the error is the one that came.
pub proof fn law_clip_needs_a_muxer<M: Muxer>(job: SaveJob, e: EncodeError, r: Result<(), EncodeError>)
    requires
        call_ensures(write_clip::<M>, (&job, Err(e)), r),
    ensures
        r == Err::<(), EncodeError>(e),
{
}

} // verus!
