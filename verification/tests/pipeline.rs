use rewind::capture::CaptureError;
use rewind::clock::FrameClock;
use rewind::config::Config;
use rewind::encode::{EncodeError, Muxer};
use rewind::hotkey::HotkeyError;
use rewind::media::{
    AudioCodec, AudioInfo, EncodeSettings, EncodedPacket, Frame, PixelFormat, StreamInfo, Track,
};
use rewind::pipeline::{
    after_convert, after_copy, after_save, on_pushed, write_clip, EncodeWorker, FrameStep,
    HotkeyOutcome, NextStep, Pipeline, PipelineCore, PipelineEvent, SaveJob, SaveStart, StopPlan,
};
use std::sync::Arc;

fn info() -> StreamInfo {
    StreamInfo { width: 640, height: 480, framerate: 60, format: PixelFormat::Bgrx8888 }
}

fn packet(pts_ms: u64, key: bool, track: Track) -> EncodedPacket {
    EncodedPacket {
        data: vec![pts_ms as u8],
        pts_ns: pts_ms * 1_000_000,
        dts_ns: None,
        is_keyframe: key,
        track,
    }
}

fn text(event: &PipelineEvent) -> String {
    match event {
        PipelineEvent::Status(s) => format!("status {s}"),
        PipelineEvent::ClipSaved(s) => format!("saved {s}"),
        PipelineEvent::ClipConverted(s) => format!("converted {s}"),
        PipelineEvent::Error(s) => format!("error {s}"),
    }
}

fn refused(start: SaveStart) -> String {
    match start {
        SaveStart::Refused(event) => text(&event),
        SaveStart::Started(_) => panic!("the save was started"),
    }
}

fn started(start: SaveStart) -> SaveJob {
    match start {
        SaveStart::Started(job) => job,
        SaveStart::Refused(event) => panic!("{}", text(&event)),
    }
}

fn ready() -> PipelineCore {
    let mut config = Config::default();
    config.buffer_seconds = 1;
    let mut core = PipelineCore::new(config);
    core.set_stream_info(info(), None);
    core
}

#[test]
fn a_save_needs_something_to_save() {
    let mut core = PipelineCore::new(Config::default());
    assert_eq!(
        refused(core.save_last_n(1)),
        "error nothing to save yet \u{2014} capture is not running"
    );
    core.set_stream_info(info(), None);
    assert_eq!(refused(core.save_last_n(1)), "error buffer is empty");
    core.absorb(packet(0, true, Track::Audio));
    assert_eq!(refused(core.save_last_n(1)), "error buffer is empty");
    assert!(!core.is_saving());
}

#[test]
fn one_save_at_a_time() {
    let mut core = ready();
    core.absorb(packet(0, true, Track::Video));
    let job = started(core.save_last_n(17));
    assert!(core.is_saving());
    assert_eq!(refused(core.save_last_n(18)), "status save already in progress");
    let after = after_save(&job, Ok(()));
    assert_eq!(text(&after.event), "saved clips/rewind_17.mp4");
    assert!(core.is_saving());
    core.finish_save();
    assert!(!core.is_saving());
    let again = started(core.save_last_n(19));
    assert_eq!(again.out, "clips/rewind_19.mp4");
    let failed = after_save(&again, Err(EncodeError::Backend("disk".to_string())));
    core.finish_save();
    assert_eq!(text(&failed.event), "error save failed: encode backend error: disk");
    assert!(failed.convert.is_none() && failed.copy.is_none());
    assert!(!core.is_saving());
}

#[test]
fn the_clip_is_the_last_window() {
    let mut core = ready();
    let mut all = Vec::new();
    for i in 0..300u64 {
        all.push(packet(i * 10, i % 20 == 0, Track::Video));
        all.push(packet(i * 10 + 3, true, Track::Audio));
    }
    core.absorb_all(&all);
    let job = started(core.save_last_n(1));
    // The newest is at 2990 ms, so 1990 ms is in; the first keyframe is at 2000 ms.
    assert_eq!(job.video.first().unwrap().pts_ns, 2_000_000_000);
    assert_eq!(job.video.last().unwrap().pts_ns, 2_990_000_000);
    assert_eq!(job.video.len(), 100);
    assert!(job.video[0].is_keyframe);
    assert!(job.video.iter().all(|p| p.track == Track::Video));
    // The audio ring has its own window and cap.
    assert!(job.audio.iter().all(|p| p.track == Track::Audio));
    assert_eq!(job.audio.last().unwrap().pts_ns, 2_993_000_000);
    assert_eq!(job.audio.len(), 101);
}

#[test]
fn a_job_knows_its_settings() {
    let mut config = Config::default();
    config.output_dir = "/data/clips".to_string();
    config.copy_to_clipboard = true;
    let mut core = PipelineCore::new(config);
    let audio = AudioInfo { sample_rate: 48000, channels: 2, codec: AudioCodec::Aac };
    core.set_stream_info(info(), Some(audio));
    core.absorb(packet(5, true, Track::Video));
    let job = started(core.save_last_n(1751500000));
    assert_eq!(job.out, "/data/clips/rewind_1751500000.mp4");
    assert_eq!(job.folder.as_deref(), Some("/data/clips"));
    assert_eq!((job.info, job.audio_info), (info(), Some(audio)));
    assert_eq!(job.settings.keyframe_interval, 120);
    let after = after_save(&job, Ok(()));
    core.finish_save();
    let convert = after.convert.unwrap();
    assert_eq!(convert.input, job.out);
    assert_eq!(convert.output, "/data/clips/rewind_1751500000.share.mp4");
    assert_eq!(after.copy, Some(job.out));
    let mut quiet = Config::default();
    quiet.auto_convert = false;
    core.set_config(quiet);
    let job = started(core.save_last_n(2));
    let after = after_save(&job, Ok(()));
    assert!(after.convert.is_none() && after.copy.is_none());
    assert_eq!(core.stream_info(), Some(info()));
}

#[test]
fn copies_are_reported() {
    assert_eq!(text(&after_convert("b.mp4", Ok(()))), "converted b.mp4");
    assert_eq!(
        text(&after_convert("b.mp4", Err(EncodeError::Unsupported("x".to_string())))),
        "error auto-convert failed: encode unsupported: x"
    );
    assert_eq!(text(&after_copy(Ok("done".to_string()))), "status done");
    assert_eq!(text(&after_copy(Err("no".to_string()))), "error clipboard copy failed: no");
}

struct Echo;

impl Muxer for Echo {
    fn write_clip(
        &self,
        video: &Vec<EncodedPacket>,
        info: StreamInfo,
        audio: &Vec<EncodedPacket>,
        audio_info: Option<AudioInfo>,
        _settings: &EncodeSettings,
        out: &str,
    ) -> Result<(), EncodeError> {
        Err(EncodeError::Backend(format!(
            "{} {} {} {} {out}",
            video.len(),
            info.width,
            audio.len(),
            audio_info.is_some()
        )))
    }
}

#[test]
fn the_muxer_gets_the_job() {
    let mut core = ready();
    core.absorb(packet(0, true, Track::Video));
    core.absorb(packet(0, true, Track::Audio));
    core.absorb(packet(1, true, Track::Audio));
    let job = started(core.save_last_n(3));
    assert_eq!(
        write_clip(&job, Ok(&Echo)).unwrap_err().message(),
        "encode backend error: 1 640 2 false clips/rewind_3.mp4"
    );
    let boxed: Box<dyn Muxer> = Box::new(Echo);
    assert!(write_clip(&job, Ok(&*boxed)).is_err());
    let none: Result<&Echo, EncodeError> = Err(EncodeError::Unsupported("none".to_string()));
    assert_eq!(write_clip(&job, none).unwrap_err().message(), "encode unsupported: none");
}

fn frame(pts_ns: u64) -> Frame {
    Frame {
        width: 640,
        height: 480,
        stride: 2560,
        format: PixelFormat::Bgrx8888,
        pts_ns,
        data: Arc::new(Vec::new()),
    }
}

fn dropped(step: NextStep) -> String {
    match step {
        NextStep::Drop(event) => text(&event),
        other => panic!("{other:?}"),
    }
}

#[test]
fn the_first_frame_configures_the_encoder() {
    let mut core = PipelineCore::new(Config::default());
    let (mut worker, event) = EncodeWorker::new(60, None);
    assert!(event.is_none());
    assert_eq!(worker.on_frame(&frame(1)), FrameStep::Configure(info()));
    let failed = worker.on_configured(
        &mut core,
        info(),
        None,
        Err(EncodeError::Backend("busy".to_string())),
    );
    assert_eq!(
        dropped(failed),
        "error encoder configure failed: encode backend error: busy"
    );
    assert_eq!(core.stream_info(), None);
    assert_eq!(worker.on_frame(&frame(2)), FrameStep::Configure(info()));
    let pushed = worker.on_configured(&mut core, info(), None, Ok(()));
    assert!(matches!(pushed, NextStep::Push));
    assert_eq!(core.stream_info(), Some(info()));
    assert_eq!(worker.on_frame(&frame(3)), FrameStep::Push);
    assert!(matches!(on_pushed(Ok(())), NextStep::Poll));
    assert_eq!(
        dropped(on_pushed(Err(EncodeError::Backend("full".to_string())))),
        "error encode error: encode backend error: full"
    );
    let (idle, event) = EncodeWorker::new(60, Some(EncodeError::Unsupported("none".to_string())));
    assert_eq!(
        text(&event.unwrap()),
        "status capture running without an encoder: encode unsupported: none"
    );
    assert_eq!(idle.on_frame(&frame(1)), FrameStep::Drop);
}

#[test]
fn frame_stamps_start_at_zero() {
    let mut clock = FrameClock::new();
    let stamps: Vec<u64> =
        [5_000u64, 5_016, 5_033, 5_010, 4_000, 5_050].iter().map(|t| clock.stamp(*t)).collect();
    assert_eq!(stamps, vec![0, 16, 33, 33, 33, 50]);
}

#[test]
fn a_started_clock_counts_from_its_start() {
    let mut clock = FrameClock::starting_at(5_000);
    let stamps: Vec<u64> =
        [5_010u64, 5_026, 4_000, 5_020, 5_043].iter().map(|t| clock.stamp(*t)).collect();
    assert_eq!(stamps, vec![10, 26, 26, 26, 43]);
}

#[test]
fn the_core_shows_what_it_holds() {
    let mut core = ready();
    assert_eq!(core.config().buffer_seconds, 1);
    assert_eq!((core.stream_info(), core.audio_info()), (Some(info()), None));
    core.absorb(packet(5, true, Track::Video));
    core.absorb(packet(6, true, Track::Audio));
    core.absorb(packet(7, true, Track::Audio));
    assert_eq!((core.buffer().len(), core.audio().len()), (1, 2));
}

#[test]
fn a_pipeline_starts_and_stops() {
    let mut p = Pipeline::new(Config::default());
    assert!(!p.is_running());
    assert!(p.stop().is_none());
    let plan = p.start().unwrap();
    assert_eq!((plan.fps, plan.accelerator.as_str()), (60, "Ctrl+Alt+S"));
    assert_eq!(plan.settings.keyframe_interval, 120);
    assert!(p.is_running());
    assert!(p.start().is_none());
    assert_eq!(
        text(&p.source_started("x11-xshm")),
        "status capturing via x11-xshm \u{2014} buffering last 30s"
    );
    assert_eq!(
        text(&p.hotkey_tried("Ctrl+Alt+S", HotkeyOutcome::Registered("evdev".to_string()))),
        "status save hotkey registered (Ctrl+Alt+S) via evdev"
    );
    p.shared_core_mut().set_stream_info(info(), None);
    p.shared_core_mut().absorb(packet(0, true, Track::Video));
    assert_eq!(started(p.save_last_n(1)).video.len(), 1);
    let (stop, event) = p.stop().unwrap();
    assert_eq!(stop, StopPlan { source: true, hotkeys: true });
    assert_eq!(text(&event), "status capture stopped");
    assert!(!p.is_running());
    assert!(p.stop().is_none());
    // Stopping loses nothing, starting begins anew.
    assert_eq!(p.shared_core().buffer().len(), 1);
    assert!(p.start().is_some());
    assert_eq!(p.shared_core().buffer().len(), 0);
    assert_eq!(p.shared_core().stream_info(), None);
}

#[test]
fn a_failed_start_can_be_repeated() {
    let mut p = Pipeline::new(Config::default());
    assert!(p.start().is_some());
    assert_eq!(
        p.start_failed(&CaptureError::PermissionDenied),
        "screen capture permission denied"
    );
    assert!(!p.is_running());
    assert!(p.stop().is_none());
    assert!(p.start().is_some());
    assert!(p.is_running());
    p.source_started("s");
    let failed = HotkeyOutcome::Failed(HotkeyError::Backend("denied".to_string()));
    assert_eq!(
        text(&p.hotkey_tried("F9", failed)),
        "status hotkey unavailable: hotkey backend error: denied \u{2014} use the Save button"
    );
    let none = HotkeyOutcome::NoManager(HotkeyError::Unsupported("none".to_string()));
    assert_eq!(
        text(&p.hotkey_tried("F9", none)),
        "status hotkey backend unavailable: hotkey unsupported: none \u{2014} use the Save button"
    );
    assert_eq!(p.stop().unwrap().0, StopPlan { source: true, hotkeys: false });
}

#[test]
fn the_audio_ring_has_room_for_its_packets() {
    let mut config = Config::default();
    config.buffer_seconds = 10;
    config.target_fps = 5;
    let mut core = PipelineCore::new(config);
    for i in 0..1000u64 {
        core.absorb(packet(i * 20, true, Track::Audio));
    }
    assert_eq!(core.audio().len(), 501);
    assert_eq!(core.buffer().len(), 0);
}

#[test]
fn events_are_cloned() {
    let e = PipelineEvent::ClipConverted("x".to_string());
    assert_eq!(text(&e.clone()), text(&e));
}
