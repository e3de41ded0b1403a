use rewind::config::Config;
use rewind::media::{
    AudioCodec, AudioSource, CaptureTarget, Codec, Container, EncodeSettings, PixelFormat,
};

#[test]
fn the_defaults_are_local_first() {
    let c = Config::default();
    assert_eq!((c.buffer_seconds, c.target_fps, c.bitrate_kbps), (30, 60, 40_000));
    assert_eq!(c.output_dir, "clips");
    assert_eq!(c.save_hotkey, "Ctrl+Alt+S");
    assert_eq!(c.capture_target, CaptureTarget::Monitor);
    assert!(c.capture_audio && c.auto_convert && !c.copy_to_clipboard);
    assert_eq!(c.audio_bitrate_kbps, 160);
    assert!(c.is_in_range());
    assert_eq!(c.encode_settings().keyframe_interval, 120);
}

#[test]
fn default_encode_settings() {
    let s = EncodeSettings::default();
    assert_eq!((s.codec, s.container, s.keyframe_interval), (Codec::H264, Container::Mp4, 60));
    assert_eq!((s.bitrate_kbps, s.audio_bitrate_kbps), (40_000, 160));
    assert_eq!(s.audio_source, AudioSource::SystemMonitor);
    assert!(s.capture_audio && s.auto_convert);
}

#[test]
fn a_keyframe_comes_every_two_seconds() {
    let mut c = Config::default();
    c.target_fps = 30;
    assert_eq!(c.encode_settings().keyframe_interval, 60);
    c.target_fps = 0;
    assert_eq!(c.encode_settings().keyframe_interval, 1);
}

#[test]
fn the_audio_codec_goes_with_the_container() {
    let mut c = Config::default();
    assert_eq!(c.encode_settings().audio_codec, AudioCodec::Aac);
    c.container = Container::Mkv;
    assert_eq!(c.encode_settings().audio_codec, AudioCodec::Opus);
    assert_eq!((AudioCodec::Aac.label(), AudioCodec::Opus.label()), ("AAC", "Opus"));
}

#[test]
fn clips_are_named_after_their_time() {
    let mut c = Config::default();
    assert_eq!(c.new_clip_path(1751500000), "clips/rewind_1751500000.mp4");
    assert_ne!(c.new_clip_path(1), c.new_clip_path(2));
    c.container = Container::Mkv;
    c.output_dir = "/tmp/x/".to_string();
    assert_eq!(c.new_clip_path(0), "/tmp/x/rewind_0.mkv");
}

#[test]
fn the_shareable_copy_lies_beside_the_clip() {
    assert_eq!(
        Config::shareable_path("clips/rewind_1751500000.mp4"),
        "clips/rewind_1751500000.share.mp4"
    );
    assert_eq!(Config::shareable_path("a.share.mp4"), "a.share.share.mp4");
    assert_eq!(Config::shareable_path("/"), "./clip.share.mp4");
    assert_eq!(Config::shareable_path(""), "./clip.share.mp4");
    assert_eq!(Config::shareable_path("."), "clip.share.mp4");
    assert_eq!(Config::shareable_path("clips/.."), "clips/clip.share.mp4");
    assert_eq!(Config::shareable_path("clip.share.mp4"), "clip.share.share.mp4");
}

#[test]
fn numbers_out_of_range_are_seen() {
    let mut c = Config::default();
    c.target_fps = u32::MAX;
    assert!(!c.is_in_range());
    c.target_fps = 60;
    c.buffer_seconds = u32::MAX;
    assert!(!c.is_in_range());
    c.buffer_seconds = u32::MAX / 60;
    assert!(c.is_in_range());
}

#[test]
fn media_names() {
    let names: Vec<&str> = [
        PixelFormat::Bgrx8888,
        PixelFormat::Rgbx8888,
        PixelFormat::Bgra8888,
        PixelFormat::Rgba8888,
        PixelFormat::Xrgb8888,
    ]
    .iter()
    .map(|f| f.gst_format())
    .collect();
    assert_eq!(names, vec!["BGRx", "RGBx", "BGRA", "RGBA", "xRGB"]);
    assert_eq!(PixelFormat::Rgba8888.bytes_per_pixel(), 4);
    assert_eq!((Container::Mp4.extension(), Container::Mkv.extension()), ("mp4", "mkv"));
    assert!(!CaptureTarget::Monitor.is_window());
    assert!(CaptureTarget::Window.is_window() && CaptureTarget::ActiveWindow.is_window());
}
