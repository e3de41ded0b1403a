use rewind::config::Config;
use rewind::gui::{
    apply_settings, capture_targets, idle_view, index_from_target, on_event, on_started,
    recording_view, target_from_index, SettingsForm, StartView,
};
use rewind::media::CaptureTarget;
use rewind::pipeline::PipelineEvent;

#[test]
fn target_index_round_trips() {
    for (i, (_, target)) in capture_targets().iter().enumerate() {
        assert_eq!(index_from_target(*target), i as u32);
        assert_eq!(target_from_index(i as u32), *target);
    }
}

#[test]
fn out_of_range_index_falls_back_to_monitor() {
    assert_eq!(target_from_index(99), CaptureTarget::Monitor);
}

#[test]
fn default_target_is_selectable() {
    // The default config target must have a dropdown row.
    let idx = index_from_target(Config::default().capture_target);
    assert!((idx as usize) < capture_targets().len());
}

#[test]
fn targets_have_their_labels() {
    let labels: Vec<&str> = capture_targets().iter().map(|(label, _)| *label).collect();
    assert_eq!(labels, vec!["Whole screen", "Specific window", "Active window"]);
}

#[test]
fn settings_become_a_configuration() {
    let before = Config::default();
    let after = apply_settings(
        &before,
        SettingsForm {
            buffer_seconds: 45,
            output_dir: "/tmp/out".to_string(),
            save_hotkey: "Ctrl+F9".to_string(),
            target_row: 2,
            capture_audio: false,
            auto_convert: false,
            copy_to_clipboard: true,
        },
    );
    assert_eq!(after.buffer_seconds, 45);
    assert_eq!(after.output_dir, "/tmp/out");
    assert_eq!(after.save_hotkey, "Ctrl+F9");
    assert_eq!(after.capture_target, CaptureTarget::ActiveWindow);
    assert!(!after.capture_audio && !after.auto_convert && after.copy_to_clipboard);
    assert_eq!(after.target_fps, before.target_fps);
    assert_eq!(after.bitrate_kbps, before.bitrate_kbps);
}

#[test]
fn events_show_in_the_window() {
    let s = on_event(PipelineEvent::Status("hi".to_string()));
    assert_eq!((s.title, s.detail.as_deref()), (None, Some("hi")));
    assert!(s.toast.is_none());
    let saved = on_event(PipelineEvent::ClipSaved("a.mp4".to_string()));
    assert_eq!(saved.title, Some("Clip saved"));
    let toast = saved.toast.unwrap();
    assert_eq!((toast.title.as_str(), toast.timeout), ("Saved \u{2192} a.mp4", 4));
    let shared = on_event(PipelineEvent::ClipConverted("a.share.mp4".to_string()));
    assert_eq!(shared.title, None);
    assert_eq!(shared.toast.unwrap().title, "Shareable copy ready \u{2192} a.share.mp4");
    let error = on_event(PipelineEvent::Error("bad".to_string()));
    let toast = error.toast.unwrap();
    assert_eq!((toast.title.as_str(), toast.timeout), ("\u{26a0} bad", 6));
}

#[test]
fn the_button_follows_the_capture() {
    let on = recording_view();
    assert_eq!((on.button, on.title), ("Stop Capture", "Recording"));
    assert!(on.live && on.destructive && on.can_save && on.detail.is_none());
    let off = idle_view();
    assert_eq!((off.button, off.title), ("Start Capture", "Idle"));
    assert!(!off.live && !off.destructive && !off.can_save);
    assert_eq!(off.detail, Some("Not capturing \u{2014} your screen stays private."));
    assert!(matches!(on_started(Ok(())), StartView::Recording(v) if v.live));
    match on_started(Err("no display".to_string())) {
        StartView::Failed(toast) => {
            assert_eq!(toast.title, "\u{26a0} Could not start capture: no display")
        }
        StartView::Recording(_) => panic!("a failed start is not shown as a capture"),
    }
}
