//! What the window shows and how its settings become a configuration.

use crate::config::Config;
use crate::media::CaptureTarget;
use crate::pipeline::PipelineEvent;
use crate::text::joined;
use vstd::prelude::*;
use vstd::string::*;

verus! {

// --- capture targets ---------------------------------------------------------------

/// The capture targets in the order of the dropdown.
pub open spec fn target_at(i: int) -> Option<CaptureTarget> {
    if i == 0 {
        Some(CaptureTarget::Monitor)
    } else if i == 1 {
        Some(CaptureTarget::Window)
    } else if i == 2 {
        Some(CaptureTarget::ActiveWindow)
    } else {
        None
    }
}

/// The label of a capture target.
pub open spec fn target_label(target: CaptureTarget) -> Seq<char> {
    match target {
        CaptureTarget::Monitor => "Whole screen"@,
        CaptureTarget::Window => "Specific window"@,
        CaptureTarget::ActiveWindow => "Active window"@,
    }
}

/// The capture targets and their labels, in the order of the dropdown.
pub fn capture_targets() -> (r: Vec<(&'static str, CaptureTarget)>)
    ensures
        r@.len() == 3,
        forall|i: int|
            0 <= i < 3 ==> target_at(i) == Some((#[trigger] r@[i]).1) && r@[i].0@ == target_label(
                r@[i].1,
            ),
{
    vec![
        ("Whole screen", CaptureTarget::Monitor),
        ("Specific window", CaptureTarget::Window),
        ("Active window", CaptureTarget::ActiveWindow),
    ]
}

/// The capture target of a row of the dropdown; the monitor where there is no such row.
pub fn target_from_index(i: u32) -> (r: CaptureTarget)
    ensures
        r == (match target_at(i as int) {
            Some(target) => target,
            None => CaptureTarget::Monitor,
        }),
{
    let targets = capture_targets();
    if (i as usize) < targets.len() {
        targets[i as usize].1
    } else {
        CaptureTarget::Monitor
    }
}

/// The row of a capture target.
pub fn index_from_target(target: CaptureTarget) -> (r: u32)
    ensures
        target_at(r as int) == Some(target),
{
    match target {
        CaptureTarget::Monitor => 0,
        CaptureTarget::Window => 1,
        CaptureTarget::ActiveWindow => 2,
    }
}

/// Every target has a row of its own, and a row stands for one target.
pub proof fn law_rows_and_targets_match(i: int, j: int)
    ensures
        target_at(i) is Some && target_at(i) == target_at(j) ==> i == j,
        target_at(i) is Some <==> 0 <= i < 3,
{
}

// --- settings ----------------------------------------------------------------------

/// What the rows of the settings hold.
#[derive(Debug)]
pub struct SettingsForm {
    pub buffer_seconds: u32,
    pub output_dir: String,
    pub save_hotkey: String,
    pub target_row: u32,
    pub capture_audio: bool,
    pub auto_convert: bool,
    pub copy_to_clipboard: bool,
}

/// The configuration with what the settings say; what they do not say stays as it was.
pub fn apply_settings(config: &Config, form: SettingsForm) -> (r: Config)
    ensures
        r == (Config {
            buffer_seconds: form.buffer_seconds,
            output_dir: form.output_dir,
            save_hotkey: form.save_hotkey,
            capture_target: match target_at(form.target_row as int) {
                Some(target) => target,
                None => CaptureTarget::Monitor,
            },
            capture_audio: form.capture_audio,
            auto_convert: form.auto_convert,
            copy_to_clipboard: form.copy_to_clipboard,
            ..*config
        }),
{
    let mut r = config.clone();
    r.buffer_seconds = form.buffer_seconds;
    r.output_dir = form.output_dir;
    r.save_hotkey = form.save_hotkey;
    r.capture_target = target_from_index(form.target_row);
    r.capture_audio = form.capture_audio;
    r.auto_convert = form.auto_convert;
    r.copy_to_clipboard = form.copy_to_clipboard;
    r
}

// --- events ------------------------------------------------------------------------

/// A short notice and for how many seconds it shows.
#[derive(Debug)]
pub struct Toast {
    pub title: String,
    pub timeout: u32,
}

/// What changes in the window.
#[derive(Debug)]
pub struct UiUpdate {
    /// The new title of the status card.
    pub title: Option<&'static str>,
    /// The new line below the title.
    pub detail: Option<String>,
    pub toast: Option<Toast>,
}

/// What an event of the pipeline changes in the window.
pub fn on_event(event: PipelineEvent) -> (r: UiUpdate)
    ensures
        match event {
            PipelineEvent::Status(s) => {
                &&& r.title is None
                &&& r.detail == Some(s)
                &&& r.toast is None
            },
            PipelineEvent::ClipSaved(p) => {
                &&& r.title matches Some(t) && t@ == "Clip saved"@
                &&& r.detail is None
                &&& r.toast matches Some(toast) && toast.title@ == "Saved → "@ + p@
                    && toast.timeout == 4
            },
            PipelineEvent::ClipConverted(p) => {
                &&& r.title is None
                &&& r.detail is None
                &&& r.toast matches Some(toast) && toast.title@ == "Shareable copy ready → "@ + p@
                    && toast.timeout == 4
            },
            PipelineEvent::Error(e) => {
                &&& r.title is None
                &&& r.detail is None
                &&& r.toast matches Some(toast) && toast.title@ == "⚠ "@ + e@ && toast.timeout
                    == 6
            },
        },
{
    match event {
        PipelineEvent::Status(s) => UiUpdate { title: None, detail: Some(s), toast: None },
        PipelineEvent::ClipSaved(p) => UiUpdate {
            title: Some("Clip saved"),
            detail: None,
            toast: Some(Toast { title: joined("Saved → ", p.as_str()), timeout: 4 }),
        },
        PipelineEvent::ClipConverted(p) => UiUpdate {
            title: None,
            detail: None,
            toast: Some(
                Toast { title: joined("Shareable copy ready → ", p.as_str()), timeout: 4 },
            ),
        },
        PipelineEvent::Error(e) => UiUpdate {
            title: None,
            detail: None,
            toast: Some(Toast { title: joined("⚠ ", e.as_str()), timeout: 6 }),
        },
    }
}

// --- start and stop ----------------------------------------------------------------

/// How the window shows whether it captures.
#[derive(Debug, Clone, Copy)]
pub struct CaptureView {
    /// The label of the button that starts and stops.
    pub button: &'static str,
    /// Whether the button warns that it stops.
    pub destructive: bool,
    /// Whether the indicator pulses.
    pub live: bool,
    pub title: &'static str,
    /// The new line below the title.
    pub detail: Option<&'static str>,
    /// Whether a clip can be saved.
    pub can_save: bool,
}

/// The window while it captures.
pub fn recording_view() -> (r: CaptureView)
    ensures
        r.button@ == "Stop Capture"@,
        r.destructive,
        r.live,
        r.title@ == "Recording"@,
        r.detail is None,
        r.can_save,
{
    CaptureView {
        button: "Stop Capture",
        destructive: true,
        live: true,
        title: "Recording",
        detail: None,
        can_save: true,
    }
}

/// The window while it does not capture.
pub fn idle_view() -> (r: CaptureView)
    ensures
        r.button@ == "Start Capture"@,
        !r.destructive,
        !r.live,
        r.title@ == "Idle"@,
        r.detail matches Some(s) && s@ == "Not capturing — your screen stays private."@,
        !r.can_save,
{
    CaptureView {
        button: "Start Capture",
        destructive: false,
        live: false,
        title: "Idle",
        detail: Some("Not capturing — your screen stays private."),
        can_save: false,
    }
}

/// What a start came to in the window.
#[derive(Debug)]
pub enum StartView {
    Recording(CaptureView),
    /// The button goes back, with this notice.
    Failed(Toast),
}

/// Shows what a start came to.
pub fn on_started(result: Result<(), String>) -> (r: StartView)
    ensures
        match result {
            Ok(_) => r matches StartView::Recording(view) && view.live && view.can_save
                && view.destructive && view.button@ == "Stop Capture"@ && view.title@
                == "Recording"@ && view.detail is None,
            Err(e) => r matches StartView::Failed(toast) && toast.title@
                == "⚠ Could not start capture: "@ + e@ && toast.timeout == 6,
        },
{
    match result {
        Ok(_) => StartView::Recording(recording_view()),
        Err(e) => StartView::Failed(
            Toast { title: joined("⚠ Could not start capture: ", e.as_str()), timeout: 6 },
        ),
    }
}

// --- laws --------------------------------------------------------------------------

/// What the settings say becomes the configuration, field by field, and everything that
/// they do not say stays.
pub proof fn law_settings_become_the_configuration(config: Config, form: SettingsForm, r: Config)
    requires
        call_ensures(apply_settings, (&config, form), r),
    ensures
        r.buffer_seconds == form.buffer_seconds,
        r.output_dir@ == form.output_dir@,
        r.save_hotkey@ == form.save_hotkey@,
        r.capture_audio == form.capture_audio,
        r.auto_convert == form.auto_convert,
        r.copy_to_clipboard == form.copy_to_clipboard,
        r.capture_target is Window <==> form.target_row == 1,
        r.capture_target is ActiveWindow <==> form.target_row == 2,
        r.capture_target is Monitor <==> form.target_row == 0 || form.target_row >= 3,
        r.target_fps == config.target_fps,
        r.bitrate_kbps == config.bitrate_kbps,
        r.container == config.container,
        r.codec == config.codec,
        r.audio_source == config.audio_source,
        r.audio_bitrate_kbps == config.audio_bitrate_kbps,
{
}

/// A row gives its target and a target its row; a row that is not there is the monitor.
pub proof fn law_rows_read_back(
    target: CaptureTarget,
    row: u32,
    back: CaptureTarget,
    other: u32,
    read: CaptureTarget,
)
    requires
        call_ensures(index_from_target, (target,), row),
        call_ensures(target_from_index, (row,), back),
        call_ensures(target_from_index, (other,), read),
    ensures
        back == target,
        other >= 3 ==> read is Monitor,
        row < 3,
{
}

/// What the pipeline says is shown as it is: a status below the title, and a clip, a copy
/// or an error in a notice.
pub proof fn law_events_are_shown(event: PipelineEvent, r: UiUpdate)
    requires
        call_ensures(on_event, (event,), r),
    ensures
        event matches PipelineEvent::Status(s) ==> (r.detail matches Some(d) && d@ == s@)
            && r.toast is None && r.title is None,
        event matches PipelineEvent::ClipSaved(p) ==> (r.toast matches Some(t) && t.title@
            == "Saved → "@ + p@ && t.timeout == 4) && (r.title matches Some(t) && t@
            == "Clip saved"@),
        event matches PipelineEvent::ClipConverted(p) ==> (r.toast matches Some(t) && t.title@
            == "Shareable copy ready → "@ + p@ && t.timeout == 4) && r.title is None,
        event matches PipelineEvent::Error(e) ==> (r.toast matches Some(t) && t.title@ == "⚠ "@
            + e@ && t.timeout == 6) && r.title is None,
{
}

/// A start that failed says why, and one that did not can be stopped and saved from.
pub proof fn law_starts_are_shown(result: Result<(), String>, r: StartView)
    requires
        call_ensures(on_started, (result,), r),
    ensures
        result is Ok <==> r is Recording,
        r matches StartView::Recording(view) ==> view.can_save && view.live && view.destructive,
        result matches Err(e) ==> (r matches StartView::Failed(t) && t.title@
            == "⚠ Could not start capture: "@ + e@),
{
}

/// The rows of the dropdown in their order, and how the window shows that it captures and
/// that it does not.
pub proof fn law_window_shows(
    rows: Vec<(&'static str, CaptureTarget)>,
    recording: CaptureView,
    idle: CaptureView,
)
    requires
        call_ensures(capture_targets, (), rows),
        call_ensures(recording_view, (), recording),
        call_ensures(idle_view, (), idle),
    ensures
        rows@.len() == 3,
        rows@[0].1 is Monitor && rows@[0].0@ == "Whole screen"@,
        rows@[1].1 is Window && rows@[1].0@ == "Specific window"@,
        rows@[2].1 is ActiveWindow && rows@[2].0@ == "Active window"@,
        recording.live && recording.can_save && recording.destructive && recording.detail is None,
        recording.button@ == "Stop Capture"@ && recording.title@ == "Recording"@,
        !idle.live && !idle.can_save && !idle.destructive,
        idle.button@ == "Start Capture"@ && idle.title@ == "Idle"@,
        idle.detail matches Some(s) && s@ == "Not capturing — your screen stays private."@,
{
    assert(rows@[0].1 is Monitor && rows@[1].1 is Window && rows@[2].1 is ActiveWindow);
}

} // verus!
