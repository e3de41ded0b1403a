use rewind::autostart::{
    autostart_dir, desktop_entry, desktop_file, handle_cli_args, install, report, uninstall,
    CliAction, Removal,
};
use rewind::cli::{capture_seconds, event_line};
use rewind::clipboard::{candidates, copy_file, exit_error, payload, ClipboardTool};
use rewind::crashlog::{crash_line, log_path, state_dir};
use rewind::pipeline::PipelineEvent;
use std::cell::RefCell;

#[test]
fn the_autostart_entry_lies_in_its_folder() {
    assert_eq!(autostart_dir(Some("/x"), Some("/h")), "/x/autostart");
    assert_eq!(autostart_dir(Some(""), Some("/h")), "autostart");
    assert_eq!(autostart_dir(None, Some("/h")), "/h/.config/autostart");
    assert_eq!(autostart_dir(None, None), ".config/autostart");
    assert_eq!(desktop_file(None, Some("/h")), "/h/.config/autostart/rewind.desktop");
}

#[test]
fn the_autostart_entry_points_at_the_program() {
    let text = desktop_entry("/usr/bin/rewind");
    assert_eq!(
        text,
        "[Desktop Entry]\nType=Application\nName=Rewind\nComment=Privacy-first clip recorder \u{2014} rolling replay buffer\nExec=/usr/bin/rewind\nTerminal=false\nX-GNOME-Autostart-enabled=true\nStartupNotify=false\n"
    );
    let plan = install(Ok("/usr/bin/rewind".to_string()), None, Some("/h")).unwrap();
    assert_eq!(plan.dir, "/h/.config/autostart");
    assert_eq!(plan.text, text);
    let plan = plan.on_created(Ok(())).unwrap();
    assert_eq!(plan.on_written(Ok(())).unwrap(), "/h/.config/autostart/rewind.desktop");
}

#[test]
fn a_failed_installation_says_why() {
    assert_eq!(
        install(Err("gone".to_string()), None, None).unwrap_err(),
        "current_exe: gone"
    );
    let plan = || install(Ok("e".to_string()), Some("/x"), None).unwrap();
    assert_eq!(
        plan().on_created(Err("denied".to_string())).unwrap_err(),
        "create /x/autostart: denied"
    );
    assert_eq!(
        plan().on_written(Err("full".to_string())).unwrap_err(),
        "write /x/autostart/rewind.desktop: full"
    );
}

#[test]
fn removing_the_entry_twice_is_fine() {
    let p = || "/x/rewind.desktop".to_string();
    assert_eq!(uninstall(p(), Removal::Removed), Ok(p()));
    assert_eq!(uninstall(p(), Removal::NotFound), Ok(p()));
    assert_eq!(
        uninstall(p(), Removal::Failed("denied".to_string())),
        Err("remove /x/rewind.desktop: denied".to_string())
    );
}

#[test]
fn flags_on_the_command_line() {
    let args = |a: &[&str]| a.iter().map(|s| s.to_string()).collect::<Vec<String>>();
    assert_eq!(handle_cli_args(&args(&[])), vec![]);
    assert_eq!(handle_cli_args(&args(&["--help", "install-autostart"])), vec![]);
    assert_eq!(
        handle_cli_args(&args(&["--uninstall-autostart", "x", "--install-autostart"])),
        vec![CliAction::Uninstall, CliAction::Install]
    );
    let r = report(CliAction::Install, Ok("/p".to_string()));
    assert_eq!((r.failed, r.text.as_str()), (false, "autostart installed: /p"));
    let r = report(CliAction::Install, Err("e".to_string()));
    assert_eq!((r.failed, r.text.as_str()), (true, "autostart install failed: e"));
    let r = report(CliAction::Uninstall, Ok("/p".to_string()));
    assert_eq!((r.failed, r.text.as_str()), (false, "autostart removed: /p"));
    let r = report(CliAction::Uninstall, Err("e".to_string()));
    assert_eq!((r.failed, r.text.as_str()), (true, "autostart uninstall failed: e"));
}

#[test]
fn clipboard_tools_follow_the_session() {
    let names = |wayland| candidates(wayland).iter().map(|t| t.tool).collect::<Vec<_>>();
    assert_eq!(names(true), vec!["wl-copy", "xclip"]);
    assert_eq!(names(false), vec!["xclip", "xsel", "wl-copy"]);
    let tools = candidates(false);
    assert_eq!(tools[0].args, vec!["-selection", "clipboard", "-t", "text/uri-list", "-i"]);
    assert_eq!(tools[1].args, vec!["--clipboard", "--input"]);
    assert_eq!(tools[2].args, vec!["--type", "text/uri-list"]);
}

#[test]
fn a_clip_goes_to_the_clipboard() {
    let text = payload("a.mp4", Some("/clips/a.mp4"));
    assert_eq!(text, "file:///clips/a.mp4\n");
    assert_eq!(payload("a.mp4", None), "file://a.mp4\n");
    let tried = RefCell::new(Vec::new());
    let result = copy_file(false, &text, |t: &ClipboardTool, s: &String| {
        tried.borrow_mut().push(format!("{} {}", t.tool, s.trim()));
        if t.tool == "xsel" {
            Ok(())
        } else {
            Err("not found".to_string())
        }
    });
    assert_eq!(result, Ok("clip copied to clipboard via xsel".to_string()));
    assert_eq!(
        *tried.borrow(),
        vec!["xclip file:///clips/a.mp4", "xsel file:///clips/a.mp4"]
    );
    let fail = |t: &ClipboardTool, _: &String| Err(format!("no {}", t.tool));
    assert_eq!(copy_file(true, &text, fail), Err("xclip: no xclip".to_string()));
    assert_eq!(exit_error(Some(1)), format!("exited with {:?}", Some(1)));
    assert_eq!(exit_error(Some(-9)), "exited with Some(-9)");
    assert_eq!(exit_error(None), format!("exited with {:?}", None::<i32>));
}

#[test]
fn crashes_are_logged() {
    assert_eq!(state_dir(Some("/s"), Some("/h"), None), "/s/rewind");
    assert_eq!(state_dir(Some(""), Some("/h"), None), "/h/.local/state/rewind");
    assert_eq!(state_dir(None, None, Some("/u")), "/u/rewind");
    assert_eq!(state_dir(None, None, None), "./rewind");
    assert_eq!(log_path("/s/rewind"), "/s/rewind/crash.log");
    assert_eq!(
        crash_line(12, "0.1.0", Some("x11-capture"), "boom"),
        "[12] rewind v0.1.0 panicked on thread 'x11-capture': boom\n"
    );
    assert_eq!(
        crash_line(0, "0.1.0", None, "boom"),
        "[0] rewind v0.1.0 panicked on thread '<unnamed>': boom\n"
    );
}

#[test]
fn the_headless_program() {
    assert_eq!(capture_seconds(None), 5);
    assert_eq!(capture_seconds(Some("12")), 12);
    assert_eq!(capture_seconds(Some("x")), 5);
    assert_eq!(capture_seconds(Some("99999999999999999999")), 5);
    let line = |e| {
        let l = event_line(&e);
        (l.error, l.text)
    };
    assert_eq!(line(PipelineEvent::Status("a".to_string())), (false, "[status] a".to_string()));
    assert_eq!(
        line(PipelineEvent::ClipSaved("p".to_string())),
        (false, "[saved]  clip written to p".to_string())
    );
    assert_eq!(
        line(PipelineEvent::ClipConverted("p".to_string())),
        (false, "[share]  converted to p".to_string())
    );
    assert_eq!(line(PipelineEvent::Error("e".to_string())), (true, "[error]  e".to_string()));
}
