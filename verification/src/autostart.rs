//! Start at login, through the XDG autostart folder.

use crate::path::{file_name_of, join, joined_path, law_join_then_split, parent_of};
use crate::text::{joined, joined3, opt_str_text, same, texts};
use vstd::prelude::*;
use vstd::string::*;

verus! {

/// The folder of autostart entries: `autostart` in `$XDG_CONFIG_HOME`, else in `.config`
/// in the home folder, else in `.config`.
pub open spec fn autostart_folder(xdg: Option<Seq<char>>, home: Option<Seq<char>>) -> Seq<char> {
    joined_path(
        if xdg is Some {
            xdg->0
        } else if home is Some {
            joined_path(home->0, ".config"@)
        } else {
            ".config"@
        },
        "autostart"@,
    )
}

/// The autostart entry of this program.
pub open spec fn entry_path(xdg: Option<Seq<char>>, home: Option<Seq<char>>) -> Seq<char> {
    joined_path(autostart_folder(xdg, home), "rewind.desktop"@)
}

/// The folder of autostart entries, from the values of `$XDG_CONFIG_HOME` and `$HOME`.
pub fn autostart_dir(xdg: Option<&str>, home: Option<&str>) -> (r: String)
    ensures
        r@ == autostart_folder(opt_str_text(xdg), opt_str_text(home)),
{
    match xdg {
        Some(base) => return join(base, "autostart"),
        None => {},
    }
    match home {
        Some(home) => {
            let base = join(home, ".config");
            join(base.as_str(), "autostart")
        },
        None => join(".config", "autostart"),
    }
}

/// The autostart entry of this program, from the values of `$XDG_CONFIG_HOME` and
/// `$HOME`.
pub fn desktop_file(xdg: Option<&str>, home: Option<&str>) -> (r: String)
    ensures
        r@ == entry_path(opt_str_text(xdg), opt_str_text(home)),
{
    let dir = autostart_dir(xdg, home);
    join(dir.as_str(), "rewind.desktop")
}

/// The text of the autostart entry for a program file.
pub open spec fn entry_text(exe: Seq<char>) -> Seq<char> {
    "[Desktop Entry]\nType=Application\nName=Rewind\nComment=Privacy-first clip recorder — rolling replay buffer\nExec="@
        + exe + "\nTerminal=false\nX-GNOME-Autostart-enabled=true\nStartupNotify=false\n"@
}

/// The text of the autostart entry for a program file.
pub fn desktop_entry(exe: &str) -> (r: String)
    ensures
        r@ == entry_text(exe@),
{
    joined3(
        "[Desktop Entry]\nType=Application\nName=Rewind\nComment=Privacy-first clip recorder — rolling replay buffer\nExec=",
        exe,
        "\nTerminal=false\nX-GNOME-Autostart-enabled=true\nStartupNotify=false\n",
    )
}

/// What a failed step on a path says: `what`, the path, and the error.
pub open spec fn step_error(what: Seq<char>, path: Seq<char>, e: Seq<char>) -> Seq<char> {
    what + path + ": "@ + e
}

fn step_error_text(what: &str, path: &str, e: &str) -> (r: String)
    ensures
        r@ == step_error(what@, path@, e@),
{
    let head = joined(what, path);
    joined3(head.as_str(), ": ", e)
}

/// An autostart entry to write.
#[derive(Debug)]
pub struct Install {
    /// The folder, which may have to be made first.
    pub dir: String,
    /// The entry.
    pub path: String,
    /// The text of the entry.
    pub text: String,
}

/// The autostart entry that points at the program file, from the values of
/// `$XDG_CONFIG_HOME` and `$HOME`; an error where the program file is not known.
pub fn install(exe: Result<String, String>, xdg: Option<&str>, home: Option<&str>) -> (r: Result<
    Install,
    String,
>)
    ensures
        match exe {
            Ok(exe) => r matches Ok(plan) && plan.dir@ == autostart_folder(
                opt_str_text(xdg),
                opt_str_text(home),
            ) && plan.path@ == entry_path(opt_str_text(xdg), opt_str_text(home)) && plan.text@
                == entry_text(exe@),
            Err(e) => r matches Err(s) && s@ == "current_exe: "@ + e@,
        },
{
    match exe {
        Ok(exe) => Ok(
            Install {
                dir: autostart_dir(xdg, home),
                path: desktop_file(xdg, home),
                text: desktop_entry(exe.as_str()),
            },
        ),
        Err(e) => Err(joined("current_exe: ", e.as_str())),
    }
}

impl Install {
    /// Takes the outcome of making the folder; without it nothing is written.
    pub fn on_created(self, result: Result<(), String>) -> (r: Result<Install, String>)
        ensures
            match result {
                Ok(_) => r == Ok::<Install, String>(self),
                Err(e) => r matches Err(s) && s@ == step_error("create "@, self.dir@, e@),
            },
    {
        match result {
            Ok(_) => Ok(self),
            Err(e) => Err(step_error_text("create ", self.dir.as_str(), e.as_str())),
        }
    }

    /// Takes the outcome of writing the entry: its path, or what is said of the failure.
    pub fn on_written(self, result: Result<(), String>) -> (r: Result<String, String>)
        ensures
            match result {
                Ok(_) => r == Ok::<String, String>(self.path),
                Err(e) => r matches Err(s) && s@ == step_error("write "@, self.path@, e@),
            },
    {
        match result {
            Ok(_) => Ok(self.path),
            Err(e) => Err(step_error_text("write ", self.path.as_str(), e.as_str())),
        }
    }
}

/// What came of removing a file.
#[derive(Debug)]
pub enum Removal {
    Removed,
    NotFound,
    Failed(String),
}

/// Takes the outcome of removing the autostart entry. An entry that is not there is as
/// good as removed.
pub fn uninstall(path: String, removal: Removal) -> (r: Result<String, String>)
    ensures
        match removal {
            Removal::Removed => r == Ok::<String, String>(path),
            Removal::NotFound => r == Ok::<String, String>(path),
            Removal::Failed(e) => r matches Err(s) && s@ == step_error("remove "@, path@, e@),
        },
{
    match removal {
        Removal::Removed => Ok(path),
        Removal::NotFound => Ok(path),
        Removal::Failed(e) => Err(step_error_text("remove ", path.as_str(), e.as_str())),
    }
}

// --- command line ------------------------------------------------------------------

/// What an argument on the command line asks for.
#[derive(Debug, Clone, Copy, PartialEq, Eq, Structural)]
pub enum CliAction {
    Install,
    Uninstall,
}

/// What an argument asks for, if it is one of ours.
pub open spec fn action_of(arg: Seq<char>) -> Option<CliAction> {
    if arg == "--install-autostart"@ {
        Some(CliAction::Install)
    } else if arg == "--uninstall-autostart"@ {
        Some(CliAction::Uninstall)
    } else {
        None
    }
}

/// What arguments ask for, in order.
pub open spec fn actions_of(args: Seq<Seq<char>>) -> Seq<CliAction>
    decreases args.len(),
{
    if args.len() == 0 {
        Seq::empty()
    } else {
        let earlier = actions_of(args.drop_last());
        match action_of(args.last()) {
            Some(action) => earlier.push(action),
            None => earlier,
        }
    }
}

/// What the arguments ask for, in order; the program goes on only where that is nothing.
/// `args` is without the name of the program.
pub fn handle_cli_args(args: &Vec<String>) -> (r: Vec<CliAction>)
    ensures
        r@ == actions_of(texts(args@)),
{
    let mut actions: Vec<CliAction> = Vec::new();
    let ghost all = texts(args@);
    for i in 0..args.len()
        invariant
            all == texts(args@),
            actions@ == actions_of(all.take(i as int)),
    {
        assert(all.take(i + 1).drop_last() =~= all.take(i as int));
        assert(all.take(i + 1).last() == args@[i as int]@);
        if same(args[i].as_str(), "--install-autostart") {
            actions.push(CliAction::Install);
        } else if same(args[i].as_str(), "--uninstall-autostart") {
            actions.push(CliAction::Uninstall);
        }
    }
    assert(all.take(all.len() as int) =~= all);
    actions
}

/// A line to print.
#[derive(Debug)]
pub struct Report {
    /// Whether the line tells of a failure.
    pub failed: bool,
    pub text: String,
}

/// What is printed of an action.
pub fn report(action: CliAction, result: Result<String, String>) -> (r: Report)
    ensures
        r.failed == (result is Err),
        r.text@ == (match (action, result) {
            (CliAction::Install, Ok(p)) => "autostart installed: "@ + p@,
            (CliAction::Install, Err(e)) => "autostart install failed: "@ + e@,
            (CliAction::Uninstall, Ok(p)) => "autostart removed: "@ + p@,
            (CliAction::Uninstall, Err(e)) => "autostart uninstall failed: "@ + e@,
        }),
{
    match (action, result) {
        (CliAction::Install, Ok(p)) => Report {
            failed: false,
            text: joined("autostart installed: ", p.as_str()),
        },
        (CliAction::Install, Err(e)) => Report {
            failed: true,
            text: joined("autostart install failed: ", e.as_str()),
        },
        (CliAction::Uninstall, Ok(p)) => Report {
            failed: false,
            text: joined("autostart removed: ", p.as_str()),
        },
        (CliAction::Uninstall, Err(e)) => Report {
            failed: true,
            text: joined("autostart uninstall failed: ", e.as_str()),
        },
    }
}

// --- laws --------------------------------------------------------------------------

/// What is removed is what was installed: the entry lies in the folder that was made for
/// it, under its own name.
pub proof fn law_entry_lies_in_its_folder(xdg: Option<Seq<char>>, home: Option<Seq<char>>)
    ensures
        parent_of(entry_path(xdg, home)) == Some(autostart_folder(xdg, home)),
        file_name_of(entry_path(xdg, home)) == Some("rewind.desktop"@),
{
    reveal_strlit("rewind.desktop");
    reveal_strlit("autostart");
    let folder = autostart_folder(xdg, home);
    law_join_then_split(folder, "rewind.desktop"@);
    let base = if xdg is Some {
        xdg->0
    } else if home is Some {
        joined_path(home->0, ".config"@)
    } else {
        ".config"@
    };
    law_join_then_split(base, "autostart"@);
    assert(folder.take(folder.len() as int) =~= folder);
}

/// The program goes on exactly where no argument is one of ours.
pub proof fn law_no_action_without_a_flag(args: Seq<Seq<char>>)
    ensures
        actions_of(args).len() == 0 <==> forall|i: int|
            0 <= i < args.len() ==> action_of(#[trigger] args[i]) is None,
    decreases args.len(),
{
    if args.len() > 0 {
        let earlier = args.drop_last();
        law_no_action_without_a_flag(earlier);
        assert forall|i: int| 0 <= i < earlier.len() implies #[trigger] earlier[i] == args[i] by {}
        assert(args.last() == args[args.len() - 1]);
        if forall|i: int| 0 <= i < args.len() ==> action_of(#[trigger] args[i]) is None {
            assert forall|i: int| 0 <= i < earlier.len() implies action_of(
                #[trigger] earlier[i],
            ) is None by {
                assert(earlier[i] == args[i]);
            }
        } else {
            let i = choose|i: int|
                0 <= i < args.len() && !(action_of(#[trigger] args[i]) is None);
            if i < earlier.len() {
                assert(earlier[i] == args[i]);
            }
        }
    }
}

/// The folder of autostart entries is `autostart` in the folder of configuration, and the
/// entry lies in it.
pub proof fn law_autostart_folder(
    base: &str,
    home: &str,
    given: String,
    in_base: String,
    at_home: String,
    config: String,
    config_text: &str,
    in_config: String,
    nowhere: String,
    in_dot: String,
)
    requires
        call_ensures(autostart_dir, (Some(base), Some(home)), given),
        call_ensures(join, (base, "autostart"), in_base),
        call_ensures(autostart_dir, (None, Some(home)), at_home),
        call_ensures(join, (home, ".config"), config),
        config_text@ == config@,
        call_ensures(join, (config_text, "autostart"), in_config),
        call_ensures(autostart_dir, (None, None), nowhere),
        call_ensures(join, (".config", "autostart"), in_dot),
    ensures
        given@ == in_base@,
        at_home@ == in_config@,
        nowhere@ == in_dot@,
{
}

/// The entry that is installed lies under its name in the folder that is made for it, and
/// starts the program file; without the program file nothing is installed.
pub proof fn law_install_points_at_the_program(
    exe: Result<String, String>,
    xdg: Option<&str>,
    home: Option<&str>,
    r: Result<Install, String>,
    dir: String,
    dir_text: &str,
    entry: String,
    file: String,
)
    requires
        call_ensures(install, (exe, xdg, home), r),
        call_ensures(autostart_dir, (xdg, home), dir),
        dir_text@ == dir@,
        call_ensures(join, (dir_text, "rewind.desktop"), entry),
        call_ensures(desktop_file, (xdg, home), file),
    ensures
        file@ == entry@,
        r is Ok <==> exe is Ok,
        r matches Ok(plan) ==> {
            &&& plan.dir@ == dir@
            &&& plan.path@ == entry@
            &&& plan.text@
                == "[Desktop Entry]\nType=Application\nName=Rewind\nComment=Privacy-first clip recorder — rolling replay buffer\nExec="@
                + exe->Ok_0@
                + "\nTerminal=false\nX-GNOME-Autostart-enabled=true\nStartupNotify=false\n"@
        },
        r matches Err(s) ==> s@ == "current_exe: "@ + exe->Err_0@,
{
}

/// The entry of a program file, for any program file.
pub proof fn law_entry_starts_the_program(exe: &str, r: String)
    requires
        call_ensures(desktop_entry, (exe,), r),
    ensures
        r@
            == "[Desktop Entry]\nType=Application\nName=Rewind\nComment=Privacy-first clip recorder — rolling replay buffer\nExec="@
            + exe@ + "\nTerminal=false\nX-GNOME-Autostart-enabled=true\nStartupNotify=false\n"@,
{
}

/// A step that succeeds hands on what there is, and one that fails says on which path.
pub proof fn law_failed_steps_say_where(
    plan: Install,
    result: Result<(), String>,
    created: Result<Install, String>,
    written: Result<String, String>,
    path: String,
    removal: Removal,
    removed: Result<String, String>,
)
    requires
        call_ensures(Install::on_created, (plan, result), created),
        call_ensures(Install::on_written, (plan, result), written),
        call_ensures(uninstall, (path, removal), removed),
    ensures
        result is Ok ==> created == Ok::<Install, String>(plan) && written == Ok::<String, String>(
            plan.path,
        ),
        result matches Err(e) ==> created is Err && created->Err_0@ == "create "@ + plan.dir@ + ": "@
            + e@ && written is Err && written->Err_0@ == "write "@ + plan.path@ + ": "@ + e@,
        !(removal is Failed) ==> removed == Ok::<String, String>(path),
        removal matches Removal::Failed(e) ==> removed is Err && removed->Err_0@ == "remove "@
            + path@ + ": "@ + e@,
{
}

/// One argument more asks for what it names, behind all that the others ask for; an argument
/// that is none of ours asks for nothing.
pub proof fn law_arguments_are_taken_in_order(
    args: Vec<String>,
    r: Vec<CliAction>,
    arg: String,
    more: Vec<String>,
    s: Vec<CliAction>,
)
    requires
        call_ensures(handle_cli_args, (&args,), r),
        call_ensures(handle_cli_args, (&more,), s),
        more@ == args@.push(arg),
    ensures
        args@.len() == 0 ==> r@.len() == 0,
        arg@ == "--install-autostart"@ ==> s@ == r@.push(CliAction::Install),
        arg@ == "--uninstall-autostart"@ ==> s@ == r@.push(CliAction::Uninstall),
        arg@ != "--install-autostart"@ && arg@ != "--uninstall-autostart"@ ==> s@ == r@,
{
    reveal_strlit("--install-autostart");
    reveal_strlit("--uninstall-autostart");
    assert(texts(more@).drop_last() =~= texts(args@));
    assert(texts(more@).last() == arg@);
    assert("--install-autostart"@.len() != "--uninstall-autostart"@.len());
}

/// What is printed says what was done or why it failed.
pub proof fn law_actions_are_reported(
    path: String,
    error: String,
    installed: Report,
    not_installed: Report,
    removed: Report,
    not_removed: Report,
)
    requires
        call_ensures(report, (CliAction::Install, Ok(path)), installed),
        call_ensures(report, (CliAction::Install, Err(error)), not_installed),
        call_ensures(report, (CliAction::Uninstall, Ok(path)), removed),
        call_ensures(report, (CliAction::Uninstall, Err(error)), not_removed),
    ensures
        !installed.failed && installed.text@ == "autostart installed: "@ + path@,
        not_installed.failed && not_installed.text@ == "autostart install failed: "@ + error@,
        !removed.failed && removed.text@ == "autostart removed: "@ + path@,
        not_removed.failed && not_removed.text@ == "autostart uninstall failed: "@ + error@,
{
}

} // verus!
