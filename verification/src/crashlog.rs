//! Crash logging: where the log lies and what a line of it says.

use crate::path::{join, joined_path};
use crate::text::{decimal, joined3, opt_str_text, u64_text};
use vstd::prelude::*;
use vstd::string::*;

verus! {

/// The folder for state: `$XDG_STATE_HOME` where it is set and not empty, else
/// `.local/state` in the home folder, else the profile folder, else the current one.
pub open spec fn state_home(
    xdg: Option<Seq<char>>,
    home: Option<Seq<char>>,
    profile: Option<Seq<char>>,
) -> Seq<char> {
    if xdg is Some && xdg->0.len() > 0 {
        xdg->0
    } else if home is Some {
        joined_path(joined_path(home->0, ".local"@), "state"@)
    } else if profile is Some {
        profile->0
    } else {
        "."@
    }
}

/// The folder of this program below the folder for state, from the values of
/// `$XDG_STATE_HOME`, `$HOME` and `$USERPROFILE`.
pub fn state_dir(xdg: Option<&str>, home: Option<&str>, profile: Option<&str>) -> (r: String)
    ensures
        r@ == joined_path(
            state_home(opt_str_text(xdg), opt_str_text(home), opt_str_text(profile)),
            "rewind"@,
        ),
{
    match xdg {
        Some(base) => {
            if !base.is_empty() {
                return join(base, "rewind");
            }
        },
        None => {},
    }
    match home {
        Some(home) => {
            let local = join(home, ".local");
            let state = join(local.as_str(), "state");
            return join(state.as_str(), "rewind");
        },
        None => {},
    }
    match profile {
        Some(profile) => join(profile, "rewind"),
        None => join(".", "rewind"),
    }
}

/// The crash log in a folder.
pub fn log_path(dir: &str) -> (r: String)
    ensures
        r@ == joined_path(dir@, "crash.log"@),
{
    join(dir, "crash.log")
}

/// A line of the crash log: when, which version, on which thread, and what the panic
/// says.
pub fn crash_line(secs: u64, version: &str, thread: Option<&str>, info: &str) -> (r: String)
    ensures
        r@ == "["@ + decimal(secs as nat) + "] rewind v"@ + version@ + " panicked on thread '"@ + (
        match thread {
            Some(name) => name@,
            None => "<unnamed>"@,
        }) + "': "@ + info@ + "\n"@,
{
    let number = u64_text(secs);
    let name = match thread {
        Some(name) => name,
        None => "<unnamed>",
    };
    let mut line = joined3("[", number.as_str(), "] rewind v");
    line.append(version);
    line.append(" panicked on thread '");
    line.append(name);
    line.append("': ");
    line.append(info);
    line.append("\n");
    line
}

// --- laws --------------------------------------------------------------------------

/// The log lies in `rewind` in `$XDG_STATE_HOME` where that says something, else in
/// `.local/state` in the home folder, else in the profile folder, else in the current one.
pub proof fn law_state_folder(
    xdg: Option<&str>,
    home: Option<&str>,
    profile: Option<&str>,
    r: String,
)
    requires
        call_ensures(state_dir, (xdg, home, profile), r),
    ensures
        xdg is Some && xdg->0@.len() > 0 ==> r@ == joined_path(xdg->0@, "rewind"@),
        (xdg is None || xdg->0@.len() == 0) && home is Some ==> r@ == joined_path(
            joined_path(joined_path(home->0@, ".local"@), "state"@),
            "rewind"@,
        ),
        (xdg is None || xdg->0@.len() == 0) && home is None && profile is Some ==> r@
            == joined_path(profile->0@, "rewind"@),
        (xdg is None || xdg->0@.len() == 0) && home is None && profile is None ==> r@
            == joined_path("."@, "rewind"@),
{
}

/// A line of the log says when, which version, on which thread and what, and ends.
pub proof fn law_crash_lines_say_everything(
    secs: u64,
    version: &str,
    thread: Option<&str>,
    info: &str,
    r: String,
    dir: &str,
    path: String,
)
    requires
        call_ensures(crash_line, (secs, version, thread, info), r),
        call_ensures(log_path, (dir,), path),
    ensures
        thread matches Some(name) ==> r@ == "["@ + decimal(secs as nat) + "] rewind v"@ + version@
            + " panicked on thread '"@ + name@ + "': "@ + info@ + "\n"@,
        thread is None ==> r@ == "["@ + decimal(secs as nat) + "] rewind v"@ + version@
            + " panicked on thread '"@ + "<unnamed>"@ + "': "@ + info@ + "\n"@,
        path@ == joined_path(dir@, "crash.log"@),
{
}

} // verus!
