//! Copying a saved clip to the clipboard, as a reference to the file, with the clipboard
//! tools of the desktop.

use crate::text::{i32_text, joined, joined3, signed_decimal};
use vstd::prelude::*;
use vstd::string::*;

verus! {

/// A clipboard tool and the arguments it is run with.
#[derive(Debug)]
pub struct ClipboardTool {
    pub tool: &'static str,
    pub args: Vec<&'static str>,
}

/// A tool by its texts.
#[verifier::ext_equal]
pub struct ToolView {
    pub tool: Seq<char>,
    pub args: Seq<&'static str>,
}

impl View for ClipboardTool {
    type V = ToolView;

    open spec fn view(&self) -> ToolView {
        ToolView { tool: self.tool@, args: self.args@ }
    }
}

/// The tools by their texts.
pub open spec fn tool_views(tools: Seq<ClipboardTool>) -> Seq<ToolView> {
    tools.map_values(|t: ClipboardTool| t@)
}

pub open spec fn wl_copy_tool() -> ToolView {
    ToolView { tool: "wl-copy"@, args: seq!["--type", "text/uri-list"] }
}

pub open spec fn xclip_tool() -> ToolView {
    ToolView {
        tool: "xclip"@,
        args: seq!["-selection", "clipboard", "-t", "text/uri-list", "-i"],
    }
}

pub open spec fn xsel_tool() -> ToolView {
    ToolView { tool: "xsel"@, args: seq!["--clipboard", "--input"] }
}

/// The tools to try, in order: those of the session first.
pub open spec fn tools_for(wayland: bool) -> Seq<ToolView> {
    if wayland {
        seq![wl_copy_tool(), xclip_tool()]
    } else {
        seq![xclip_tool(), xsel_tool(), wl_copy_tool()]
    }
}

fn wl_copy() -> (r: ClipboardTool)
    ensures
        r@ == wl_copy_tool(),
{
    let r = ClipboardTool { tool: "wl-copy", args: vec!["--type", "text/uri-list"] };
    assert(r@.args =~= wl_copy_tool().args);
    r
}

fn xclip() -> (r: ClipboardTool)
    ensures
        r@ == xclip_tool(),
{
    let r = ClipboardTool {
        tool: "xclip",
        args: vec!["-selection", "clipboard", "-t", "text/uri-list", "-i"],
    };
    assert(r@.args =~= xclip_tool().args);
    r
}

fn xsel() -> (r: ClipboardTool)
    ensures
        r@ == xsel_tool(),
{
    let r = ClipboardTool { tool: "xsel", args: vec!["--clipboard", "--input"] };
    assert(r@.args =~= xsel_tool().args);
    r
}

/// The tools to try, in order, in a session with or without a Wayland display.
pub fn candidates(wayland: bool) -> (r: Vec<ClipboardTool>)
    ensures
        tool_views(r@) == tools_for(wayland),
{
    let mut r: Vec<ClipboardTool> = Vec::new();
    if wayland {
        r.push(wl_copy());
        r.push(xclip());
    } else {
        r.push(xclip());
        r.push(xsel());
        r.push(wl_copy());
    }
    assert(tool_views(r@) =~= tools_for(wayland));
    r
}

/// What goes to the clipboard for a file: its URI, as a list of one line.
pub open spec fn payload_text(path: Seq<char>) -> Seq<char> {
    "file://"@ + path + "\n"@
}

/// What goes to the clipboard for a file: the resolved path, or the path as it is where
/// it cannot be resolved.
pub fn payload(path: &str, resolved: Option<&str>) -> (r: String)
    ensures
        r@ == payload_text(match resolved {
            Some(full) => full@,
            None => path@,
        }),
{
    match resolved {
        Some(full) => joined3("file://", full, "\n"),
        None => joined3("file://", path, "\n"),
    }
}

/// Whether a tool can have taken the text.
pub open spec fn fed<F: Fn(&ClipboardTool, &String) -> Result<(), String>>(
    feed: F,
    tool: ToolView,
    text: String,
) -> bool {
    exists|t: ClipboardTool, outcome: Result<(), String>|
        t@ == tool && outcome is Ok && #[trigger] feed.ensures((&t, &text), outcome)
}

/// Whether a tool can have failed with an error.
pub open spec fn failed<F: Fn(&ClipboardTool, &String) -> Result<(), String>>(
    feed: F,
    tool: ToolView,
    text: String,
    e: Seq<char>,
) -> bool {
    exists|t: ClipboardTool, outcome: Result<(), String>|
        t@ == tool && outcome is Err && outcome->Err_0@ == e && #[trigger] feed.ensures(
            (&t, &text),
            outcome,
        )
}

/// Whether the tool at an index can have failed, and what is said of it.
pub open spec fn fails_at<F: Fn(&ClipboardTool, &String) -> Result<(), String>>(
    feed: F,
    tools: Seq<ToolView>,
    i: int,
    text: String,
    said: Seq<char>,
) -> bool {
    exists|e: Seq<char>| #[trigger]
        failed(feed, tools[i], text, e) && said == tools[i].tool + ": "@ + e
}

/// Whether a tool was the first that took the text: it did, and all before it failed.
pub open spec fn first_fed<F: Fn(&ClipboardTool, &String) -> Result<(), String>>(
    feed: F,
    tools: Seq<ToolView>,
    i: int,
    text: String,
) -> bool {
    &&& 0 <= i < tools.len()
    &&& fed(feed, tools[i], text)
    &&& all_failed(feed, tools, i, text)
}

/// Whether the first `n` tools can all have failed.
pub open spec fn all_failed<F: Fn(&ClipboardTool, &String) -> Result<(), String>>(
    feed: F,
    tools: Seq<ToolView>,
    n: int,
    text: String,
) -> bool {
    forall|j: int| 0 <= j < n ==> #[trigger] can_fail(feed, tools, j, text)
}

/// Whether the tool at an index can have failed.
pub open spec fn can_fail<F: Fn(&ClipboardTool, &String) -> Result<(), String>>(
    feed: F,
    tools: Seq<ToolView>,
    i: int,
    text: String,
) -> bool {
    exists|said: Seq<char>| fails_at(feed, tools, i, text, said)
}

/// Puts a text on the clipboard with the first tool that takes it, and says which that
/// was; where none does, what the last one says. `feed` runs a tool on a text.
pub fn copy_file<F>(wayland: bool, text: &String, feed: F) -> (r: Result<String, String>) where
    F: Fn(&ClipboardTool, &String) -> Result<(), String>,

    requires
        forall|i: int, t: ClipboardTool|
            0 <= i < tools_for(wayland).len() && t@ == tools_for(wayland)[i]
                && #[trigger] all_failed(feed, tools_for(wayland), i, *text)
                ==> #[trigger] feed.requires((&t, text)),
    ensures
        match r {
            Ok(said) => exists|i: int| #[trigger]
                first_fed(feed, tools_for(wayland), i, *text) && said@
                    == "clip copied to clipboard via "@ + tools_for(wayland)[i].tool,
            Err(said) => {
                let n = tools_for(wayland).len() as int;
                &&& all_failed(feed, tools_for(wayland), n, *text)
                &&& fails_at(feed, tools_for(wayland), n - 1, *text, said@)
            },
        },
{
    let tools = candidates(wayland);
    let ghost views = tools_for(wayland);
    let mut said = "no clipboard tool found (install `wl-clipboard` or `xclip`)".to_owned();
    let mut i: usize = 0;
    while i < tools.len()
        invariant
            i <= tools@.len(),
            views == tools_for(wayland),
            tool_views(tools@) == views,
            forall|i: int, t: ClipboardTool|
                0 <= i < tools_for(wayland).len() && t@ == tools_for(wayland)[i]
                    && #[trigger] all_failed(feed, tools_for(wayland), i, *text)
                    ==> #[trigger] feed.requires((&t, text)),
            all_failed(feed, views, i as int, *text),
            i > 0 ==> fails_at(feed, views, i - 1, *text, said@),
        decreases tools@.len() - i,
    {
        let tool = &tools[i];
        assert(views[i as int] == tool@);
        let outcome = feed(tool, text);
        match &outcome {
            Ok(_) => {
                assert(fed(feed, views[i as int], *text));
                assert(first_fed(feed, views, i as int, *text));
                return Ok(joined("clip copied to clipboard via ", tool.tool));
            },
            Err(e) => {
                assert(failed(feed, views[i as int], *text, e@));
                said = joined3(tool.tool, ": ", e.as_str());
                assert(fails_at(feed, views, i as int, *text, said@));
                assert(can_fail(feed, views, i as int, *text));
            },
        }
        i += 1;
    }
    assert(views.len() == tools@.len());
    Err(said)
}

/// What is said of a tool that did not end well, with its exit code where it has one.
pub fn exit_error(code: Option<i32>) -> (r: String)
    ensures
        r@ == match code {
            Some(code) => "exited with Some("@ + signed_decimal(code as int) + ")"@,
            None => "exited with None"@,
        },
{
    match code {
        Some(code) => {
            let number = i32_text(code);
            joined3("exited with Some(", number.as_str(), ")")
        },
        None => "exited with None".to_owned(),
    }
}

// --- laws --------------------------------------------------------------------------

/// What goes to the clipboard is the URI of the resolved path, or of the path as it is, and
/// a line end.
pub proof fn law_clipboard_holds_the_file(path: &str, full: &str, resolved: String, plain: String)
    requires
        call_ensures(payload, (path, Some(full)), resolved),
        call_ensures(payload, (path, None), plain),
    ensures
        resolved@ == "file://"@ + full@ + seq!['\n'],
        plain@ == "file://"@ + path@ + seq!['\n'],
{
    reveal_strlit("\n");
    assert("\n"@ =~= seq!['\n']);
}

/// The tools of the session come first.
pub proof fn law_tools_of_the_session(wayland: Vec<ClipboardTool>, x11: Vec<ClipboardTool>)
    requires
        call_ensures(candidates, (true,), wayland),
        call_ensures(candidates, (false,), x11),
    ensures
        wayland@.len() == 2,
        wayland@[0].tool@ == "wl-copy"@ && wayland@[0].args@ == seq!["--type", "text/uri-list"],
        wayland@[1].tool@ == "xclip"@,
        x11@.len() == 3,
        x11@[0].tool@ == "xclip"@ && x11@[0].args@ == seq![
            "-selection",
            "clipboard",
            "-t",
            "text/uri-list",
            "-i",
        ],
        x11@[1].tool@ == "xsel"@ && x11@[1].args@ == seq!["--clipboard", "--input"],
        x11@[2].tool@ == "wl-copy"@,
        wayland@[1].args@ == x11@[0].args@,
        x11@[2].args@ == wayland@[0].args@,
{
    let w = tool_views(wayland@);
    let x = tool_views(x11@);
    assert(w == tools_for(true) && w.len() == wayland@.len());
    assert(x == tools_for(false) && x.len() == x11@.len());
    assert(w[0] == wayland@[0]@ && w[1] == wayland@[1]@);
    assert(x[0] == x11@[0]@ && x[1] == x11@[1]@ && x[2] == x11@[2]@);
}

/// The first tool that takes the text is the one that is named, and all that come before it
/// have failed.
pub proof fn law_first_tool_that_takes_it<F: Fn(&ClipboardTool, &String) -> Result<(), String>>(
    wayland: bool,
    text: String,
    feed: F,
    tools: Vec<ClipboardTool>,
    i: int,
    r: Result<String, String>,
)
    requires
        call_ensures(candidates, (wayland,), tools),
        call_ensures(copy_file::<F>, (wayland, &text, feed), r),
        0 <= i < tools@.len(),
        forall|j: int, t: ClipboardTool, outcome: Result<(), String>|
            #![trigger tools@[j], feed.ensures((&t, &text), outcome)]
            0 <= j < i && t.tool@ == tools@[j].tool@ && t.args@ == tools@[j].args@ && feed.ensures(
                (&t, &text),
                outcome,
            ) ==> outcome is Err,
        forall|t: ClipboardTool, outcome: Result<(), String>|
            t.tool@ == tools@[i].tool@ && t.args@ == tools@[i].args@ && #[trigger] feed.ensures(
                (&t, &text),
                outcome,
            ) ==> outcome is Ok,
    ensures
        r matches Ok(said) && said@ == "clip copied to clipboard via "@ + tools@[i].tool@,
{
    let views = tool_views(tools@);
    assert(views == tools_for(wayland));
    assert forall|j: int| 0 <= j < tools@.len() implies #[trigger] views[j] == tools@[j]@ by {}
    assert(!can_fail(feed, views, i, text)) by {
        assert(views[i] == tools@[i]@);
    }
    assert forall|j: int| 0 <= j < i implies !fed(feed, views[j], text) by {
        assert(views[j] == tools@[j]@);
        if fed(feed, views[j], text) {
            let (t, outcome) = choose|t: ClipboardTool, outcome: Result<(), String>|
                t@ == views[j] && outcome is Ok && #[trigger] feed.ensures((&t, &text), outcome);
            assert(t.tool@ == tools@[j].tool@ && t.args@ == tools@[j].args@);
        }
    }
    match r {
        Ok(said) => {
            let k = choose|k: int| #[trigger]
                first_fed(feed, views, k, text) && said@ == "clip copied to clipboard via "@
                    + views[k].tool;
            if k < i {
                assert(!fed(feed, views[k], text));
            } else if i < k {
                assert(can_fail(feed, views, i, text));
            }
            assert(views[i] == tools@[i]@);
        },
        Err(said) => {
            assert(can_fail(feed, views, i, text));
        },
    }
}

/// Where every tool fails, what the last one says is told, with its name.
pub proof fn law_last_failure_is_told<F: Fn(&ClipboardTool, &String) -> Result<(), String>>(
    wayland: bool,
    text: String,
    feed: F,
    tools: Vec<ClipboardTool>,
    r: Result<String, String>,
)
    requires
        call_ensures(candidates, (wayland,), tools),
        call_ensures(copy_file::<F>, (wayland, &text, feed), r),
        forall|t: ClipboardTool, outcome: Result<(), String>| #[trigger]
            feed.ensures((&t, &text), outcome) ==> outcome is Err,
    ensures
        r is Err,
        exists|t: ClipboardTool, e: Result<(), String>|
            t.tool@ == tools@.last().tool@ && t.args@ == tools@.last().args@ && #[trigger] feed.ensures(
                (&t, &text),
                e,
            ) && e is Err && r->Err_0@ == tools@.last().tool@ + ": "@ + e->Err_0@,
{
    let views = tool_views(tools@);
    assert(views == tools_for(wayland));
    match r {
        Ok(said) => {
            let k = choose|k: int| #[trigger]
                first_fed(feed, views, k, text) && said@ == "clip copied to clipboard via "@
                    + views[k].tool;
            assert(fed(feed, views[k], text));
        },
        Err(said) => {
            let n = views.len() - 1;
            assert(views[n] == tools@[n]@);
            assert(fails_at(feed, views, n, text, said@));
            let e = choose|e: Seq<char>| #[trigger]
                failed(feed, views[n], text, e) && said@ == views[n].tool + ": "@ + e;
            let (t, outcome) = choose|t: ClipboardTool, outcome: Result<(), String>|
                t@ == views[n] && outcome is Err && outcome->Err_0@ == e && #[trigger] feed.ensures(
                    (&t, &text),
                    outcome,
                );
            assert(t@.tool == tools@.last().tool@ && t@.args == tools@.last().args@);
        },
    }
}

/// A tool that did not end well is told with its exit code.
pub proof fn law_exit_codes_are_told(code: i32, number: String, known: String, unknown: String)
    requires
        call_ensures(i32_text, (code,), number),
        call_ensures(exit_error, (Some(code),), known),
        call_ensures(exit_error, (None,), unknown),
    ensures
        known@ == "exited with Some("@ + number@ + ")"@,
        unknown@ == "exited with None"@,
{
}

} // verus!
