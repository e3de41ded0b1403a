//! What the headless program reads from its environment and prints.

use crate::pipeline::PipelineEvent;
use crate::text::{joined, number_in, parse_u64};
use vstd::prelude::*;
use vstd::string::*;

verus! {

/// How many seconds a headless run captures: the number that it is told, or five.
pub fn capture_seconds(told: Option<&str>) -> (r: u64)
    ensures
        r == match told {
            Some(s) => match number_in(s@) {
                Some(n) => if n <= u64::MAX {
                    n as int
                } else {
                    5
                },
                None => 5,
            },
            None => 5,
        },
{
    match told {
        Some(s) => match parse_u64(s) {
            Some(n) => n,
            None => 5,
        },
        None => 5,
    }
}

/// A line to print.
#[derive(Debug)]
pub struct Line {
    /// Whether the line tells of an error.
    pub error: bool,
    pub text: String,
}

/// The line for an event of the pipeline.
pub fn event_line(event: &PipelineEvent) -> (r: Line)
    ensures
        r.error == (*event is Error),
        r.text@ == match *event {
            PipelineEvent::Status(s) => "[status] "@ + s@,
            PipelineEvent::ClipSaved(p) => "[saved]  clip written to "@ + p@,
            PipelineEvent::ClipConverted(p) => "[share]  converted to "@ + p@,
            PipelineEvent::Error(e) => "[error]  "@ + e@,
        },
{
    match event {
        PipelineEvent::Status(s) => Line { error: false, text: joined("[status] ", s.as_str()) },
        PipelineEvent::ClipSaved(p) => Line {
            error: false,
            text: joined("[saved]  clip written to ", p.as_str()),
        },
        PipelineEvent::ClipConverted(p) => Line {
            error: false,
            text: joined("[share]  converted to ", p.as_str()),
        },
        PipelineEvent::Error(e) => Line { error: true, text: joined("[error]  ", e.as_str()) },
    }
}

// --- laws --------------------------------------------------------------------------

/// A headless run captures for as many seconds as it is told, in digits; where it is not
/// told, or not in digits, for five.
pub proof fn law_capture_seconds(told: Option<&str>, r: u64, number: Option<u64>)
    requires
        call_ensures(capture_seconds, (told,), r),
        told matches Some(s) ==> call_ensures(parse_u64, (s,), number),
    ensures
        told is Some ==> (match number {
            Some(n) => r == n,
            None => r == 5,
        }),
        told is None ==> r == 5,
{
}

/// What the pipeline says is printed as it is, behind its kind; only an error is printed
/// as one.
pub proof fn law_events_are_printed(event: PipelineEvent, r: Line)
    requires
        call_ensures(event_line, (&event,), r),
    ensures
        r.error <==> event is Error,
        event matches PipelineEvent::Status(s) ==> r.text@ == "[status] "@ + s@,
        event matches PipelineEvent::ClipSaved(p) ==> r.text@ == "[saved]  clip written to "@ + p@,
        event matches PipelineEvent::ClipConverted(p) ==> r.text@ == "[share]  converted to "@ + p@,
        event matches PipelineEvent::Error(e) ==> r.text@ == "[error]  "@ + e@,
{
}

} // verus!
