//! What the event log window shows: the most recent events, oldest first, or
//! a notice that logging to the window is off.
use vstd::prelude::*;
use std::collections::VecDeque;

verus! {

/// How many events the window shows at most.
pub const EVENT_LOG_LINES: usize = 22;

/// The content of the event log window.
#[derive(Debug, PartialEq, Eq)]
pub enum EventLogContent {
    /// These lines, top to bottom.
    Lines(Vec<String>),
    /// The centred notice "Quiet mode".
    Quiet,
}

/// The last `max_lines` events (all of them when there are fewer), oldest first.
pub open spec fn last_events(events: Seq<String>, max_lines: nat) -> Seq<String> {
    if events.len() <= max_lines {
        events
    } else {
        events.subrange(events.len() - max_lines, events.len() as int)
    }
}

/// The last `max_lines` events, oldest first.
pub fn recent_events(events: &VecDeque<String>, max_lines: usize) -> (lines: Vec<String>)
    ensures
        lines@ == last_events(events@, max_lines as nat),
{
    let len = events.len();
    let start: usize = if len <= max_lines {
        0
    } else {
        len - max_lines
    };
    let mut lines: Vec<String> = Vec::new();
    let mut i: usize = start;
    while i < len
        invariant
            len == events@.len(),
            start <= i <= len,
            lines@ == events@.subrange(start as int, i as int),
        decreases len - i,
    {
        lines.push(events[i].clone());
        assert(events@.subrange(start as int, i + 1) =~= events@.subrange(
            start as int,
            i as int,
        ).push(events@[i as int]));
        i = i + 1;
    }
    assert(len <= max_lines ==> events@.subrange(0, len as int) =~= events@);
    lines
}

/// The content of the event log window: the last `EVENT_LOG_LINES` events,
/// oldest first, when the window logs events, else the quiet-mode notice.
pub fn event_log_window_content(events: &VecDeque<String>, enabled: bool) -> (content:
    EventLogContent)
    ensures
        match content {
            EventLogContent::Lines(lines) => enabled && lines@ == last_events(
                events@,
                EVENT_LOG_LINES as nat,
            ),
            EventLogContent::Quiet => !enabled,
        },
{
    if enabled {
        EventLogContent::Lines(recent_events(events, EVENT_LOG_LINES))
    } else {
        EventLogContent::Quiet
    }
}

} // verus!
