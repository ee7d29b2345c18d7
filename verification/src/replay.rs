//! Replaying a command sequence against scripted outcomes.
//!
//! A replay stands in for the device: it drives a status poll or a fetch
//! with a prepared list of events in place of a transport channel, and
//! records what the sequence would have done. Nothing is executed and
//! nothing is waited for.

use vstd::prelude::*;
use crate::descriptor::MmcIocCmd;
use crate::extcsd::{fetch_extcsd, fetch_run, fetch_trace, ExtCsdFetch};
use crate::status::{check_device_status, poll_run, poll_trace, StatusPoll};
use crate::transport::{followed_by, pauses, Action, Event, MmcError, Trace};

verus! {

/// What a replay recorded.
#[derive(Debug, PartialEq, Eq)]
pub struct Transcript {
    /// The descriptors handed out for execution, in order.
    pub issued: Vec<MmcIocCmd>,
    /// The number of pauses asked for.
    pub delays: usize,
    /// How the sequence ended, or `None` if the events ran out while a
    /// descriptor was waiting for its outcome.
    pub result: Option<Result<(), MmcError>>,
}

impl View for Transcript {
    type V = Trace;

    open spec fn view(&self) -> Trace {
        Trace { issued: self.issued@, delays: self.delays as nat, result: self.result }
    }
}

/// Whether the action asks for a pause.
fn has_pause(action: &Action) -> (paused: bool)
    ensures
        paused == (pauses(*action) == 1),
        !paused == (pauses(*action) == 0),
{
    match action {
        Action::Issue { after_ms, .. } => *after_ms > 0,
        Action::Finish { after_ms, .. } => *after_ms > 0,
    }
}

/// Replays a status poll with the given argument: each status command is
/// answered by the next event of the list. The transcript is what the poll
/// does at the transport channel on these events.
pub fn replay_status_poll(argument: u32, events: &[Event]) -> (transcript: Transcript)
    ensures
        transcript@ == poll_trace(argument, events@),
{
    let (mut poll, mut action) = StatusPoll::begin(argument);
    let mut issued: Vec<MmcIocCmd> = Vec::new();
    let mut delays: usize = 0;
    let mut i: usize = 0;
    assert(events@.skip(0) =~= events@);
    loop
        invariant
            i <= events.len(),
            delays + pauses(action) <= i,
            poll_trace(argument, events@) == followed_by(
                Trace { issued: issued@, delays: delays as nat, result: None },
                poll_run(poll, action, events@.skip(i as int)),
            ),
        decreases events.len() - i,
    {
        let ghost rest = events@.skip(i as int);
        let ghost before = issued@;
        if has_pause(&action) {
            delays += 1;
        }
        match action {
            Action::Finish { result, .. } => {
                assert(issued@ + Seq::<MmcIocCmd>::empty() =~= issued@);
                return Transcript { issued, delays, result: Some(result) };
            },
            Action::Issue { cmd, .. } => {
                issued.push(cmd);
                if i == events.len() {
                    assert(before + seq![cmd] =~= issued@);
                    return Transcript { issued, delays, result: None };
                }
                let (next_poll, next_action) = check_device_status(poll, events[i]);
                proof {
                    assert(rest[0] == events@[i as int]);
                    assert(rest.drop_first() =~= events@.skip(i + 1));
                    let tail = poll_run(next_poll, next_action, events@.skip(i + 1));
                    assert(before + (seq![cmd] + tail.issued) =~= issued@ + tail.issued);
                }
                poll = next_poll;
                action = next_action;
                i += 1;
            },
        }
    }
}

/// Replays a fetch into a buffer at `buffer_address`: each command is
/// answered by the next event of the list. The transcript is what the fetch
/// does at the transport channel on these events. No data is transferred.
pub fn replay_fetch(buffer_address: u64, events: &[Event]) -> (transcript: Transcript)
    ensures
        transcript@ == fetch_trace(buffer_address, events@),
{
    let (mut fetch, mut action) = ExtCsdFetch::begin(buffer_address);
    let mut scratch = [0u8; 512];
    let mut issued: Vec<MmcIocCmd> = Vec::new();
    let mut delays: usize = 0;
    let mut i: usize = 0;
    assert(events@.skip(0) =~= events@);
    loop
        invariant
            i <= events.len(),
            delays + pauses(action) <= i,
            fetch_trace(buffer_address, events@) == followed_by(
                Trace { issued: issued@, delays: delays as nat, result: None },
                fetch_run(fetch, action, events@.skip(i as int)),
            ),
        decreases events.len() - i,
    {
        let ghost rest = events@.skip(i as int);
        let ghost before = issued@;
        if has_pause(&action) {
            delays += 1;
        }
        match action {
            Action::Finish { result, .. } => {
                assert(issued@ + Seq::<MmcIocCmd>::empty() =~= issued@);
                return Transcript { issued, delays, result: Some(result) };
            },
            Action::Issue { cmd, .. } => {
                issued.push(cmd);
                if i == events.len() {
                    assert(before + seq![cmd] =~= issued@);
                    return Transcript { issued, delays, result: None };
                }
                let (next_fetch, next_action) = fetch_extcsd(fetch, events[i], &mut scratch);
                proof {
                    assert(rest[0] == events@[i as int]);
                    assert(rest.drop_first() =~= events@.skip(i + 1));
                    let tail = fetch_run(next_fetch, next_action, events@.skip(i + 1));
                    assert(before + (seq![cmd] + tail.issued) =~= issued@ + tail.issued);
                }
                fetch = next_fetch;
                action = next_action;
                i += 1;
            },
        }
    }
}

} // verus!
