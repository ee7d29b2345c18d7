//! Status polling: waiting until the card is ready for the next command.
//!
//! A poll issues status commands until one of them finds the card ready for
//! data and not programming, or until the budget of
//! [`POLL_ATTEMPTS`](crate::constants::POLL_ATTEMPTS) commands is used up.
//! Every check that finds the card busy is followed by a pause of
//! [`POLL_DELAY_MS`](crate::constants::POLL_DELAY_MS) milliseconds; nothing
//! is waited before the first check. A rejected control call ends the poll
//! at once and is never retried.
//!
//! The poll is a state machine. [`StatusPoll::begin`] issues the first
//! status command; [`check_device_status`] takes the outcome of the command
//! in flight and says what to do next.

use vstd::prelude::*;
use crate::constants::{
    MMC_CMD_AC,
    MMC_RSP_R1,
    MMC_SEND_STATUS,
    POLL_ATTEMPTS,
    POLL_DELAY_MS,
    R1_STATE_PRG,
    STATUS_CMD_TIMEOUT_MS,
};
use crate::descriptor::MmcIocCmd;
use crate::response::{current_state, device_ready, is_device_ready};
use crate::transport::{
    delay_of,
    finishing_result,
    issued_command,
    pauses,
    Action,
    Event,
    MmcError,
    Trace,
};

verus! {

/// Where a poll stands. Before [`StatusPoll::begin`] nothing is known of the
/// card; `begin` issues the first check, and from then on the poll is in one
/// of these states.
#[derive(Clone, Copy, Debug, PartialEq, Eq, Structural)]
pub enum PollState {
    /// `attempts` status commands have been issued, and the last of them is
    /// in flight.
    Checking { attempts: u32 },
    /// A status command found the card ready: the poll has succeeded.
    Ready,
    /// The budget is used up and the card is still busy: the poll has timed
    /// out.
    Exhausted,
    /// A control call was rejected with this error code: the poll has
    /// failed.
    Failed { os_error: i32 },
}

/// A poll of the card's status.
#[derive(Clone, Copy, Debug, PartialEq, Eq, Structural)]
pub struct StatusPoll {
    /// The argument that every status command of this poll carries.
    pub argument: u32,
    pub state: PollState,
}

/// The status command: opcode 13 with the given argument, an R1 response,
/// no data phase, and a command timeout of 1.5 seconds.
pub open spec fn status_command(argument: u32) -> MmcIocCmd {
    MmcIocCmd::new(MMC_SEND_STATUS, argument, MMC_RSP_R1 | MMC_CMD_AC).set_timeout(
        STATUS_CMD_TIMEOUT_MS,
        0,
    )
}

/// The start of a poll: the first status command goes out without a pause.
pub open spec fn poll_begin(argument: u32) -> (StatusPoll, Action) {
    (
        StatusPoll { argument, state: PollState::Checking { attempts: 1 } },
        Action::Issue { after_ms: 0, cmd: status_command(argument) },
    )
}

/// One step of a poll: the state after `event`, and what to do next.
///
/// While checking, a rejected call fails the poll; a status word that shows
/// the card ready ends it with success; any other status word costs a pause
/// and then either the next status command or, where the budget is used up,
/// the timeout. A poll that has ended stays as it is and names its result
/// again.
pub open spec fn poll_step(poll: StatusPoll, event: Event) -> (StatusPoll, Action) {
    match poll.state {
        PollState::Checking { attempts } => match event {
            Event::Rejected(os_error) => (
                StatusPoll { state: PollState::Failed { os_error }, ..poll },
                Action::Finish { after_ms: 0, result: Err(MmcError::Transport(os_error)) },
            ),
            Event::Executed(cmd) => if device_ready(cmd.response[0]) {
                (
                    StatusPoll { state: PollState::Ready, ..poll },
                    Action::Finish { after_ms: 0, result: Ok(()) },
                )
            } else if attempts < POLL_ATTEMPTS {
                (
                    StatusPoll {
                        state: PollState::Checking { attempts: (attempts + 1) as u32 },
                        ..poll
                    },
                    Action::Issue { after_ms: POLL_DELAY_MS, cmd: status_command(poll.argument) },
                )
            } else {
                (
                    StatusPoll { state: PollState::Exhausted, ..poll },
                    Action::Finish { after_ms: POLL_DELAY_MS, result: Err(MmcError::Timeout) },
                )
            },
        },
        PollState::Ready => (poll, Action::Finish { after_ms: 0, result: Ok(()) }),
        PollState::Exhausted => (
            poll,
            Action::Finish { after_ms: 0, result: Err(MmcError::Timeout) },
        ),
        PollState::Failed { os_error } => (
            poll,
            Action::Finish { after_ms: 0, result: Err(MmcError::Transport(os_error)) },
        ),
    }
}

/// Builds the status command for `argument`.
pub fn cmd13_device_status(argument: u32) -> (cmd: MmcIocCmd)
    ensures
        cmd == status_command(argument),
        cmd.opcode == MMC_SEND_STATUS,
        cmd.arg == argument,
        cmd.flags == MMC_RSP_R1 | MMC_CMD_AC,
        cmd.cmd_timeout_ms == STATUS_CMD_TIMEOUT_MS,
        cmd.blocks == 0,
        cmd.data_ptr == 0,
{
    MmcIocCmd::new(MMC_SEND_STATUS, argument, MMC_RSP_R1 | MMC_CMD_AC).set_timeout(
        STATUS_CMD_TIMEOUT_MS,
        0,
    )
}

/// The event is a status word that shows the card ready for data and not
/// programming.
pub open spec fn is_ready(event: Event) -> bool {
    event matches Event::Executed(cmd) && device_ready(cmd.response[0])
}

/// The event is a status word that shows the card busy: not ready for data,
/// or programming.
pub open spec fn is_busy(event: Event) -> bool {
    event matches Event::Executed(cmd) && !device_ready(cmd.response[0])
}

impl PollState {
    /// The result that the state stands for, or `None` while the poll is
    /// still checking.
    pub open spec fn outcome(self) -> Option<Result<(), MmcError>> {
        match self {
            PollState::Checking { .. } => None,
            PollState::Ready => Some(Ok(())),
            PollState::Exhausted => Some(Err(MmcError::Timeout)),
            PollState::Failed { os_error } => Some(Err(MmcError::Transport(os_error))),
        }
    }
}

impl StatusPoll {
    /// The number of status commands issued so far while the poll is
    /// checking, and 0 once it has ended.
    pub open spec fn attempts(self) -> nat {
        match self.state {
            PollState::Checking { attempts } => attempts as nat,
            _ => 0,
        }
    }

    /// The poll is one that `begin` and `check_device_status` lead to: while
    /// it is checking, at least one command has been issued and no more than
    /// the budget allows.
    pub open spec fn inv(self) -> bool {
        self.state matches PollState::Checking { attempts } ==> 1 <= attempts <= POLL_ATTEMPTS
    }

    /// Starts a poll whose status commands carry `argument`. The action is
    /// the first status command, to be executed at once.
    pub fn begin(argument: u32) -> (started: (StatusPoll, Action))
        ensures
            started == poll_begin(argument),
            started.0.inv(),
    {
        (
            StatusPoll { argument, state: PollState::Checking { attempts: 1 } },
            Action::Issue { after_ms: 0, cmd: cmd13_device_status(argument) },
        )
    }

    /// Whether the poll has ended, with success or without.
    pub open spec fn is_over(self) -> bool {
        !(self.state is Checking)
    }
}

/// Advances a poll by the outcome of the status command in flight, and says
/// what to do next.
///
/// The poll succeeds exactly when the status word in `event` shows the card
/// ready for data and not programming. It times out exactly when the card is
/// busy and this was the last command of the budget. It fails with the
/// transport's error code exactly when `event` is a rejection.
pub fn check_device_status(poll: StatusPoll, event: Event) -> (next: (StatusPoll, Action))
    ensures
        next == poll_step(poll, event),
        next.0.argument == poll.argument,
        poll.inv() ==> next.0.inv(),
        poll.is_over() ==> next.0 == poll && next.1 is Finish,
        next.0.state is Ready <==> poll.state is Ready || (poll.state is Checking && is_ready(
            event,
        )),
        next.0.state is Exhausted <==> poll.state is Exhausted || (poll.state is Checking
            && is_busy(event) && poll.attempts() >= POLL_ATTEMPTS),
        next.0.state is Failed <==> poll.state is Failed || (poll.state is Checking
            && event is Rejected),
        next.0.state is Checking <==> poll.state is Checking && is_busy(event) && poll.attempts()
            < POLL_ATTEMPTS,
        next.0.state is Checking ==> next.0.attempts() == poll.attempts() + 1,
        next.1 is Issue <==> next.0.state is Checking,
        next.1 is Issue ==> issued_command(next.1) == status_command(poll.argument),
        finishing_result(next.1) == next.0.state.outcome(),
        delay_of(next.1) == if poll.state is Checking && is_busy(event) {
            POLL_DELAY_MS
        } else {
            0
        },
{
    match poll.state {
        PollState::Checking { attempts } => match event {
            Event::Rejected(os_error) => (
                StatusPoll { argument: poll.argument, state: PollState::Failed { os_error } },
                Action::Finish { after_ms: 0, result: Err(MmcError::Transport(os_error)) },
            ),
            Event::Executed(cmd) => {
                if is_device_ready(cmd.response[0]) {
                    (
                        StatusPoll { argument: poll.argument, state: PollState::Ready },
                        Action::Finish { after_ms: 0, result: Ok(()) },
                    )
                } else if attempts < POLL_ATTEMPTS {
                    (
                        StatusPoll {
                            argument: poll.argument,
                            state: PollState::Checking { attempts: attempts + 1 },
                        },
                        Action::Issue {
                            after_ms: POLL_DELAY_MS,
                            cmd: cmd13_device_status(poll.argument),
                        },
                    )
                } else {
                    (
                        StatusPoll { argument: poll.argument, state: PollState::Exhausted },
                        Action::Finish { after_ms: POLL_DELAY_MS, result: Err(MmcError::Timeout) },
                    )
                }
            },
        },
        PollState::Ready => (poll, Action::Finish { after_ms: 0, result: Ok(()) }),
        PollState::Exhausted => (
            poll,
            Action::Finish { after_ms: 0, result: Err(MmcError::Timeout) },
        ),
        PollState::Failed { os_error } => (
            poll,
            Action::Finish { after_ms: 0, result: Err(MmcError::Transport(os_error)) },
        ),
    }
}

/// What a poll does at the transport channel from a given point on, while
/// `events` are fed to it one by one: `action` is the action that is
/// pending, `poll` the state that goes with it.
///
/// A pending command counts as issued even where no event answers it; the
/// trace then has no result yet. Events that arrive after the poll has ended
/// change nothing.
pub open spec fn poll_run(poll: StatusPoll, action: Action, events: Seq<Event>) -> Trace
    decreases events.len(),
{
    match action {
        Action::Finish { result, .. } => Trace {
            issued: Seq::empty(),
            delays: pauses(action),
            result: Some(result),
        },
        Action::Issue { cmd, .. } => if events.len() == 0 {
            Trace { issued: seq![cmd], delays: pauses(action), result: None }
        } else {
            let (next, next_action) = poll_step(poll, events[0]);
            let rest = poll_run(next, next_action, events.drop_first());
            Trace {
                issued: seq![cmd] + rest.issued,
                delays: pauses(action) + rest.delays,
                result: rest.result,
            }
        },
    }
}

/// What a whole poll does while `events` are fed to it.
pub open spec fn poll_trace(argument: u32, events: Seq<Event>) -> Trace {
    let (poll, action) = poll_begin(argument);
    poll_run(poll, action, events)
}

/// The result with which an event that is not busy ends a poll.
pub open spec fn settled(event: Event) -> Result<(), MmcError> {
    match event {
        Event::Executed(_) => Ok(()),
        Event::Rejected(os_error) => Err(MmcError::Transport(os_error)),
    }
}

/// A poll that has issued `attempts` commands, the last of them after a
/// pause of `after_ms`, and then meets `n` busy events: what it does from
/// there.
proof fn lemma_poll_run_after_busy(
    argument: u32,
    attempts: u32,
    after_ms: u32,
    events: Seq<Event>,
    n: nat,
)
    requires
        1 <= attempts <= POLL_ATTEMPTS,
        n <= events.len(),
        attempts - 1 + n <= POLL_ATTEMPTS,
        forall|i: int| 0 <= i < n ==> is_busy(#[trigger] events[i]),
        n < events.len() && attempts - 1 + n < POLL_ATTEMPTS ==> !is_busy(events[n as int]),
    ensures
        ({
            let poll = StatusPoll { argument, state: PollState::Checking { attempts } };
            let action = Action::Issue { after_ms, cmd: status_command(argument) };
            let trace = poll_run(poll, action, events);
            &&& trace.delays == pauses(action) + n
            &&& forall|i: int|
                0 <= i < trace.issued.len() ==> trace.issued[i] == status_command(argument)
            &&& if attempts - 1 + n == POLL_ATTEMPTS {
                trace.result == Some(Err::<(), MmcError>(MmcError::Timeout)) && trace.issued.len()
                    == n
            } else if n == events.len() {
                trace.result.is_none() && trace.issued.len() == n + 1
            } else {
                trace.result == Some(settled(events[n as int])) && trace.issued.len() == n + 1
            }
        }),
    decreases n,
{
    reveal_with_fuel(poll_run, 2);
    let poll = StatusPoll { argument, state: PollState::Checking { attempts } };
    let action = Action::Issue { after_ms, cmd: status_command(argument) };
    if events.len() > 0 {
        let rest = events.drop_first();
        if n > 0 {
            assert(is_busy(events[0]));
            if attempts < POLL_ATTEMPTS {
                assert forall|i: int| 0 <= i < n - 1 implies is_busy(#[trigger] rest[i]) by {
                    assert(rest[i] == events[i + 1]);
                }
                if n - 1 < rest.len() {
                    assert(rest[n - 1] == events[n as int]);
                }
                lemma_poll_run_after_busy(
                    argument,
                    (attempts + 1) as u32,
                    POLL_DELAY_MS,
                    rest,
                    (n - 1) as nat,
                );
            }
        }
    }
}

/// How a poll runs, told by the number `n` of busy status words that it
/// meets before anything else.
///
/// Every command issued is the status command. If `n` reaches the budget the
/// poll times out, having issued exactly as many commands as the budget
/// allows and paused after each. Otherwise the poll has issued `n + 1`
/// commands and paused `n` times, and the event that follows the busy ones
/// decides: a ready status word gives success, a rejection the transport's
/// error; if no event follows, the last command is still in flight.
pub proof fn lemma_poll_trace(argument: u32, events: Seq<Event>, n: nat)
    requires
        n <= events.len(),
        n <= POLL_ATTEMPTS,
        forall|i: int| 0 <= i < n ==> is_busy(#[trigger] events[i]),
        n < events.len() && n < POLL_ATTEMPTS ==> !is_busy(events[n as int]),
    ensures
        ({
            let trace = poll_trace(argument, events);
            &&& trace.delays == n
            &&& forall|i: int|
                0 <= i < trace.issued.len() ==> trace.issued[i] == status_command(argument)
            &&& if n == POLL_ATTEMPTS {
                trace.result == Some(Err::<(), MmcError>(MmcError::Timeout)) && trace.issued.len()
                    == POLL_ATTEMPTS
            } else if n == events.len() {
                trace.result.is_none() && trace.issued.len() == n + 1
            } else {
                trace.result == Some(settled(events[n as int])) && trace.issued.len() == n + 1
            }
        }),
{
    lemma_poll_run_after_busy(argument, 1, 0, events, n);
}

/// The number of busy events at the head of `events`, counted up to `limit`.
pub open spec fn leading_busy(events: Seq<Event>, limit: nat) -> nat
    decreases limit,
{
    if limit == 0 || events.len() == 0 || !is_busy(events[0]) {
        0
    } else {
        1 + leading_busy(events.drop_first(), (limit - 1) as nat)
    }
}

/// `leading_busy` counts what it says: that many events at the head are
/// busy, and the count stops at the limit, at the end, or at an event that
/// is not busy.
pub proof fn lemma_leading_busy(events: Seq<Event>, limit: nat)
    ensures
        leading_busy(events, limit) <= limit,
        leading_busy(events, limit) <= events.len(),
        forall|i: int| 0 <= i < leading_busy(events, limit) ==> is_busy(#[trigger] events[i]),
        leading_busy(events, limit) < events.len() && leading_busy(events, limit) < limit
            ==> !is_busy(events[leading_busy(events, limit) as int]),
    decreases limit,
{
    if limit == 0 || events.len() == 0 || !is_busy(events[0]) {
    } else {
        let rest = events.drop_first();
        let m = leading_busy(rest, (limit - 1) as nat);
        lemma_leading_busy(rest, (limit - 1) as nat);
        assert forall|i: int| 0 <= i < m + 1 implies is_busy(#[trigger] events[i]) by {
            if i > 0 {
                assert(events[i] == rest[i - 1]);
            }
        }
        if m < rest.len() {
            assert(rest[m as int] == events[m as int + 1]);
        }
    }
}

/// Whatever the card and the transport do, a poll issues at least one
/// status command and at most as many as the budget allows, and nothing but
/// status commands. It times out only after the whole budget, and exactly
/// when the card was busy at every one of those checks.
pub proof fn lemma_poll_issuance_bounds(argument: u32, events: Seq<Event>)
    ensures
        1 <= poll_trace(argument, events).issued.len() <= POLL_ATTEMPTS,
        forall|i: int|
            0 <= i < poll_trace(argument, events).issued.len() ==> poll_trace(
                argument,
                events,
            ).issued[i] == status_command(argument),
        poll_trace(argument, events).delays <= POLL_ATTEMPTS,
        poll_trace(argument, events).result == Some(Err::<(), MmcError>(MmcError::Timeout)) <==> (
        events.len() >= POLL_ATTEMPTS && forall|i: int|
            0 <= i < POLL_ATTEMPTS ==> is_busy(#[trigger] events[i])),
        poll_trace(argument, events).result == Some(Err::<(), MmcError>(MmcError::Timeout))
            ==> poll_trace(argument, events).issued.len() == POLL_ATTEMPTS,
{
    let n = leading_busy(events, POLL_ATTEMPTS as nat);
    lemma_leading_busy(events, POLL_ATTEMPTS as nat);
    lemma_poll_trace(argument, events, n);
}

/// If the first status check finds the card ready for data and not
/// programming, the poll succeeds after that one command and without a
/// pause.
pub proof fn lemma_poll_ready_at_first_check(argument: u32, events: Seq<Event>)
    requires
        events.len() >= 1,
        events[0] matches Event::Executed(cmd) && device_ready(cmd.response[0]),
    ensures
        poll_trace(argument, events).result == Some(Ok::<(), MmcError>(())),
        poll_trace(argument, events).issued == seq![status_command(argument)],
        poll_trace(argument, events).delays == 0,
{
    lemma_poll_trace(argument, events, 0);
    assert(poll_trace(argument, events).issued =~= seq![status_command(argument)]);
}

/// If every status check of the budget reports the programming state, the
/// poll times out, and no further command goes out however many events
/// follow.
pub proof fn lemma_poll_gives_up_while_programming(argument: u32, events: Seq<Event>)
    requires
        events.len() >= POLL_ATTEMPTS,
        forall|i: int|
            0 <= i < POLL_ATTEMPTS ==> (#[trigger] events[i] matches Event::Executed(cmd)
                && current_state(cmd.response[0]) == R1_STATE_PRG),
    ensures
        poll_trace(argument, events).result == Some(Err::<(), MmcError>(MmcError::Timeout)),
        poll_trace(argument, events).issued.len() == POLL_ATTEMPTS,
        poll_trace(argument, events).delays == POLL_ATTEMPTS,
{
    assert forall|i: int| 0 <= i < POLL_ATTEMPTS implies is_busy(#[trigger] events[i]) by {}
    lemma_poll_trace(argument, events, POLL_ATTEMPTS as nat);
}

} // verus!
