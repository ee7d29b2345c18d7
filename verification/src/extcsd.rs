//! Fetching the Extended CSD register: check that the card is ready, read
//! the register, check again.
//!
//! The second check is part of the fetch. The card may still be busy with
//! the transfer when the control call has returned, and no command may
//! follow while it is; so a fetch whose second check times out has failed,
//! although its data phase went through.
//!
//! The fetch is a state machine over the same actions and events as the
//! status poll. [`ExtCsdFetch::begin`] issues the first status command;
//! [`fetch_extcsd`] takes the outcome of the command in flight and says what
//! to do next. The 512-byte buffer that receives the register belongs to the
//! caller; the library clears it in the step that issues the read command.

use vstd::prelude::*;
use crate::constants::{
    BLK_SZ,
    DEV_STATUS_ARG_CMD13,
    MMC_CMD_ADTC,
    MMC_RSP_R1,
    MMC_SEND_EXT_CSD,
    POLL_ATTEMPTS,
};
use crate::descriptor::MmcIocCmd;
use crate::status::{
    check_device_status,
    is_busy,
    is_ready,
    lemma_poll_issuance_bounds,
    lemma_poll_trace,
    poll_begin,
    poll_run,
    poll_step,
    poll_trace,
    status_command,
    StatusPoll,
};
use crate::transport::{
    finishing_result,
    followed_by,
    issued_command,
    pauses,
    Action,
    Event,
    MmcError,
    Trace,
};

verus! {

/// Where a fetch stands.
#[derive(Clone, Copy, Debug, PartialEq, Eq, Structural)]
pub enum FetchState {
    /// The check before the read is under way.
    PreCheck(StatusPoll),
    /// The read command is in flight.
    Reading,
    /// The check after the read is under way.
    PostCheck(StatusPoll),
    /// Both checks and the read have succeeded: the buffer holds the
    /// register.
    Done,
    /// The fetch has failed.
    Failed(MmcError),
}

/// A fetch of the Extended CSD register.
#[derive(Clone, Copy, Debug, PartialEq, Eq, Structural)]
pub struct ExtCsdFetch {
    /// Address of the buffer that the read command names as its target.
    pub buffer_address: u64,
    pub state: FetchState,
}

/// The read command: opcode 8 with argument 0, an R1 response and a data
/// phase of one block of 512 bytes into the buffer at `buffer_address`, with
/// the driver's own timeouts.
pub open spec fn read_command(buffer_address: u64) -> MmcIocCmd {
    MmcIocCmd::new(MMC_SEND_EXT_CSD, 0, MMC_RSP_R1 | MMC_CMD_ADTC).set_data(
        buffer_address,
        1,
        BLK_SZ,
    ).set_timeout(0, 0)
}

/// Every byte of the buffer is zero.
pub open spec fn is_zeroed(buf: Seq<u8>) -> bool {
    forall|i: int| 0 <= i < buf.len() ==> buf[i] == 0
}

/// The start of a fetch: the first status command of the first check.
pub open spec fn fetch_begin(buffer_address: u64) -> (ExtCsdFetch, Action) {
    let (poll, action) = poll_begin(DEV_STATUS_ARG_CMD13);
    (ExtCsdFetch { buffer_address, state: FetchState::PreCheck(poll) }, action)
}

/// One step of a fetch: the state after `event`, and what to do next.
///
/// A check goes on as the status poll says. When the first check succeeds
/// the read command follows; when it fails, the fetch fails with the same
/// error. A rejected read fails the fetch; an executed one starts the second
/// check. The result of the second check is the result of the fetch. A fetch
/// that has ended stays as it is and names its result again.
pub open spec fn fetch_step(fetch: ExtCsdFetch, event: Event) -> (ExtCsdFetch, Action) {
    match fetch.state {
        FetchState::PreCheck(poll) => {
            let (next_poll, action) = poll_step(poll, event);
            match action {
                Action::Issue { .. } => (
                    ExtCsdFetch { state: FetchState::PreCheck(next_poll), ..fetch },
                    action,
                ),
                Action::Finish { after_ms, result: Ok(_) } => (
                    ExtCsdFetch { state: FetchState::Reading, ..fetch },
                    Action::Issue { after_ms, cmd: read_command(fetch.buffer_address) },
                ),
                Action::Finish { after_ms, result: Err(error) } => (
                    ExtCsdFetch { state: FetchState::Failed(error), ..fetch },
                    action,
                ),
            }
        },
        FetchState::Reading => match event {
            Event::Executed(_) => {
                let (poll, action) = poll_begin(DEV_STATUS_ARG_CMD13);
                (ExtCsdFetch { state: FetchState::PostCheck(poll), ..fetch }, action)
            },
            Event::Rejected(os_error) => (
                ExtCsdFetch { state: FetchState::Failed(MmcError::Transport(os_error)), ..fetch },
                Action::Finish { after_ms: 0, result: Err(MmcError::Transport(os_error)) },
            ),
        },
        FetchState::PostCheck(poll) => {
            let (next_poll, action) = poll_step(poll, event);
            match action {
                Action::Issue { .. } => (
                    ExtCsdFetch { state: FetchState::PostCheck(next_poll), ..fetch },
                    action,
                ),
                Action::Finish { result: Ok(_), .. } => (
                    ExtCsdFetch { state: FetchState::Done, ..fetch },
                    action,
                ),
                Action::Finish { result: Err(error), .. } => (
                    ExtCsdFetch { state: FetchState::Failed(error), ..fetch },
                    action,
                ),
            }
        },
        FetchState::Done => (fetch, Action::Finish { after_ms: 0, result: Ok(()) }),
        FetchState::Failed(error) => (fetch, Action::Finish { after_ms: 0, result: Err(error) }),
    }
}

/// Whether the step from `fetch` on `event` is the one that issues the read
/// command.
pub open spec fn issues_read(fetch: ExtCsdFetch, event: Event) -> bool {
    fetch.state is PreCheck && fetch_step(fetch, event).0.state is Reading
}

/// The buffer after the step from `fetch` on `event`: all zeros if the step
/// issues the read command, and as it was before in any other step.
pub open spec fn buffer_after(fetch: ExtCsdFetch, event: Event, buf: Seq<u8>) -> Seq<u8> {
    if issues_read(fetch, event) {
        Seq::new(buf.len(), |i: int| 0u8)
    } else {
        buf
    }
}

/// Clears the buffer that is to receive the register and builds the read
/// command that names `buffer_address` as its target.
///
/// `buffer_address` has to be the address at which `buf` lies while the
/// command is executed. Because the buffer is cleared before the command
/// exists, a read that fails leaves zeros in it and nothing older.
pub fn read_extcsd(buf: &mut [u8; 512], buffer_address: u64) -> (cmd: MmcIocCmd)
    ensures
        is_zeroed(final(buf)@),
        cmd == read_command(buffer_address),
        cmd.opcode == MMC_SEND_EXT_CSD,
        cmd.arg == 0,
        cmd.flags == MMC_RSP_R1 | MMC_CMD_ADTC,
        cmd.blksz == BLK_SZ,
        cmd.blocks == 1,
        cmd.data_ptr == buffer_address,
        cmd.cmd_timeout_ms == 0,
        cmd.data_timeout_ns == 0,
        cmd.write_flag == 0,
{
    *buf = [0u8; 512];
    MmcIocCmd::new(MMC_SEND_EXT_CSD, 0, MMC_RSP_R1 | MMC_CMD_ADTC).set_data(
        buffer_address,
        1,
        BLK_SZ,
    ).set_timeout(0, 0)
}

impl FetchState {
    /// The result that the state stands for, or `None` while the fetch is
    /// under way.
    pub open spec fn outcome(self) -> Option<Result<(), MmcError>> {
        match self {
            FetchState::Done => Some(Ok(())),
            FetchState::Failed(error) => Some(Err(error)),
            _ => None,
        }
    }

    /// The place of the state in the order of a fetch: the first check, the
    /// read, the second check, the end.
    pub open spec fn phase(self) -> nat {
        match self {
            FetchState::PreCheck(_) => 0,
            FetchState::Reading => 1,
            FetchState::PostCheck(_) => 2,
            FetchState::Done => 3,
            FetchState::Failed(_) => 3,
        }
    }
}

impl ExtCsdFetch {
    /// The fetch is one that `begin` and `fetch_extcsd` lead to: a check
    /// that is under way is a poll of the card's own status that has not
    /// ended and has kept to its budget.
    pub open spec fn inv(self) -> bool {
        match self.state {
            FetchState::PreCheck(poll) | FetchState::PostCheck(poll) => {
                &&& poll.inv()
                &&& poll.state is Checking
                &&& poll.argument == DEV_STATUS_ARG_CMD13
            },
            _ => true,
        }
    }

    /// Starts a fetch into the buffer at `buffer_address`. The action is the
    /// first status command, to be executed at once.
    pub fn begin(buffer_address: u64) -> (started: (ExtCsdFetch, Action))
        ensures
            started == fetch_begin(buffer_address),
            started.0.inv(),
    {
        let (poll, action) = StatusPoll::begin(DEV_STATUS_ARG_CMD13);
        (ExtCsdFetch { buffer_address, state: FetchState::PreCheck(poll) }, action)
    }
}

/// Advances a fetch by the outcome of the command in flight, and says what
/// to do next.
///
/// `buf` is the buffer whose address the fetch was begun with. It is cleared
/// in the step that issues the read command, so that the command never goes
/// out with anything but zeros in its target; in every other step it is left
/// as it is. When the action is `Finish` with `Ok`, the buffer holds what
/// the driver stored during the read.
pub fn fetch_extcsd(fetch: ExtCsdFetch, event: Event, buf: &mut [u8; 512]) -> (next: (
    ExtCsdFetch,
    Action,
))
    ensures
        next == fetch_step(fetch, event),
        next.0.buffer_address == fetch.buffer_address,
        fetch.inv() ==> next.0.inv(),
        issues_read(fetch, event) <==> next.1 is Issue && issued_command(next.1) == read_command(
            fetch.buffer_address,
        ),
        final(buf)@ == buffer_after(fetch, event, old(buf)@),
        issues_read(fetch, event) ==> is_zeroed(final(buf)@),
        !issues_read(fetch, event) ==> final(buf)@ == old(buf)@,
        fetch.state.phase() <= next.0.state.phase(),
        next.0.state is Reading ==> fetch.state is PreCheck,
        next.0.state is PostCheck ==> fetch.state is PostCheck || (fetch.state is Reading
            && event is Executed),
        next.0.state is Done ==> fetch.state is Done || fetch.state is PostCheck,
        next.1 is Issue <==> next.0.state.outcome().is_none(),
        finishing_result(next.1) == next.0.state.outcome(),
{
    let buffer_address = fetch.buffer_address;
    match fetch.state {
        FetchState::PreCheck(poll) => {
            let (next_poll, action) = check_device_status(poll, event);
            match action {
                Action::Issue { .. } => (
                    ExtCsdFetch { buffer_address, state: FetchState::PreCheck(next_poll) },
                    action,
                ),
                Action::Finish { after_ms, result: Ok(_) } => {
                    let cmd = read_extcsd(buf, buffer_address);
                    (
                        ExtCsdFetch { buffer_address, state: FetchState::Reading },
                        Action::Issue { after_ms, cmd },
                    )
                },
                Action::Finish { after_ms, result: Err(error) } => (
                    ExtCsdFetch { buffer_address, state: FetchState::Failed(error) },
                    action,
                ),
            }
        },
        FetchState::Reading => match event {
            Event::Executed(_) => {
                let (poll, action) = StatusPoll::begin(DEV_STATUS_ARG_CMD13);
                (ExtCsdFetch { buffer_address, state: FetchState::PostCheck(poll) }, action)
            },
            Event::Rejected(os_error) => (
                ExtCsdFetch {
                    buffer_address,
                    state: FetchState::Failed(MmcError::Transport(os_error)),
                },
                Action::Finish { after_ms: 0, result: Err(MmcError::Transport(os_error)) },
            ),
        },
        FetchState::PostCheck(poll) => {
            let (next_poll, action) = check_device_status(poll, event);
            match action {
                Action::Issue { .. } => (
                    ExtCsdFetch { buffer_address, state: FetchState::PostCheck(next_poll) },
                    action,
                ),
                Action::Finish { result: Ok(_), .. } => (
                    ExtCsdFetch { buffer_address, state: FetchState::Done },
                    action,
                ),
                Action::Finish { result: Err(error), .. } => (
                    ExtCsdFetch { buffer_address, state: FetchState::Failed(error) },
                    action,
                ),
            }
        },
        FetchState::Done => (fetch, Action::Finish { after_ms: 0, result: Ok(()) }),
        FetchState::Failed(error) => (fetch, Action::Finish { after_ms: 0, result: Err(error) }),
    }
}

/// A read that is rejected leaves zeros in the buffer: the step that issues
/// the read command clears the buffer, whatever it held, and the step that
/// takes the rejection fails the fetch with the transport's error code and
/// does not touch the buffer.
pub proof fn lemma_rejected_read_leaves_zeros(
    fetch: ExtCsdFetch,
    event: Event,
    os_error: i32,
    buf: Seq<u8>,
)
    requires
        issues_read(fetch, event),
    ensures
        ({
            let reading = fetch_step(fetch, event).0;
            let cleared = buffer_after(fetch, event, buf);
            let rejected = Event::Rejected(os_error);
            &&& is_zeroed(cleared)
            &&& cleared.len() == buf.len()
            &&& buffer_after(reading, rejected, cleared) == cleared
            &&& fetch_step(reading, rejected).1 == (Action::Finish {
                after_ms: 0,
                result: Err(MmcError::Transport(os_error)),
            })
        }),
{
}

/// What a fetch does at the transport channel from a given point on, while
/// `events` are fed to it one by one: `action` is the action that is
/// pending, `fetch` the state that goes with it.
///
/// A pending command counts as issued even where no event answers it; the
/// trace then has no result yet. Events that arrive after the fetch has
/// ended change nothing.
pub open spec fn fetch_run(fetch: ExtCsdFetch, action: Action, events: Seq<Event>) -> Trace
    decreases events.len(),
{
    match action {
        Action::Finish { result, .. } => Trace {
            issued: Seq::empty(),
            delays: pauses(action),
            result: Some(result),
        },
        Action::Issue { cmd, .. } => if events.len() == 0 {
            Trace { issued: seq![cmd], delays: pauses(action), result: None }
        } else {
            let (next, next_action) = fetch_step(fetch, events[0]);
            let rest = fetch_run(next, next_action, events.drop_first());
            Trace {
                issued: seq![cmd] + rest.issued,
                delays: pauses(action) + rest.delays,
                result: rest.result,
            }
        },
    }
}

/// What a whole fetch does while `events` are fed to it.
pub open spec fn fetch_trace(buffer_address: u64, events: Seq<Event>) -> Trace {
    let (fetch, action) = fetch_begin(buffer_address);
    fetch_run(fetch, action, events)
}

/// The read and what comes after it: the read command goes out without a
/// pause; if it is rejected that is the result, and if it is executed a
/// whole status poll follows on the remaining events.
pub open spec fn read_then_check(buffer_address: u64, events: Seq<Event>) -> Trace {
    let read = seq![read_command(buffer_address)];
    if events.len() == 0 {
        Trace { issued: read, delays: 0, result: None }
    } else {
        match events[0] {
            Event::Rejected(os_error) => Trace {
                issued: read,
                delays: 0,
                result: Some(Err(MmcError::Transport(os_error))),
            },
            Event::Executed(_) => followed_by(
                Trace { issued: read, delays: 0, result: None },
                poll_trace(DEV_STATUS_ARG_CMD13, events.drop_first()),
            ),
        }
    }
}

/// The fetch as a sequence of three phases: a status poll on `events`; if it
/// succeeds, the read on the events that the poll has not used; if that is
/// executed, a second status poll on what is left. Whatever ends a phase
/// without success ends the fetch with the same result.
pub open spec fn check_read_check(buffer_address: u64, events: Seq<Event>) -> Trace {
    let check = poll_trace(DEV_STATUS_ARG_CMD13, events);
    if check.result == Some(Ok::<(), MmcError>(())) {
        followed_by(check, read_then_check(buffer_address, events.skip(check.issued.len() as int)))
    } else {
        check
    }
}

/// During the second check a fetch does exactly what the status poll does.
proof fn lemma_post_check_run(
    buffer_address: u64,
    poll: StatusPoll,
    action: Action,
    events: Seq<Event>,
)
    ensures
        fetch_run(
            ExtCsdFetch { buffer_address, state: FetchState::PostCheck(poll) },
            action,
            events,
        ) == poll_run(poll, action, events),
    decreases events.len(),
{
    reveal_with_fuel(fetch_run, 2);
    reveal_with_fuel(poll_run, 2);
    let fetch = ExtCsdFetch { buffer_address, state: FetchState::PostCheck(poll) };
    if action is Issue && events.len() > 0 {
        let (next_poll, next_action) = poll_step(poll, events[0]);
        let rest = events.drop_first();
        if next_action is Issue {
            lemma_post_check_run(buffer_address, next_poll, next_action, rest);
        }
    }
}

/// From the read command on, a fetch does what `read_then_check` says.
proof fn lemma_read_run(buffer_address: u64, events: Seq<Event>)
    ensures
        fetch_run(
            ExtCsdFetch { buffer_address, state: FetchState::Reading },
            Action::Issue { after_ms: 0, cmd: read_command(buffer_address) },
            events,
        ) == read_then_check(buffer_address, events),
{
    reveal_with_fuel(fetch_run, 2);
    let fetch = ExtCsdFetch { buffer_address, state: FetchState::Reading };
    let action = Action::Issue { after_ms: 0, cmd: read_command(buffer_address) };
    let read = seq![read_command(buffer_address)];
    if events.len() > 0 {
        match events[0] {
            Event::Rejected(os_error) => {
                assert(fetch_run(fetch, action, events).issued =~= read);
            },
            Event::Executed(_) => {
                let (poll, next_action) = poll_begin(DEV_STATUS_ARG_CMD13);
                lemma_post_check_run(buffer_address, poll, next_action, events.drop_first());
            },
        }
    }
}

/// During the first check a fetch does what the status poll does, and goes
/// on to the read exactly when the poll succeeds.
proof fn lemma_pre_check_run(
    buffer_address: u64,
    poll: StatusPoll,
    action: Action,
    events: Seq<Event>,
)
    requires
        action is Issue,
    ensures
        ({
            let check = poll_run(poll, action, events);
            let fetch = ExtCsdFetch { buffer_address, state: FetchState::PreCheck(poll) };
            &&& check.issued.len() <= events.len() + 1
            &&& check.result is Some ==> check.issued.len() <= events.len()
            &&& fetch_run(fetch, action, events) == if check.result == Some(
                Ok::<(), MmcError>(()),
            ) {
                followed_by(
                    check,
                    read_then_check(buffer_address, events.skip(check.issued.len() as int)),
                )
            } else {
                check
            }
        }),
    decreases events.len(),
{
    reveal_with_fuel(fetch_run, 2);
    reveal_with_fuel(poll_run, 2);
    let fetch = ExtCsdFetch { buffer_address, state: FetchState::PreCheck(poll) };
    let check = poll_run(poll, action, events);
    if events.len() > 0 {
        let (next_poll, next_action) = poll_step(poll, events[0]);
        let rest = events.drop_first();
        match next_action {
            Action::Issue { .. } => {
                lemma_pre_check_run(buffer_address, next_poll, next_action, rest);
                let inner = poll_run(next_poll, next_action, rest);
                if inner.result == Some(Ok::<(), MmcError>(())) {
                    assert(events.skip(check.issued.len() as int) =~= rest.skip(
                        inner.issued.len() as int,
                    ));
                    let tail = read_then_check(
                        buffer_address,
                        rest.skip(inner.issued.len() as int),
                    );
                    assert(fetch_run(fetch, action, events).issued =~= followed_by(
                        check,
                        tail,
                    ).issued);
                }
            },
            Action::Finish { after_ms, result: Ok(_) } => {
                assert(after_ms == 0);
                assert(events.skip(1) =~= rest);
                lemma_read_run(buffer_address, rest);
                assert(check.issued.len() == 1);
            },
            Action::Finish { result: Err(_), .. } => {},
        }
    }
}

/// A fetch is a check, a read and a check, in that order and each only
/// after the one before it has succeeded: driven step by step, it does at
/// the transport channel exactly what `check_read_check` describes.
pub proof fn lemma_fetch_is_check_read_check(buffer_address: u64, events: Seq<Event>)
    ensures
        fetch_trace(buffer_address, events) == check_read_check(buffer_address, events),
{
    let (poll, action) = poll_begin(DEV_STATUS_ARG_CMD13);
    lemma_pre_check_run(buffer_address, poll, action, events);
}

/// Whatever the card and the transport do, a fetch starts with a status
/// command, issues nothing but status commands and the read command, and
/// issues the read command at most once. It succeeds only if the read
/// command went out, with a status command before it and one after it.
pub proof fn lemma_fetch_command_order(buffer_address: u64, events: Seq<Event>)
    ensures
        ({
            let trace = fetch_trace(buffer_address, events);
            let status = status_command(DEV_STATUS_ARG_CMD13);
            let read = read_command(buffer_address);
            &&& 1 <= trace.issued.len() <= 2 * POLL_ATTEMPTS + 1
            &&& trace.issued[0] == status
            &&& forall|i: int|
                0 <= i < trace.issued.len() ==> trace.issued[i] == status || trace.issued[i]
                    == read
            &&& forall|i: int, j: int|
                0 <= i < trace.issued.len() && 0 <= j < trace.issued.len() && trace.issued[i]
                    == read && trace.issued[j] == read ==> i == j
            &&& trace.result == Some(Ok::<(), MmcError>(())) ==> exists|i: int|
                0 < i < trace.issued.len() - 1 && trace.issued[i] == read
        }),
{
    let trace = fetch_trace(buffer_address, events);
    let status = status_command(DEV_STATUS_ARG_CMD13);
    let read = read_command(buffer_address);
    assert(status != read);
    lemma_fetch_is_check_read_check(buffer_address, events);
    let check = poll_trace(DEV_STATUS_ARG_CMD13, events);
    lemma_poll_issuance_bounds(DEV_STATUS_ARG_CMD13, events);
    if check.result == Some(Ok::<(), MmcError>(())) {
        let k = check.issued.len() as int;
        let rest = events.skip(k);
        if rest.len() > 0 && rest[0] is Executed {
            let second = poll_trace(DEV_STATUS_ARG_CMD13, rest.drop_first());
            lemma_poll_issuance_bounds(DEV_STATUS_ARG_CMD13, rest.drop_first());
            assert(trace.issued =~= check.issued + seq![read] + second.issued);
            assert(trace.issued[k] == read);
        } else {
            assert(trace.issued =~= check.issued + seq![read]);
        }
    }
}

/// If both checks find the card ready at their first status command and the
/// read is executed, the fetch succeeds with exactly three commands, a
/// status command, the read command and a status command, and without a
/// pause.
pub proof fn lemma_fetch_first_try(buffer_address: u64, events: Seq<Event>)
    requires
        events.len() >= 3,
        is_ready(events[0]),
        events[1] is Executed,
        is_ready(events[2]),
    ensures
        fetch_trace(buffer_address, events).issued == seq![
            status_command(DEV_STATUS_ARG_CMD13),
            read_command(buffer_address),
            status_command(DEV_STATUS_ARG_CMD13),
        ],
        fetch_trace(buffer_address, events).delays == 0,
        fetch_trace(buffer_address, events).result == Some(Ok::<(), MmcError>(())),
{
    lemma_fetch_is_check_read_check(buffer_address, events);
    lemma_poll_trace(DEV_STATUS_ARG_CMD13, events, 0);
    let rest = events.skip(1);
    assert(rest[0] == events[1]);
    let last = rest.drop_first();
    assert(last[0] == events[2]);
    lemma_poll_trace(DEV_STATUS_ARG_CMD13, last, 0);
    assert(fetch_trace(buffer_address, events).issued =~= seq![
        status_command(DEV_STATUS_ARG_CMD13),
        read_command(buffer_address),
        status_command(DEV_STATUS_ARG_CMD13),
    ]);
}

/// If the first control call is rejected, the fetch fails at once with the
/// transport's error code: one status command has gone out, and the read
/// command never does.
pub proof fn lemma_fetch_rejected_at_once(buffer_address: u64, events: Seq<Event>, os_error: i32)
    requires
        events.len() >= 1,
        events[0] == Event::Rejected(os_error),
    ensures
        fetch_trace(buffer_address, events).issued == seq![status_command(DEV_STATUS_ARG_CMD13)],
        fetch_trace(buffer_address, events).delays == 0,
        fetch_trace(buffer_address, events).result == Some(
            Err::<(), MmcError>(MmcError::Transport(os_error)),
        ),
{
    lemma_fetch_is_check_read_check(buffer_address, events);
    lemma_poll_trace(DEV_STATUS_ARG_CMD13, events, 0);
    assert(fetch_trace(buffer_address, events).issued =~= seq![
        status_command(DEV_STATUS_ARG_CMD13),
    ]);
}

/// If the card stays busy through the whole budget of the first check, the
/// fetch times out and the read command never goes out.
pub proof fn lemma_fetch_pre_check_timeout(buffer_address: u64, events: Seq<Event>)
    requires
        events.len() >= POLL_ATTEMPTS,
        forall|i: int| 0 <= i < POLL_ATTEMPTS ==> is_busy(#[trigger] events[i]),
    ensures
        fetch_trace(buffer_address, events).result == Some(
            Err::<(), MmcError>(MmcError::Timeout),
        ),
        fetch_trace(buffer_address, events).issued.len() == POLL_ATTEMPTS,
        forall|i: int|
            0 <= i < POLL_ATTEMPTS ==> fetch_trace(buffer_address, events).issued[i]
                == status_command(DEV_STATUS_ARG_CMD13),
{
    lemma_fetch_is_check_read_check(buffer_address, events);
    lemma_poll_trace(DEV_STATUS_ARG_CMD13, events, POLL_ATTEMPTS as nat);
}

/// If the read is rejected, the fetch fails with the transport's error code
/// and nothing follows the read command: it is not retried, and there is no
/// second check.
pub proof fn lemma_fetch_read_rejected(buffer_address: u64, events: Seq<Event>, os_error: i32)
    requires
        events.len() >= 2,
        is_ready(events[0]),
        events[1] == Event::Rejected(os_error),
    ensures
        fetch_trace(buffer_address, events).issued == seq![
            status_command(DEV_STATUS_ARG_CMD13),
            read_command(buffer_address),
        ],
        fetch_trace(buffer_address, events).result == Some(
            Err::<(), MmcError>(MmcError::Transport(os_error)),
        ),
{
    lemma_fetch_is_check_read_check(buffer_address, events);
    lemma_poll_trace(DEV_STATUS_ARG_CMD13, events, 0);
    assert(events.skip(1)[0] == events[1]);
    assert(fetch_trace(buffer_address, events).issued =~= seq![
        status_command(DEV_STATUS_ARG_CMD13),
        read_command(buffer_address),
    ]);
}

/// If the check after the read finds the card busy through its whole
/// budget, the fetch times out, although the read itself was executed: the
/// read command went out second, the whole budget of status commands after
/// it, and the result is the timeout.
pub proof fn lemma_fetch_post_check_timeout(buffer_address: u64, events: Seq<Event>)
    requires
        events.len() >= 2 + POLL_ATTEMPTS,
        is_ready(events[0]),
        events[1] is Executed,
        forall|i: int| 2 <= i < 2 + POLL_ATTEMPTS ==> is_busy(#[trigger] events[i]),
    ensures
        fetch_trace(buffer_address, events).result == Some(
            Err::<(), MmcError>(MmcError::Timeout),
        ),
        fetch_trace(buffer_address, events).issued.len() == 2 + POLL_ATTEMPTS,
        fetch_trace(buffer_address, events).issued[1] == read_command(buffer_address),
{
    lemma_fetch_is_check_read_check(buffer_address, events);
    lemma_poll_trace(DEV_STATUS_ARG_CMD13, events, 0);
    let rest = events.skip(1);
    assert(rest[0] == events[1]);
    let last = rest.drop_first();
    assert forall|i: int| 0 <= i < POLL_ATTEMPTS implies is_busy(#[trigger] last[i]) by {
        assert(last[i] == events[i + 2]);
    }
    lemma_poll_trace(DEV_STATUS_ARG_CMD13, last, POLL_ATTEMPTS as nat);
}

} // verus!
