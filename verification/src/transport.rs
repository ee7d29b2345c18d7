//! The boundary to the transport channel: what the library hands to its
//! caller to be done on the device, and what the caller reports back.
//!
//! The library never executes a descriptor. A sequencing function returns an
//! [`Action`]; the caller waits as long as the action says, executes the
//! descriptor on the device and reports the outcome as an [`Event`]. The
//! control call itself is identified by the request code of
//! [`mmc_ioc_cmd_request`].

use vstd::prelude::*;
use crate::constants::{MMC_BLOCK_MAJOR, MMC_IOC_CMD};
use crate::descriptor::{MmcIocCmd, DESCRIPTOR_SIZE};

verus! {

/// Why a command sequence failed.
#[derive(Clone, Copy, Debug, PartialEq, Eq, Structural)]
pub enum MmcError {
    /// The control call was rejected by the operating system or the driver;
    /// the value is the operating system's error code.
    Transport(i32),
    /// The card did not become ready within the polling budget.
    Timeout,
}

/// The outcome of executing one descriptor.
#[derive(Clone, Copy, Debug, PartialEq, Eq)]
pub enum Event {
    /// The control call succeeded; the descriptor is as the driver left it,
    /// with the response filled in.
    Executed(MmcIocCmd),
    /// The control call failed with this operating-system error code.
    Rejected(i32),
}

/// What the caller has to do next.
#[derive(Clone, Copy, Debug, PartialEq, Eq)]
pub enum Action {
    /// Wait `after_ms` milliseconds, then execute `cmd` and report the
    /// outcome.
    Issue { after_ms: u32, cmd: MmcIocCmd },
    /// Wait `after_ms` milliseconds, then stop: the sequence has ended with
    /// `result`.
    Finish { after_ms: u32, result: Result<(), MmcError> },
}

/// What a sequence did at the transport channel while a list of events was
/// fed to it.
pub struct Trace {
    /// The descriptors handed out for execution, in order.
    pub issued: Seq<MmcIocCmd>,
    /// The number of pauses asked for.
    pub delays: nat,
    /// How the sequence ended, or `None` while a descriptor is still waiting
    /// for its outcome.
    pub result: Option<Result<(), MmcError>>,
}

/// One phase after another: what both issued and how often both paused, with
/// the result of the second.
pub open spec fn followed_by(first: Trace, second: Trace) -> Trace {
    Trace {
        issued: first.issued + second.issued,
        delays: first.delays + second.delays,
        result: second.result,
    }
}

/// The delay, in milliseconds, that an action asks for.
pub open spec fn delay_of(action: Action) -> u32 {
    match action {
        Action::Issue { after_ms, .. } => after_ms,
        Action::Finish { after_ms, .. } => after_ms,
    }
}

/// The number of pauses that an action asks for: one if it has a delay.
pub open spec fn pauses(action: Action) -> nat {
    if delay_of(action) > 0 {
        1
    } else {
        0
    }
}

/// The descriptor that an `Issue` hands out.
pub open spec fn issued_command(action: Action) -> MmcIocCmd
    recommends
        action is Issue,
{
    action->cmd
}

/// The result that a `Finish` names, and `None` for an `Issue`.
pub open spec fn finishing_result(action: Action) -> Option<Result<(), MmcError>> {
    match action {
        Action::Issue { .. } => None,
        Action::Finish { result, .. } => Some(result),
    }
}

/// The event that a control call's return code stands for: zero is success,
/// anything else a rejection with the error code that the operating system
/// recorded.
pub open spec fn event_of(rc: i32, os_error: i32, cmd: MmcIocCmd) -> Event {
    if rc == 0 {
        Event::Executed(cmd)
    } else {
        Event::Rejected(os_error)
    }
}

/// Turns the return code of the control call into an event. `cmd` is the
/// descriptor as it stands after the call, `os_error` the error code that
/// the operating system recorded for it.
pub fn completion(rc: i32, os_error: i32, cmd: MmcIocCmd) -> (event: Event)
    ensures
        event == event_of(rc, os_error, cmd),
{
    if rc == 0 {
        Event::Executed(cmd)
    } else {
        Event::Rejected(os_error)
    }
}

/// Whether, at this diagnostic level, the issuing of commands is traced:
/// from level 1 on.
pub fn traces_commands(level: u8) -> (traced: bool)
    ensures
        traced == (level >= 1),
{
    level >= 1
}

/// Whether, at this diagnostic level, responses are traced: from level 2 on.
pub fn traces_responses(level: u8) -> (traced: bool)
    ensures
        traced == (level >= 2),
{
    level >= 2
}

/// Direction bit of a request code: the caller passes data to the driver.
pub const IOC_WRITE: u32 = 1;

/// Direction bit of a request code: the driver passes data back.
pub const IOC_READ: u32 = 2;

/// A request code of the generic encoding: the operation number in bits 7:0,
/// the device class in bits 15:8, the size of the argument in bits 29:16 and
/// the direction in bits 31:30.
pub open spec fn ioc_request(direction: u32, class: u32, number: u32, size: u32) -> u32 {
    direction << 30 | size << 16 | class << 8 | number
}

/// The request code of the control call that carries one command
/// descriptor: operation 0 of the MMC block device class, with a descriptor
/// passed in both directions.
pub fn mmc_ioc_cmd_request() -> (code: u32)
    ensures
        code == ioc_request(IOC_READ | IOC_WRITE, MMC_BLOCK_MAJOR, MMC_IOC_CMD, DESCRIPTOR_SIZE as u32),
        code == 0xc048_b300,
{
    assert(ioc_request(IOC_READ | IOC_WRITE, MMC_BLOCK_MAJOR, MMC_IOC_CMD, DESCRIPTOR_SIZE as u32)
        == 0xc048_b300) by (bit_vector);
    0xc048_b300
}

} // verus!
