use emmc_extcsd::constants::{
    DEV_STATUS_ARG_CMD13, MMC_CMD_AC, MMC_RSP_R1, MMC_SEND_STATUS, POLL_ATTEMPTS, POLL_DELAY_MS,
    STATUS_CMD_TIMEOUT_MS,
};
use emmc_extcsd::descriptor::MmcIocCmd;
use emmc_extcsd::replay::{replay_status_poll, Transcript};
use emmc_extcsd::status::{check_device_status, cmd13_device_status, PollState, StatusPoll};
use emmc_extcsd::transport::{Action, Event, MmcError};

const READY: u32 = 0x0000_0900;
const PROGRAMMING: u32 = 0x0000_0e00;
const PROGRAMMING_WITH_READY_BIT: u32 = 0x0000_0f00;
const NOT_READY: u32 = 0x0000_0800;
const EPERM: i32 = 1;
const EIO: i32 = 5;

fn answered(cmd: MmcIocCmd, word: u32) -> Event {
    Event::Executed(MmcIocCmd { response: [word, 0, 0, 0], ..cmd })
}

fn status(word: u32) -> Event {
    answered(cmd13_device_status(DEV_STATUS_ARG_CMD13), word)
}

/// Runs a poll as a caller with a device would, against a device that
/// answers the n-th command with `device(n, command)`.
fn run_poll(
    argument: u32,
    mut device: impl FnMut(usize, MmcIocCmd) -> Event,
) -> (Result<(), MmcError>, Vec<MmcIocCmd>, Vec<u32>) {
    let mut issued = Vec::new();
    let mut waits = Vec::new();
    let (mut poll, mut action) = StatusPoll::begin(argument);
    loop {
        match action {
            Action::Issue { after_ms, cmd } => {
                if after_ms > 0 {
                    waits.push(after_ms);
                }
                issued.push(cmd);
                let event = device(issued.len(), cmd);
                let next = check_device_status(poll, event);
                poll = next.0;
                action = next.1;
            }
            Action::Finish { after_ms, result } => {
                if after_ms > 0 {
                    waits.push(after_ms);
                }
                return (result, issued, waits);
            }
        }
        assert!(issued.len() <= 1000, "the poll does not end");
    }
}

#[test]
fn status_command_has_the_documented_fields() {
    let cmd = cmd13_device_status(0x0001_0000);
    let expected = MmcIocCmd {
        write_flag: 0,
        opcode: 13,
        arg: 0x0001_0000,
        response: [0; 4],
        flags: 0x15,
        blksz: 0,
        blocks: 0,
        postsleep_min_us: 0,
        postsleep_max_us: 0,
        data_timeout_ns: 0,
        cmd_timeout_ms: 1500,
        __pad: 0,
        data_ptr: 0,
    };
    assert_eq!(cmd, expected);
    assert_eq!(cmd.opcode, MMC_SEND_STATUS);
    assert_eq!(cmd.flags, MMC_RSP_R1 | MMC_CMD_AC);
    assert_eq!(cmd.cmd_timeout_ms, STATUS_CMD_TIMEOUT_MS);
}

#[test]
fn begin_issues_the_first_status_command_at_once() {
    let (poll, action) = StatusPoll::begin(7);
    assert_eq!(poll, StatusPoll { argument: 7, state: PollState::Checking { attempts: 1 } });
    assert_eq!(action, Action::Issue { after_ms: 0, cmd: cmd13_device_status(7) });
}

#[test]
fn ready_status_ends_the_poll_with_success() {
    let (poll, _) = StatusPoll::begin(0);
    let (next, action) = check_device_status(poll, status(READY));
    assert_eq!(next, StatusPoll { argument: 0, state: PollState::Ready });
    assert_eq!(action, Action::Finish { after_ms: 0, result: Ok(()) });
}

#[test]
fn busy_status_costs_a_pause_and_another_command() {
    let (poll, _) = StatusPoll::begin(3);
    let (next, action) = check_device_status(poll, status(PROGRAMMING));
    assert_eq!(next, StatusPoll { argument: 3, state: PollState::Checking { attempts: 2 } });
    assert_eq!(action, Action::Issue { after_ms: 20, cmd: cmd13_device_status(3) });
    assert_eq!(POLL_DELAY_MS, 20);
    let (next, action) = check_device_status(next, status(NOT_READY));
    assert_eq!(next, StatusPoll { argument: 3, state: PollState::Checking { attempts: 3 } });
    assert_eq!(action, Action::Issue { after_ms: 20, cmd: cmd13_device_status(3) });
}

#[test]
fn busy_status_at_the_last_attempt_times_out() {
    let poll = StatusPoll { argument: 0, state: PollState::Checking { attempts: 50 } };
    let (next, action) = check_device_status(poll, status(PROGRAMMING));
    assert_eq!(next, StatusPoll { argument: 0, state: PollState::Exhausted });
    assert_eq!(action, Action::Finish { after_ms: 20, result: Err(MmcError::Timeout) });
    let poll = StatusPoll { argument: 0, state: PollState::Checking { attempts: 49 } };
    let (next, action) = check_device_status(poll, status(PROGRAMMING));
    assert_eq!(next.state, PollState::Checking { attempts: 50 });
    assert!(matches!(action, Action::Issue { .. }));
}

#[test]
fn ready_status_at_the_last_attempt_still_succeeds() {
    let poll = StatusPoll { argument: 0, state: PollState::Checking { attempts: 50 } };
    let (next, action) = check_device_status(poll, status(READY));
    assert_eq!(next.state, PollState::Ready);
    assert_eq!(action, Action::Finish { after_ms: 0, result: Ok(()) });
}

#[test]
fn rejection_fails_the_poll_with_the_error_code() {
    let (poll, _) = StatusPoll::begin(0);
    let (next, action) = check_device_status(poll, Event::Rejected(EPERM));
    assert_eq!(next.state, PollState::Failed { os_error: EPERM });
    assert_eq!(
        action,
        Action::Finish { after_ms: 0, result: Err(MmcError::Transport(EPERM)) }
    );
}

#[test]
fn timeout_and_transport_failure_are_different_errors() {
    assert_ne!(MmcError::Timeout, MmcError::Transport(0));
    assert_ne!(MmcError::Timeout, MmcError::Transport(110));
    assert_ne!(MmcError::Transport(EPERM), MmcError::Transport(EIO));
}

#[test]
fn a_poll_that_has_ended_stays_as_it_is() {
    for (state, result) in [
        (PollState::Ready, Ok(())),
        (PollState::Exhausted, Err(MmcError::Timeout)),
        (PollState::Failed { os_error: EIO }, Err(MmcError::Transport(EIO))),
    ] {
        let poll = StatusPoll { argument: 9, state };
        for event in [status(READY), status(PROGRAMMING), Event::Rejected(EPERM)] {
            let (next, action) = check_device_status(poll, event);
            assert_eq!(next, poll);
            assert_eq!(action, Action::Finish { after_ms: 0, result });
        }
    }
}

#[test]
fn ready_at_first_check_takes_one_command_and_no_delay() {
    let (result, issued, waits) = run_poll(0, |_, cmd| answered(cmd, READY));
    assert_eq!(result, Ok(()));
    assert_eq!(issued, vec![cmd13_device_status(0)]);
    assert!(waits.is_empty());
}

#[test]
fn always_programming_times_out_after_fifty_commands() {
    let mut asked = 0;
    let (result, issued, waits) = run_poll(0, |_, cmd| {
        asked += 1;
        answered(cmd, PROGRAMMING)
    });
    assert_eq!(result, Err(MmcError::Timeout));
    assert_eq!(issued.len(), 50);
    assert_eq!(asked, 50);
    assert_eq!(POLL_ATTEMPTS, 50);
    assert_eq!(waits, vec![20; 50]);
    assert!(issued.iter().all(|cmd| *cmd == cmd13_device_status(0)));
}

#[test]
fn programming_with_the_ready_bit_set_times_out_too() {
    let (result, issued, waits) = run_poll(0, |_, cmd| answered(cmd, PROGRAMMING_WITH_READY_BIT));
    assert_eq!(result, Err(MmcError::Timeout));
    assert_eq!(issued.len(), 50);
    assert_eq!(waits.len(), 50);
}

#[test]
fn never_ready_for_data_times_out_as_well() {
    let (result, issued, _) = run_poll(0, |_, cmd| answered(cmd, 0x0000_0800));
    assert_eq!(result, Err(MmcError::Timeout));
    assert_eq!(issued.len(), 50);
}

#[test]
fn ready_at_the_fiftieth_check_succeeds() {
    let (result, issued, waits) =
        run_poll(0, |n, cmd| answered(cmd, if n == 50 { READY } else { PROGRAMMING }));
    assert_eq!(result, Ok(()));
    assert_eq!(issued.len(), 50);
    assert_eq!(waits.len(), 49);
}

#[test]
fn ready_at_the_third_check_takes_three_commands_and_two_delays() {
    let (result, issued, waits) =
        run_poll(5, |n, cmd| answered(cmd, if n == 3 { READY } else { NOT_READY }));
    assert_eq!(result, Ok(()));
    assert_eq!(issued, vec![cmd13_device_status(5); 3]);
    assert_eq!(waits, vec![20, 20]);
}

#[test]
fn rejection_in_the_middle_is_not_retried() {
    let (result, issued, waits) = run_poll(0, |n, cmd| {
        if n == 4 {
            Event::Rejected(EIO)
        } else {
            answered(cmd, PROGRAMMING)
        }
    });
    assert_eq!(result, Err(MmcError::Transport(EIO)));
    assert_eq!(issued.len(), 4);
    assert_eq!(waits, vec![20; 3]);
}

#[test]
fn every_poll_issues_between_one_and_fifty_commands() {
    let mut seed: u32 = 0x2545_f491;
    for _ in 0..500 {
        let mut events = Vec::new();
        let length = (seed >> 7) % 70;
        for _ in 0..length {
            seed ^= seed << 13;
            seed ^= seed >> 17;
            seed ^= seed << 5;
            events.push(match seed % 8 {
                0 => status(READY),
                1 => Event::Rejected((seed >> 8) as i32 & 0x7f),
                2 => status(seed),
                _ => status(PROGRAMMING),
            });
        }
        let transcript = replay_status_poll(0, &events);
        assert!(transcript.issued.len() >= 1);
        assert!(transcript.issued.len() <= 50);
        assert!(transcript.delays <= 50);
        if transcript.result == Some(Err(MmcError::Timeout)) {
            assert_eq!(transcript.issued.len(), 50);
            assert_eq!(transcript.delays, 50);
        }
        let (result, issued, waits) = run_poll(0, |n, _| {
            events.get(n - 1).copied().unwrap_or(Event::Rejected(EIO))
        });
        if let Some(recorded) = transcript.result {
            assert_eq!(recorded, result);
            assert_eq!(transcript.issued, issued);
            assert_eq!(transcript.delays, waits.len());
        }
    }
}

#[test]
fn replay_of_an_empty_script_leaves_the_first_command_in_flight() {
    let transcript = replay_status_poll(4, &[]);
    assert_eq!(
        transcript,
        Transcript { issued: vec![cmd13_device_status(4)], delays: 0, result: None }
    );
}

#[test]
fn replay_records_a_ready_card() {
    let transcript = replay_status_poll(0, &[status(READY), status(PROGRAMMING)]);
    assert_eq!(
        transcript,
        Transcript { issued: vec![cmd13_device_status(0)], delays: 0, result: Some(Ok(())) }
    );
}

#[test]
fn replay_records_a_timeout_and_ignores_later_events() {
    let mut events = vec![status(PROGRAMMING); 50];
    events.push(status(READY));
    events.push(status(READY));
    let transcript = replay_status_poll(0, &events);
    assert_eq!(transcript.result, Some(Err(MmcError::Timeout)));
    assert_eq!(transcript.issued.len(), 50);
    assert_eq!(transcript.delays, 50);
}

#[test]
fn replay_with_forty_nine_busy_answers_is_still_waiting() {
    let events = vec![status(PROGRAMMING); 49];
    let transcript = replay_status_poll(0, &events);
    assert_eq!(transcript.result, None);
    assert_eq!(transcript.issued.len(), 50);
    assert_eq!(transcript.delays, 49);
}

#[test]
fn replay_records_a_rejection() {
    let transcript = replay_status_poll(0, &[status(NOT_READY), Event::Rejected(EPERM)]);
    assert_eq!(transcript.result, Some(Err(MmcError::Transport(EPERM))));
    assert_eq!(transcript.issued.len(), 2);
    assert_eq!(transcript.delays, 1);
}
