use smu_offsets::channel::ScriptedChannel;
use smu_offsets::protocol::{execute, ProtocolFailure};

fn clean_script(chan: &mut ScriptedChannel, busy_before_ready: u32, busy_before_done: u32, block: [u32; 6]) {
    for _ in 0..busy_before_ready {
        chan.push_status_read(0);
    }
    chan.push_status_read(2);
    chan.push_block_write_ok(true);
    chan.push_cmd_write_ok(true);
    for _ in 0..busy_before_done {
        chan.push_status_read(0);
    }
    chan.push_status_read(1);
    chan.push_block_read(block);
}

#[test]
fn execute_succeeds_immediately() {
    let mut chan = ScriptedChannel::new();
    let block = [7, 8, 9, 10, 11, 12];
    clean_script(&mut chan, 0, 0, block);
    let args = [0xAB, 0, 0, 0, 0, 0];
    assert_eq!(execute(&mut chan, 0x48, args), Ok(block));
    assert_eq!(chan.written_blocks().as_slice(), &[args]);
    assert_eq!(chan.written_cmds().as_slice(), &[0x48]);
}

#[test]
fn execute_succeeds_after_busy_polls() {
    // Three busy readiness polls, then ready; two busy completion polls,
    // then success: still within the retry limit on both phases.
    let mut chan = ScriptedChannel::new();
    let block = [5, 0, 0, 0, 0, 0];
    clean_script(&mut chan, 3, 2, block);
    assert_eq!(execute(&mut chan, 0x35, [1, 0, 0, 0, 0, 0]), Ok(block));
}

#[test]
fn execute_succeeds_at_retry_limit() {
    // Five busy polls then ready is the last tolerated run on each phase.
    let mut chan = ScriptedChannel::new();
    let block = [0, 0, 0, 0, 0, 0];
    clean_script(&mut chan, 5, 5, block);
    assert_eq!(execute(&mut chan, 0x48, [0; 6]), Ok(block));
}

#[test]
fn execute_times_out_when_never_ready() {
    // Six busy reads exhaust the readiness wait; nothing is written.
    let mut chan = ScriptedChannel::new();
    for _ in 0..6 {
        chan.push_status_read(0);
    }
    chan.push_block_write_ok(true);
    chan.push_cmd_write_ok(true);
    assert_eq!(
        execute(&mut chan, 0x48, [0; 6]),
        Err(ProtocolFailure::NotReadyTimeout)
    );
    assert!(chan.written_blocks().is_empty());
    assert!(chan.written_cmds().is_empty());
}

#[test]
fn execute_times_out_when_command_never_completes() {
    let mut chan = ScriptedChannel::new();
    chan.push_status_read(1);
    chan.push_block_write_ok(true);
    chan.push_cmd_write_ok(true);
    for _ in 0..6 {
        chan.push_status_read(0);
    }
    assert_eq!(
        execute(&mut chan, 0x35, [3, 0, 0, 0, 0, 0]),
        Err(ProtocolFailure::CommandTimeout)
    );
    // The command was submitted before the completion wait gave up.
    assert_eq!(chan.written_cmds().as_slice(), &[0x35]);
}

#[test]
fn execute_reports_controller_failure_code_without_retry() {
    // Status 7 at the completion wait is terminal: even with a success
    // scripted right behind it, the protocol must not poll again.
    let mut chan = ScriptedChannel::new();
    chan.push_status_read(1);
    chan.push_block_write_ok(true);
    chan.push_cmd_write_ok(true);
    chan.push_status_read(7);
    chan.push_status_read(1);
    chan.push_block_read([0; 6]);
    assert_eq!(
        execute(&mut chan, 0x48, [0; 6]),
        Err(ProtocolFailure::CommandFailed(7))
    );
}

#[test]
fn execute_surfaces_status_read_fault() {
    let mut chan = ScriptedChannel::new();
    chan.push_status_fault();
    assert_eq!(execute(&mut chan, 0x48, [0; 6]), Err(ProtocolFailure::Io));
}

#[test]
fn execute_surfaces_args_write_fault() {
    let mut chan = ScriptedChannel::new();
    chan.push_status_read(1);
    chan.push_block_write_ok(false);
    assert_eq!(execute(&mut chan, 0x48, [0; 6]), Err(ProtocolFailure::Io));
    assert!(chan.written_blocks().is_empty());
}

#[test]
fn execute_surfaces_trigger_write_fault() {
    let mut chan = ScriptedChannel::new();
    chan.push_status_read(1);
    chan.push_block_write_ok(true);
    chan.push_cmd_write_ok(false);
    assert_eq!(execute(&mut chan, 0x48, [0; 6]), Err(ProtocolFailure::Io));
    assert!(chan.written_cmds().is_empty());
}

#[test]
fn execute_surfaces_result_read_fault() {
    let mut chan = ScriptedChannel::new();
    chan.push_status_read(1);
    chan.push_block_write_ok(true);
    chan.push_cmd_write_ok(true);
    chan.push_status_read(1);
    chan.push_block_read_fault();
    assert_eq!(execute(&mut chan, 0x48, [0; 6]), Err(ProtocolFailure::Io));
}

#[test]
fn execute_fails_on_exhausted_script() {
    // An empty script behaves like a vanished control file.
    let mut chan = ScriptedChannel::new();
    assert_eq!(execute(&mut chan, 0x48, [0; 6]), Err(ProtocolFailure::Io));
}

#[test]
fn execute_treats_stale_nonzero_status_as_ready() {
    // The readiness wait accepts any non-zero status, even a stale failure
    // code from an earlier command.
    let mut chan = ScriptedChannel::new();
    let block = [1, 2, 3, 4, 5, 6];
    chan.push_status_read(0xDEAD);
    chan.push_block_write_ok(true);
    chan.push_cmd_write_ok(true);
    chan.push_status_read(1);
    chan.push_block_read(block);
    assert_eq!(execute(&mut chan, 0x48, [0; 6]), Ok(block));
}
