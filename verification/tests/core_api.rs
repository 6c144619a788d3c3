use smu_offsets::api::{
    driver_loaded, get_core_offset, get_core_offsets, reset_core_offsets, set_core_offset,
    set_core_offsets,
};
use smu_offsets::channel::ScriptedChannel;
use smu_offsets::offset::core_select;
use smu_offsets::protocol::ProtocolFailure;

fn script_success(chan: &mut ScriptedChannel, result_block: [u32; 6]) {
    chan.push_status_read(1);
    chan.push_block_write_ok(true);
    chan.push_cmd_write_ok(true);
    chan.push_status_read(1);
    chan.push_block_read(result_block);
}

fn script_command_failure(chan: &mut ScriptedChannel, code: u32) {
    chan.push_status_read(1);
    chan.push_block_write_ok(true);
    chan.push_cmd_write_ok(true);
    chan.push_status_read(code);
}

#[test]
fn get_core_offset_returns_echoed_negative_value() {
    // The controller echoes word 0 = 0xFFFFFFEC, i.e. -20 as a signed word.
    let mut chan = ScriptedChannel::new();
    script_success(&mut chan, [0xFFFF_FFEC, 0, 0, 0, 0, 0]);
    assert_eq!(get_core_offset(&mut chan, 0), Ok(-20));
    // The read command selected core 0 with reserved words zero.
    assert_eq!(chan.written_blocks().as_slice(), &[[0u32; 6]]);
    assert_eq!(chan.written_cmds().as_slice(), &[0x48]);
}

#[test]
fn get_core_offset_selects_the_requested_core() {
    let mut chan = ScriptedChannel::new();
    script_success(&mut chan, [30, 0, 0, 0, 0, 0]);
    assert_eq!(get_core_offset(&mut chan, 9), Ok(30));
    assert_eq!(
        chan.written_blocks().as_slice(),
        &[[(256 | 1) << 20, 0, 0, 0, 0, 0]]
    );
}

#[test]
fn set_core_offset_packs_core_and_offset_into_word_zero() {
    // Core 9, offset -30: the argument word must be
    // core_select(9) | (-30 as u32 & 0xFFFF), with core_select(9) =
    // ((9 & 8) << 5 | (9 & 7)) << 20 = (256 | 1) << 20.
    let mut chan = ScriptedChannel::new();
    script_success(&mut chan, [0; 6]);
    assert_eq!(set_core_offset(&mut chan, 9, -30), Ok(()));
    let expected = (((256 | 1) << 20) as u32) | (0xFFFF_FFE2 & 0xFFFF);
    assert_eq!(expected, core_select(9) | 0xFFE2);
    assert_eq!(
        chan.written_blocks().as_slice(),
        &[[expected, 0, 0, 0, 0, 0]]
    );
    assert_eq!(chan.written_cmds().as_slice(), &[0x35]);
}

#[test]
fn set_core_offset_propagates_protocol_failure() {
    let mut chan = ScriptedChannel::new();
    script_command_failure(&mut chan, 7);
    assert_eq!(
        set_core_offset(&mut chan, 0, -10),
        Err(ProtocolFailure::CommandFailed(7))
    );
}

#[test]
fn reset_core_offsets_sends_zero_block() {
    let mut chan = ScriptedChannel::new();
    script_success(&mut chan, [0; 6]);
    assert_eq!(reset_core_offsets(&mut chan), Ok(()));
    assert_eq!(chan.written_blocks().as_slice(), &[[0u32; 6]]);
    assert_eq!(chan.written_cmds().as_slice(), &[0x36]);
}

#[test]
fn set_core_offsets_collects_independent_outcomes() {
    // Core 3 fails with a controller code; every other core must still be
    // attempted and succeed.
    let mut chan = ScriptedChannel::new();
    for core in 0..8u32 {
        if core == 3 {
            script_command_failure(&mut chan, 7);
        } else {
            script_success(&mut chan, [0; 6]);
        }
    }
    let results = set_core_offsets(&mut chan, 8, -25);
    assert_eq!(results.len(), 8);
    for (core, result) in results.iter().enumerate() {
        if core == 3 {
            assert_eq!(*result, Err(ProtocolFailure::CommandFailed(7)));
        } else {
            assert_eq!(*result, Ok(()));
        }
    }
    // All eight argument blocks were submitted, one per core.
    let blocks = chan.written_blocks();
    assert_eq!(blocks.len(), 8);
    for (core, block) in blocks.iter().enumerate() {
        assert_eq!(block[0], core_select(core as u32) | 0xFFE7);
    }
}

#[test]
fn get_core_offsets_reads_each_core_in_order() {
    let mut chan = ScriptedChannel::new();
    script_success(&mut chan, [10, 0, 0, 0, 0, 0]);
    script_success(&mut chan, [0xFFFF_FFEC, 0, 0, 0, 0, 0]);
    let results = get_core_offsets(&mut chan, 2);
    assert_eq!(results, vec![Ok(10), Ok(-20)]);
    let blocks = chan.written_blocks();
    assert_eq!(blocks[0][0], core_select(0));
    assert_eq!(blocks[1][0], core_select(1));
}

#[test]
fn get_core_offsets_continues_past_a_timeout() {
    let mut chan = ScriptedChannel::new();
    // Core 0 never sees a ready controller; core 1 succeeds.
    for _ in 0..6 {
        chan.push_status_read(0);
    }
    script_success(&mut chan, [15, 0, 0, 0, 0, 0]);
    let results = get_core_offsets(&mut chan, 2);
    assert_eq!(results, vec![Err(ProtocolFailure::NotReadyTimeout), Ok(15)]);
}

#[test]
fn driver_loaded_follows_the_probe() {
    let mut chan = ScriptedChannel::new();
    assert!(driver_loaded(&chan));
    chan.set_driver_absent();
    assert!(!driver_loaded(&chan));
}
