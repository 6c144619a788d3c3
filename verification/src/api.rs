//! Core offset operations: get, set and reset, built from the command
//! protocol and the offset codec, plus the per-core iteration over a range
//! of cores.
//!
//! A failure on one core never aborts the range: each core's outcome is
//! collected independently, so some cores may succeed while others fail
//! within the same invocation.

use crate::channel::{Channel, ChannelModel};
use crate::offset::{
    as_signed, core_select, pack_offset, spec_core_select, spec_pack_offset, unpack_offset,
};
use crate::protocol::{execute, execute_spec, ProtocolFailure};
use vstd::prelude::*;

verus! {

/// Opcode: read one core's curve offset.
pub const READ_OFFSET_OP: u32 = 0x48;

/// Opcode: write one core's curve offset.
pub const WRITE_OFFSET_OP: u32 = 0x35;

/// Opcode: reset every core's curve offset to zero.
pub const RESET_OFFSETS_OP: u32 = 0x36;

/// The argument block of a read command: word 0 selects the core, the rest
/// are reserved.
pub open spec fn get_args(core_id: u32) -> Seq<u32> {
    seq![spec_core_select(core_id), 0u32, 0u32, 0u32, 0u32, 0u32]
}

/// The argument block of a write command: word 0 selects the core and
/// carries the offset in its low 16 bits, the rest are reserved.
pub open spec fn set_args(core_id: u32, value: i32) -> Seq<u32> {
    seq![
        spec_pack_offset(spec_core_select(core_id), value),
        0u32,
        0u32,
        0u32,
        0u32,
        0u32,
    ]
}

/// The all-zero argument block of a reset command.
pub open spec fn reset_args() -> Seq<u32> {
    seq![0u32, 0u32, 0u32, 0u32, 0u32, 0u32]
}

/// The exact outcome of reading one core's offset: word 0 of the result
/// block, reinterpreted as a full-width signed value.
pub open spec fn get_offset_spec(m: ChannelModel, core_id: u32) -> (Result<
    i32,
    ProtocolFailure,
>, ChannelModel) {
    let out = execute_spec(m, READ_OFFSET_OP, get_args(core_id));
    (
        match out.0 {
            Ok(b) => Ok(as_signed(b[0])),
            Err(e) => Err(e),
        },
        out.1,
    )
}

/// The exact outcome of writing one core's offset: the result block is
/// discarded, only success or failure remains.
pub open spec fn set_offset_spec(m: ChannelModel, core_id: u32, value: i32) -> (Result<
    (),
    ProtocolFailure,
>, ChannelModel) {
    let out = execute_spec(m, WRITE_OFFSET_OP, set_args(core_id, value));
    (
        match out.0 {
            Ok(_) => Ok(()),
            Err(e) => Err(e),
        },
        out.1,
    )
}

/// The exact outcome of resetting all offsets.
pub open spec fn reset_offsets_spec(m: ChannelModel) -> (Result<(), ProtocolFailure>, ChannelModel) {
    let out = execute_spec(m, RESET_OFFSETS_OP, reset_args());
    (
        match out.0 {
            Ok(_) => Ok(()),
            Err(e) => Err(e),
        },
        out.1,
    )
}

/// The outcomes of reading cores `0..count` in order, each command run to
/// completion whatever the previous ones did.
pub open spec fn get_range_spec(m: ChannelModel, count: nat) -> (Seq<
    Result<i32, ProtocolFailure>,
>, ChannelModel)
    decreases count,
{
    if count == 0 {
        (Seq::empty(), m)
    } else {
        let prev = get_range_spec(m, (count - 1) as nat);
        let step = get_offset_spec(prev.1, ((count - 1) as nat) as u32);
        (prev.0.push(step.0), step.1)
    }
}

/// The outcomes of writing cores `0..count` in order, each command run to
/// completion whatever the previous ones did.
pub open spec fn set_range_spec(m: ChannelModel, count: nat, value: i32) -> (Seq<
    Result<(), ProtocolFailure>,
>, ChannelModel)
    decreases count,
{
    if count == 0 {
        (Seq::empty(), m)
    } else {
        let prev = set_range_spec(m, (count - 1) as nat, value);
        let step = set_offset_spec(prev.1, ((count - 1) as nat) as u32, value);
        (prev.0.push(step.0), step.1)
    }
}

/// Law: iterating a range attempts every core: one outcome per core in
/// `0..count`, however many of them fail.
pub proof fn lemma_get_range_len(m: ChannelModel, count: nat)
    ensures
        get_range_spec(m, count).0.len() == count,
    decreases count,
{
    if count > 0 {
        lemma_get_range_len(m, (count - 1) as nat);
    }
}

/// Law: iterating a range attempts every core: one outcome per core in
/// `0..count`, however many of them fail.
pub proof fn lemma_set_range_len(m: ChannelModel, count: nat, value: i32)
    ensures
        set_range_spec(m, count, value).0.len() == count,
    decreases count,
{
    if count > 0 {
        lemma_set_range_len(m, (count - 1) as nat, value);
    }
}

/// Reports whether the controller's driver is loaded, through the
/// channel's liveness probe.
pub fn driver_loaded<C: Channel>(chan: &C) -> (r: bool)
    ensures
        r == chan.driver_present(),
{
    chan.probe_driver()
}

/// Reads the curve offset of one core.
pub fn get_core_offset<C: Channel>(chan: &mut C, core_id: u32) -> (r: Result<i32, ProtocolFailure>)
    ensures
        final(chan).driver_present() == old(chan).driver_present(),
        r == get_offset_spec(old(chan).model(), core_id).0,
        final(chan).model() == get_offset_spec(old(chan).model(), core_id).1,
{
    let mut args: [u32; 6] = [0u32; 6];
    args[0] = core_select(core_id);
    proof {
        assert(args@ =~= get_args(core_id));
    }
    match execute(chan, READ_OFFSET_OP, args) {
        Ok(b) => Ok(unpack_offset(b[0])),
        Err(e) => Err(e),
    }
}

/// Writes the curve offset of one core; bits of the value outside the
/// 16-bit range are silently discarded by the packing.
pub fn set_core_offset<C: Channel>(chan: &mut C, core_id: u32, value: i32) -> (r: Result<
    (),
    ProtocolFailure,
>)
    ensures
        final(chan).driver_present() == old(chan).driver_present(),
        r == set_offset_spec(old(chan).model(), core_id, value).0,
        final(chan).model() == set_offset_spec(old(chan).model(), core_id, value).1,
{
    let cs = core_select(core_id);
    let mut args: [u32; 6] = [0u32; 6];
    args[0] = pack_offset(cs, value);
    proof {
        assert(args@ =~= set_args(core_id, value));
    }
    match execute(chan, WRITE_OFFSET_OP, args) {
        Ok(_) => Ok(()),
        Err(e) => Err(e),
    }
}

/// Resets every core's curve offset to zero.
pub fn reset_core_offsets<C: Channel>(chan: &mut C) -> (r: Result<(), ProtocolFailure>)
    ensures
        final(chan).driver_present() == old(chan).driver_present(),
        r == reset_offsets_spec(old(chan).model()).0,
        final(chan).model() == reset_offsets_spec(old(chan).model()).1,
{
    let args: [u32; 6] = [0u32; 6];
    proof {
        assert(args@ =~= reset_args());
    }
    match execute(chan, RESET_OFFSETS_OP, args) {
        Ok(_) => Ok(()),
        Err(e) => Err(e),
    }
}

/// Reads the offsets of cores `0..core_count`, one outcome per core; a
/// failure on one core does not stop the others from being read.
pub fn get_core_offsets<C: Channel>(chan: &mut C, core_count: u32) -> (r: Vec<
    Result<i32, ProtocolFailure>,
>)
    ensures
        final(chan).driver_present() == old(chan).driver_present(),
        r@ == get_range_spec(old(chan).model(), core_count as nat).0,
        final(chan).model() == get_range_spec(old(chan).model(), core_count as nat).1,
        r@.len() == core_count,
{
    let ghost m0 = chan.model();
    let ghost d0 = chan.driver_present();
    let mut out: Vec<Result<i32, ProtocolFailure>> = Vec::new();
    let mut c: u32 = 0;
    while c < core_count
        invariant
            c <= core_count,
            chan.driver_present() == d0,
            d0 == old(chan).driver_present(),
            m0 == old(chan).model(),
            out@ == get_range_spec(m0, c as nat).0,
            chan.model() == get_range_spec(m0, c as nat).1,
        decreases core_count - c,
    {
        let res = get_core_offset(chan, c);
        out.push(res);
        c += 1;
    }
    proof {
        lemma_get_range_len(m0, core_count as nat);
    }
    out
}

/// Writes `value` to cores `0..core_count`, one outcome per core; a failure
/// on one core does not stop the others from being attempted.
pub fn set_core_offsets<C: Channel>(chan: &mut C, core_count: u32, value: i32) -> (r: Vec<
    Result<(), ProtocolFailure>,
>)
    ensures
        final(chan).driver_present() == old(chan).driver_present(),
        r@ == set_range_spec(old(chan).model(), core_count as nat, value).0,
        final(chan).model() == set_range_spec(old(chan).model(), core_count as nat, value).1,
        r@.len() == core_count,
{
    let ghost m0 = chan.model();
    let ghost d0 = chan.driver_present();
    let mut out: Vec<Result<(), ProtocolFailure>> = Vec::new();
    let mut c: u32 = 0;
    while c < core_count
        invariant
            c <= core_count,
            chan.driver_present() == d0,
            d0 == old(chan).driver_present(),
            m0 == old(chan).model(),
            out@ == set_range_spec(m0, c as nat, value).0,
            chan.model() == set_range_spec(m0, c as nat, value).1,
        decreases core_count - c,
    {
        let res = set_core_offset(chan, c, value);
        out.push(res);
        c += 1;
    }
    proof {
        lemma_set_range_len(m0, core_count as nat, value);
    }
    out
}

} // verus!
