//! Command protocol: readiness wait, argument submission, opcode trigger,
//! completion wait, result retrieval.
//!
//! [`execute_spec`] gives the exact outcome of one command over a
//! [`ChannelModel`]: which result comes back, what is written, and how many
//! status polls are consumed.  The executable [`execute`] is proved to
//! follow it on any [`Channel`].  Both wait phases share one polling
//! primitive with a fixed retry limit and a fixed delay between attempts;
//! the two timeout failures differ only in which call site exhausted it.

use crate::channel::{
    log_block_write, log_cmd_write, skip_status_reads, take_block_read, take_block_write,
    take_cmd_write, Channel, ChannelModel,
};
use vstd::prelude::*;

verus! {

/// Extra poll attempts allowed per wait phase after the first read, so a
/// phase reads the status word at most `RETRY_LIMIT + 1` times.
pub const RETRY_LIMIT: u32 = 5;

/// How one protocol command ends.
#[derive(Clone, Copy, Debug, PartialEq, Eq, Structural)]
pub enum ProtocolFailure {
    /// A transfer against a control file failed; surfaced immediately,
    /// never retried.
    Io,
    /// The controller never left the busy state before the command was
    /// submitted.
    NotReadyTimeout,
    /// The command was submitted but never completed within the retry
    /// limit.
    CommandTimeout,
    /// The controller explicitly reported this non-success, non-busy
    /// status code; terminal, never retried.
    CommandFailed(u32),
}

/// How a wait phase ends, with the number of status reads it consumed.
pub enum WaitOutcome {
    /// A non-busy status was observed.
    Ready { status: u32, used: nat },
    /// Every allowed poll saw the busy status.
    TimedOut { used: nat },
    /// A status read failed.
    Faulted { used: nat },
}

/// The same outcome with `j` more reads accounted for.
pub open spec fn add_used(w: WaitOutcome, j: nat) -> WaitOutcome {
    match w {
        WaitOutcome::Ready { status, used } => WaitOutcome::Ready { status, used: used + j },
        WaitOutcome::TimedOut { used } => WaitOutcome::TimedOut { used: used + j },
        WaitOutcome::Faulted { used } => WaitOutcome::Faulted { used: used + j },
    }
}

/// One wait phase over the scripted status reads `s`, with `extra` retries
/// left: a busy status (`0`) is polled again after a pause, any other
/// status ends the wait, and a failed read ends the whole command.
pub open spec fn wait_scan(s: Seq<Option<u32>>, extra: nat) -> WaitOutcome
    decreases extra,
{
    if s.len() == 0 {
        WaitOutcome::Faulted { used: 0 }
    } else {
        match s[0] {
            None => WaitOutcome::Faulted { used: 1 },
            Some(v) => if v != 0 {
                WaitOutcome::Ready { status: v, used: 1 }
            } else if extra == 0 {
                WaitOutcome::TimedOut { used: 1 }
            } else {
                add_used(wait_scan(s.skip(1), (extra - 1) as nat), 1)
            },
        }
    }
}

/// Splits a wait in two: `j` leading busy reads, then the rest of the scan
/// with `j` fewer retries.
pub proof fn lemma_wait_scan_split(s: Seq<Option<u32>>, extra: nat, j: nat)
    requires
        j <= extra,
        j <= s.len(),
        forall|k: int| 0 <= k < j ==> s[k] == Some(0u32),
    ensures
        wait_scan(s, extra) == add_used(wait_scan(s.skip(j as int), (extra - j) as nat), j),
    decreases j,
{
    if j == 0 {
        assert(s.skip(0) =~= s);
    } else {
        assert(s[0] == Some(0u32));
        lemma_wait_scan_split(s.skip(1), (extra - 1) as nat, (j - 1) as nat);
        assert(s.skip(1).skip(j - 1) =~= s.skip(j as int));
    }
}

/// The exact outcome of one command over a channel model: the result of
/// `execute` and the model left behind.  The readiness wait treats any
/// non-zero status as ready; the completion wait treats `1` as success and
/// any other non-zero status as the controller's failure code.
pub open spec fn execute_spec(m: ChannelModel, op: u32, args: Seq<u32>) -> (Result<
    Seq<u32>,
    ProtocolFailure,
>, ChannelModel) {
    match wait_scan(m.status_reads, RETRY_LIMIT as nat) {
        WaitOutcome::Faulted { used } => (Err(ProtocolFailure::Io), skip_status_reads(m, used)),
        WaitOutcome::TimedOut { used } => (
            Err(ProtocolFailure::NotReadyTimeout),
            skip_status_reads(m, used),
        ),
        WaitOutcome::Ready { status: _, used } => {
            let m1 = skip_status_reads(m, used);
            if m1.block_write_oks.len() == 0 {
                (Err(ProtocolFailure::Io), m1)
            } else if !m1.block_write_oks[0] {
                (Err(ProtocolFailure::Io), take_block_write(m1))
            } else {
                let m2 = log_block_write(m1, args);
                if m2.cmd_write_oks.len() == 0 {
                    (Err(ProtocolFailure::Io), m2)
                } else if !m2.cmd_write_oks[0] {
                    (Err(ProtocolFailure::Io), take_cmd_write(m2))
                } else {
                    let m3 = log_cmd_write(m2, op);
                    match wait_scan(m3.status_reads, RETRY_LIMIT as nat) {
                        WaitOutcome::Faulted { used } => (
                            Err(ProtocolFailure::Io),
                            skip_status_reads(m3, used),
                        ),
                        WaitOutcome::TimedOut { used } => (
                            Err(ProtocolFailure::CommandTimeout),
                            skip_status_reads(m3, used),
                        ),
                        WaitOutcome::Ready { status, used } => {
                            let m4 = skip_status_reads(m3, used);
                            if status == 1 {
                                if m4.block_reads.len() == 0 {
                                    (Err(ProtocolFailure::Io), m4)
                                } else {
                                    let m5 = take_block_read(m4);
                                    match m4.block_reads[0] {
                                        Some(b) => (Ok(b), m5),
                                        None => (Err(ProtocolFailure::Io), m5),
                                    }
                                }
                            } else {
                                (Err(ProtocolFailure::CommandFailed(status)), m4)
                            }
                        },
                    }
                }
            }
        },
    }
}

/// Law: a wait phase that sees the busy status `n` times and then a
/// non-zero status succeeds after exactly those `n` poll intervals,
/// whenever `n` is within the retry limit.
pub proof fn lemma_wait_busy_then_ready(s: Seq<Option<u32>>, n: nat, v: u32)
    requires
        n <= RETRY_LIMIT,
        n < s.len(),
        forall|k: int| 0 <= k < n ==> s[k] == Some(0u32),
        s[n as int] == Some(v),
        v != 0,
    ensures
        wait_scan(s, RETRY_LIMIT as nat) == (WaitOutcome::Ready { status: v, used: n + 1 }),
{
    lemma_wait_scan_split(s, RETRY_LIMIT as nat, n);
    assert(s.skip(n as int)[0] == Some(v));
}

/// Law: a wait phase that sees the busy status on every allowed poll
/// (`RETRY_LIMIT + 1` reads) times out.
pub proof fn lemma_wait_all_busy_times_out(s: Seq<Option<u32>>)
    requires
        s.len() > RETRY_LIMIT,
        forall|k: int| 0 <= k <= RETRY_LIMIT ==> s[k] == Some(0u32),
    ensures
        wait_scan(s, RETRY_LIMIT as nat) == (WaitOutcome::TimedOut {
            used: (RETRY_LIMIT + 1) as nat,
        }),
{
    lemma_wait_scan_split(s, RETRY_LIMIT as nat, RETRY_LIMIT as nat);
    assert(s.skip(RETRY_LIMIT as int)[0] == Some(0u32));
}

/// Law: a controller that stays busy through every readiness poll makes the
/// command fail with `NotReadyTimeout`, with nothing written.
pub proof fn lemma_execute_not_ready_timeout(m: ChannelModel, op: u32, args: Seq<u32>)
    requires
        m.status_reads.len() > RETRY_LIMIT,
        forall|k: int| 0 <= k <= RETRY_LIMIT ==> m.status_reads[k] == Some(0u32),
    ensures
        execute_spec(m, op, args).0 == Err::<Seq<u32>, ProtocolFailure>(
            ProtocolFailure::NotReadyTimeout,
        ),
        execute_spec(m, op, args).1 == skip_status_reads(m, (RETRY_LIMIT + 1) as nat),
{
    lemma_wait_all_busy_times_out(m.status_reads);
}

/// Law: a controller that goes ready but then stays busy through every
/// completion poll makes the command fail with `CommandTimeout`; the
/// argument block and the opcode were written.
pub proof fn lemma_execute_command_timeout(m: ChannelModel, n1: nat, op: u32, args: Seq<u32>)
    requires
        n1 <= RETRY_LIMIT,
        m.status_reads.len() > n1 + 1 + RETRY_LIMIT,
        forall|k: int| 0 <= k < n1 ==> m.status_reads[k] == Some(0u32),
        m.status_reads[n1 as int] matches Some(v) && v != 0,
        forall|k: int| n1 + 1 <= k <= n1 + 1 + RETRY_LIMIT ==> m.status_reads[k] == Some(0u32),
        m.block_write_oks.len() > 0 && m.block_write_oks[0],
        m.cmd_write_oks.len() > 0 && m.cmd_write_oks[0],
    ensures
        execute_spec(m, op, args).0 == Err::<Seq<u32>, ProtocolFailure>(
            ProtocolFailure::CommandTimeout,
        ),
        execute_spec(m, op, args).1.blocks_written == m.blocks_written.push(args),
        execute_spec(m, op, args).1.cmds_written == m.cmds_written.push(op),
{
    let v = m.status_reads[n1 as int]->0;
    lemma_wait_busy_then_ready(m.status_reads, n1, v);
    let rest = m.status_reads.skip(n1 as int + 1);
    assert(forall|k: int| 0 <= k <= RETRY_LIMIT ==> rest[k] == Some(0u32));
    lemma_wait_all_busy_times_out(rest);
}

/// Law: a non-busy, non-success status at the completion wait is terminal.
/// The command fails with exactly that code, after exactly one completion
/// poll: a controller-reported failure is never retried.
pub proof fn lemma_execute_command_failed(
    m: ChannelModel,
    n1: nat,
    code: u32,
    op: u32,
    args: Seq<u32>,
)
    requires
        n1 <= RETRY_LIMIT,
        m.status_reads.len() > n1 + 1,
        forall|k: int| 0 <= k < n1 ==> m.status_reads[k] == Some(0u32),
        m.status_reads[n1 as int] matches Some(v) && v != 0,
        m.status_reads[n1 as int + 1] == Some(code),
        code != 0,
        code != 1,
        m.block_write_oks.len() > 0 && m.block_write_oks[0],
        m.cmd_write_oks.len() > 0 && m.cmd_write_oks[0],
    ensures
        execute_spec(m, op, args).0 == Err::<Seq<u32>, ProtocolFailure>(
            ProtocolFailure::CommandFailed(code),
        ),
        execute_spec(m, op, args).1.status_reads == m.status_reads.skip(n1 as int + 2),
{
    let v = m.status_reads[n1 as int]->0;
    lemma_wait_busy_then_ready(m.status_reads, n1, v);
    let rest = m.status_reads.skip(n1 as int + 1);
    assert(rest[0] == Some(code));
    assert(wait_scan(rest, RETRY_LIMIT as nat) == (WaitOutcome::Ready { status: code, used: 1nat }));
    assert(rest.skip(1) =~= m.status_reads.skip(n1 as int + 2));
}

/// Law: with the controller busy `n1` times before going ready and `n2`
/// times before reporting success, both writes accepted and a result block
/// `b` scripted, the command returns exactly `b`, having polled the status
/// word `n1 + n2 + 2` times and written exactly the argument block and the
/// opcode — whenever neither busy run exceeds the retry limit.
pub proof fn lemma_execute_clean_run(
    m: ChannelModel,
    n1: nat,
    n2: nat,
    op: u32,
    args: Seq<u32>,
    b: Seq<u32>,
)
    requires
        n1 <= RETRY_LIMIT,
        n2 <= RETRY_LIMIT,
        m.status_reads.len() > n1 + 1 + n2,
        forall|k: int| 0 <= k < n1 ==> m.status_reads[k] == Some(0u32),
        m.status_reads[n1 as int] matches Some(v) && v != 0,
        forall|k: int| n1 + 1 <= k < n1 + 1 + n2 ==> m.status_reads[k] == Some(0u32),
        m.status_reads[n1 as int + 1 + n2] == Some(1u32),
        m.block_write_oks.len() > 0 && m.block_write_oks[0],
        m.cmd_write_oks.len() > 0 && m.cmd_write_oks[0],
        m.block_reads.len() > 0 && m.block_reads[0] == Some(b),
    ensures
        execute_spec(m, op, args).0 == Ok::<Seq<u32>, ProtocolFailure>(b),
        execute_spec(m, op, args).1.status_reads == m.status_reads.skip(n1 as int + n2 as int + 2),
        execute_spec(m, op, args).1.block_reads == m.block_reads.skip(1),
        execute_spec(m, op, args).1.blocks_written == m.blocks_written.push(args),
        execute_spec(m, op, args).1.cmds_written == m.cmds_written.push(op),
{
    let v = m.status_reads[n1 as int]->0;
    lemma_wait_busy_then_ready(m.status_reads, n1, v);
    let rest = m.status_reads.skip(n1 as int + 1);
    assert(forall|k: int| 0 <= k < n2 ==> rest[k] == Some(0u32));
    assert(rest[n2 as int] == Some(1u32));
    lemma_wait_busy_then_ready(rest, n2, 1u32);
    assert(rest.skip(n2 as int + 1) =~= m.status_reads.skip(n1 as int + n2 as int + 2));
}

/// A result block seen through its view, for stating what `execute`
/// returns.
pub open spec fn block_view(r: Result<[u32; 6], ProtocolFailure>) -> Result<
    Seq<u32>,
    ProtocolFailure,
> {
    match r {
        Ok(b) => Ok(b@),
        Err(e) => Err(e),
    }
}

/// Why a wait phase ended without a usable status.
#[derive(Clone, Copy, Debug, PartialEq, Eq, Structural)]
pub enum WaitError {
    /// Every allowed poll saw the busy status.
    TimedOut,
    /// A status read failed.
    Faulted,
}

/// One wait phase: polls the status word until it is non-zero, pausing one
/// interval between attempts, up to `RETRY_LIMIT` retries after the first
/// read.
pub fn poll_status<C: Channel>(chan: &mut C) -> (r: Result<u32, WaitError>)
    ensures
        final(chan).driver_present() == old(chan).driver_present(),
        ({
            let w = wait_scan(old(chan).model().status_reads, RETRY_LIMIT as nat);
            match w {
                WaitOutcome::Ready { status, used } => r == Ok::<u32, WaitError>(status)
                    && final(chan).model() == skip_status_reads(old(chan).model(), used),
                WaitOutcome::TimedOut { used } => r == Err::<u32, WaitError>(WaitError::TimedOut)
                    && final(chan).model() == skip_status_reads(old(chan).model(), used),
                WaitOutcome::Faulted { used } => r == Err::<u32, WaitError>(WaitError::Faulted)
                    && final(chan).model() == skip_status_reads(old(chan).model(), used),
            }
        }),
{
    let ghost m0 = chan.model();
    let ghost d0 = chan.driver_present();
    let mut retries: u32 = 0;
    loop
        invariant
            retries <= RETRY_LIMIT,
            chan.driver_present() == d0,
            d0 == old(chan).driver_present(),
            m0 == old(chan).model(),
            chan.model() == skip_status_reads(m0, retries as nat),
            m0.status_reads.len() >= retries,
            forall|k: int| 0 <= k < retries ==> m0.status_reads[k] == Some(0u32),
        decreases RETRY_LIMIT - retries,
    {
        let ghost mcur = chan.model();
        let res = chan.read_status();
        proof {
            assert(mcur.status_reads =~= m0.status_reads.skip(retries as int));
        }
        match res {
            Ok(v) => {
                proof {
                    assert(mcur.status_reads.len() > 0);
                    assert(mcur.status_reads[0] == Some(v));
                    assert(m0.status_reads[retries as int] == Some(v));
                    assert(m0.status_reads.len() >= retries + 1);
                    assert(skip_status_reads(mcur, 1) =~= skip_status_reads(
                        m0,
                        (retries + 1) as nat,
                    ));
                    lemma_wait_scan_split(m0.status_reads, RETRY_LIMIT as nat, retries as nat);
                }
                if v == 0 {
                    if retries >= RETRY_LIMIT {
                        return Err(WaitError::TimedOut);
                    }
                    chan.pause();
                    retries += 1;
                } else {
                    return Ok(v);
                }
            },
            Err(_) => {
                proof {
                    lemma_wait_scan_split(m0.status_reads, RETRY_LIMIT as nat, retries as nat);
                    if mcur.status_reads.len() > 0 {
                        assert(mcur.status_reads[0] == None::<u32>);
                        assert(skip_status_reads(mcur, 1) =~= skip_status_reads(
                            m0,
                            (retries + 1) as nat,
                        ));
                    } else {
                        assert(skip_status_reads(m0, retries as nat) == mcur);
                    }
                }
                return Err(WaitError::Faulted);
            },
        }
    }
}

/// Runs one controller command: waits for readiness, submits the argument
/// block, triggers the opcode, waits for completion, and reads the result
/// block back.  The outcome and the channel left behind are exactly those
/// of [`execute_spec`] on the channel's model.
pub fn execute<C: Channel>(chan: &mut C, op: u32, args: [u32; 6]) -> (r: Result<
    [u32; 6],
    ProtocolFailure,
>)
    ensures
        final(chan).driver_present() == old(chan).driver_present(),
        block_view(r) == execute_spec(old(chan).model(), op, args@).0,
        final(chan).model() == execute_spec(old(chan).model(), op, args@).1,
{
    match poll_status(chan) {
        Ok(_) => (),
        Err(WaitError::TimedOut) => {
            return Err(ProtocolFailure::NotReadyTimeout);
        },
        Err(WaitError::Faulted) => {
            return Err(ProtocolFailure::Io);
        },
    }
    match chan.write_block(&args) {
        Ok(_) => (),
        Err(_) => {
            return Err(ProtocolFailure::Io);
        },
    }
    match chan.write_cmd(op) {
        Ok(_) => (),
        Err(_) => {
            return Err(ProtocolFailure::Io);
        },
    }
    let status = match poll_status(chan) {
        Ok(v) => v,
        Err(WaitError::TimedOut) => {
            return Err(ProtocolFailure::CommandTimeout);
        },
        Err(WaitError::Faulted) => {
            return Err(ProtocolFailure::Io);
        },
    };
    if status == 1 {
        match chan.read_block() {
            Ok(b) => Ok(b),
            Err(_) => Err(ProtocolFailure::Io),
        }
    } else {
        Err(ProtocolFailure::CommandFailed(status))
    }
}

} // verus!
