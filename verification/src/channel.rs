//! Control-file channel: the boundary between the verified protocol and the
//! controller's two control files.
//!
//! [`Channel`] abstracts the four exact-size transfers the protocol makes
//! (status word in and out, argument block in and out) plus the liveness
//! probe and the inter-poll delay.  Each implementation describes itself
//! through a [`ChannelModel`]: the outcomes its future reads and writes will
//! produce, and a log of everything written so far.  [`ScriptedChannel`] is
//! a verified in-memory implementation driven by such a script, so the
//! protocol can be exercised deterministically; the implementation over the
//! real control files lives outside the verified library.

use vstd::prelude::*;

verus! {

/// A low-level transfer failure: a missing file, a permission error or a
/// short read or write.  The protocol never retries one.
#[derive(Clone, Copy, Debug, PartialEq, Eq, Structural)]
pub struct IoFailure;

/// What a channel will do, and what has been written through it.
///
/// The three script fields are consumed front-first, one entry per call:
/// `None` (or `false`) is a transfer that fails, anything else the value it
/// yields.  An exhausted script fails every further call.  The two log
/// fields record each successful write, oldest first.
#[verifier::ext_equal]
pub struct ChannelModel {
    /// Outcomes of future status-word reads.
    pub status_reads: Seq<Option<u32>>,
    /// Outcomes of future argument-block reads (each block six words).
    pub block_reads: Seq<Option<Seq<u32>>>,
    /// Outcomes of future argument-block writes.
    pub block_write_oks: Seq<bool>,
    /// Outcomes of future status-word (command-trigger) writes.
    pub cmd_write_oks: Seq<bool>,
    /// Argument blocks successfully written so far.
    pub blocks_written: Seq<Seq<u32>>,
    /// Command words successfully written so far.
    pub cmds_written: Seq<u32>,
}

/// A model with `n` status-read outcomes consumed.
pub open spec fn skip_status_reads(m: ChannelModel, n: nat) -> ChannelModel {
    ChannelModel { status_reads: m.status_reads.skip(n as int), ..m }
}

/// A model after a failed argument-block write: the outcome is consumed,
/// nothing is logged.
pub open spec fn take_block_write(m: ChannelModel) -> ChannelModel {
    ChannelModel { block_write_oks: m.block_write_oks.skip(1), ..m }
}

/// A model after a successful argument-block write of `b`.
pub open spec fn log_block_write(m: ChannelModel, b: Seq<u32>) -> ChannelModel {
    ChannelModel {
        block_write_oks: m.block_write_oks.skip(1),
        blocks_written: m.blocks_written.push(b),
        ..m
    }
}

/// A model after a failed command-word write.
pub open spec fn take_cmd_write(m: ChannelModel) -> ChannelModel {
    ChannelModel { cmd_write_oks: m.cmd_write_oks.skip(1), ..m }
}

/// A model after a successful command-word write of `w`.
pub open spec fn log_cmd_write(m: ChannelModel, w: u32) -> ChannelModel {
    ChannelModel {
        cmd_write_oks: m.cmd_write_oks.skip(1),
        cmds_written: m.cmds_written.push(w),
        ..m
    }
}

/// A model with one argument-block read outcome consumed.
pub open spec fn take_block_read(m: ChannelModel) -> ChannelModel {
    ChannelModel { block_reads: m.block_reads.skip(1), ..m }
}

/// The model of a channel with nothing scripted and nothing written.
pub open spec fn empty_model() -> ChannelModel {
    ChannelModel {
        status_reads: Seq::empty(),
        block_reads: Seq::empty(),
        block_write_oks: Seq::empty(),
        cmd_write_oks: Seq::empty(),
        blocks_written: Seq::empty(),
        cmds_written: Seq::empty(),
    }
}

/// Exact-size transfers against the controller's control files.
///
/// A status-word transfer moves 4 bytes, an argument-block transfer 24; any
/// short transfer is an [`IoFailure`], never a partial success.  The writes
/// have observable effects on live hardware and reads are not idempotent
/// (the controller progresses between polls), which the model reflects by
/// consuming one scripted outcome per call.
pub trait Channel: Sized {
    /// The scripted outcomes and write log this channel will honour.
    /// An implementation outside the verified library leaves the default:
    /// nothing is promised of it beyond what its methods do.
    open spec fn model(&self) -> ChannelModel {
        empty_model()
    }

    /// Whether the controller's driver is present (the liveness probe).
    open spec fn driver_present(&self) -> bool {
        true
    }

    /// Probes for the driver without touching the command files.
    fn probe_driver(&self) -> (r: bool)
        ensures
            r == self.driver_present(),
    ;

    /// Reads the status word.
    fn read_status(&mut self) -> (r: Result<u32, IoFailure>)
        ensures
            final(self).driver_present() == old(self).driver_present(),
            old(self).model().status_reads.len() == 0 ==> final(self).model() == old(self).model()
                && r is Err,
            old(self).model().status_reads.len() > 0 ==> ({
                &&& final(self).model() == skip_status_reads(old(self).model(), 1)
                &&& (match old(self).model().status_reads[0] {
                    Some(v) => r == Ok::<u32, IoFailure>(v),
                    None => r is Err,
                })
            }),
    ;

    /// Writes the six-word argument block, a full 24-byte transfer.
    fn write_block(&mut self, b: &[u32; 6]) -> (r: Result<(), IoFailure>)
        ensures
            final(self).driver_present() == old(self).driver_present(),
            old(self).model().block_write_oks.len() == 0 ==> final(self).model() == old(self).model()
                && r is Err,
            old(self).model().block_write_oks.len() > 0 ==> ({
                if old(self).model().block_write_oks[0] {
                    final(self).model() == log_block_write(old(self).model(), b@) && r is Ok
                } else {
                    final(self).model() == take_block_write(old(self).model()) && r is Err
                }
            }),
    ;

    /// Writes a command word into the status register, triggering execution.
    fn write_cmd(&mut self, w: u32) -> (r: Result<(), IoFailure>)
        ensures
            final(self).driver_present() == old(self).driver_present(),
            old(self).model().cmd_write_oks.len() == 0 ==> final(self).model() == old(self).model()
                && r is Err,
            old(self).model().cmd_write_oks.len() > 0 ==> ({
                if old(self).model().cmd_write_oks[0] {
                    final(self).model() == log_cmd_write(old(self).model(), w) && r is Ok
                } else {
                    final(self).model() == take_cmd_write(old(self).model()) && r is Err
                }
            }),
    ;

    /// Reads the six-word argument block back.
    fn read_block(&mut self) -> (r: Result<[u32; 6], IoFailure>)
        ensures
            final(self).driver_present() == old(self).driver_present(),
            old(self).model().block_reads.len() == 0 ==> final(self).model() == old(self).model()
                && r is Err,
            old(self).model().block_reads.len() > 0 ==> ({
                &&& final(self).model() == take_block_read(old(self).model())
                &&& (match old(self).model().block_reads[0] {
                    Some(s) => r matches Ok(b) && b@ == s,
                    None => r is Err,
                })
            }),
    ;

    /// Waits one poll interval between status reads.
    fn pause(&self);
}

/// An in-memory channel that plays back a script: each read or write
/// consumes the next outcome queued for it, and successful writes are
/// logged for inspection.  Exhausted scripts fail, like a vanished control
/// file would.
pub struct ScriptedChannel {
    status_reads: Vec<Option<u32>>,
    block_reads: Vec<Option<[u32; 6]>>,
    block_write_oks: Vec<bool>,
    cmd_write_oks: Vec<bool>,
    blocks_written: Vec<[u32; 6]>,
    cmds_written: Vec<u32>,
    driver_ok: bool,
}

impl ScriptedChannel {
    /// A channel with an empty script, an empty log and the driver present.
    pub fn new() -> (c: ScriptedChannel)
        ensures
            c.model() == empty_model(),
            c.driver_present(),
    {
        let c = ScriptedChannel {
            status_reads: Vec::new(),
            block_reads: Vec::new(),
            block_write_oks: Vec::new(),
            cmd_write_oks: Vec::new(),
            blocks_written: Vec::new(),
            cmds_written: Vec::new(),
            driver_ok: true,
        };
        proof {
            assert(c.model() =~= empty_model());
        }
        c
    }

    /// Marks the driver absent, so that `probe_driver` reports false.
    pub fn set_driver_absent(&mut self)
        ensures
            final(self).model() == old(self).model(),
            !final(self).driver_present(),
    {
        self.driver_ok = false;
        proof {
            assert(self.model() =~= old(self).model());
        }
    }

    /// Queues a status read that yields `v`.
    pub fn push_status_read(&mut self, v: u32)
        ensures
            final(self).model() == (ChannelModel {
                status_reads: old(self).model().status_reads.push(Some(v)),
                ..old(self).model()
            }),
            final(self).driver_present() == old(self).driver_present(),
    {
        self.status_reads.push(Some(v));
        proof {
            assert(self.model() =~= ChannelModel {
                status_reads: old(self).model().status_reads.push(Some(v)),
                ..old(self).model()
            });
        }
    }

    /// Queues a status read that fails.
    pub fn push_status_fault(&mut self)
        ensures
            final(self).model() == (ChannelModel {
                status_reads: old(self).model().status_reads.push(None),
                ..old(self).model()
            }),
            final(self).driver_present() == old(self).driver_present(),
    {
        self.status_reads.push(None);
        proof {
            assert(self.model() =~= ChannelModel {
                status_reads: old(self).model().status_reads.push(None),
                ..old(self).model()
            });
        }
    }

    /// Queues an argument-block read that yields `b`.
    pub fn push_block_read(&mut self, b: [u32; 6])
        ensures
            final(self).model() == (ChannelModel {
                block_reads: old(self).model().block_reads.push(Some(b@)),
                ..old(self).model()
            }),
            final(self).driver_present() == old(self).driver_present(),
    {
        self.block_reads.push(Some(b));
        proof {
            assert(self.model() =~= ChannelModel {
                block_reads: old(self).model().block_reads.push(Some(b@)),
                ..old(self).model()
            });
        }
    }

    /// Queues an argument-block read that fails.
    pub fn push_block_read_fault(&mut self)
        ensures
            final(self).model() == (ChannelModel {
                block_reads: old(self).model().block_reads.push(None),
                ..old(self).model()
            }),
            final(self).driver_present() == old(self).driver_present(),
    {
        self.block_reads.push(None);
        proof {
            assert(self.model() =~= ChannelModel {
                block_reads: old(self).model().block_reads.push(None),
                ..old(self).model()
            });
        }
    }

    /// Queues the outcome of the next argument-block write.
    pub fn push_block_write_ok(&mut self, ok: bool)
        ensures
            final(self).model() == (ChannelModel {
                block_write_oks: old(self).model().block_write_oks.push(ok),
                ..old(self).model()
            }),
            final(self).driver_present() == old(self).driver_present(),
    {
        self.block_write_oks.push(ok);
        proof {
            assert(self.model() =~= ChannelModel {
                block_write_oks: old(self).model().block_write_oks.push(ok),
                ..old(self).model()
            });
        }
    }

    /// Queues the outcome of the next command-word write.
    pub fn push_cmd_write_ok(&mut self, ok: bool)
        ensures
            final(self).model() == (ChannelModel {
                cmd_write_oks: old(self).model().cmd_write_oks.push(ok),
                ..old(self).model()
            }),
            final(self).driver_present() == old(self).driver_present(),
    {
        self.cmd_write_oks.push(ok);
        proof {
            assert(self.model() =~= ChannelModel {
                cmd_write_oks: old(self).model().cmd_write_oks.push(ok),
                ..old(self).model()
            });
        }
    }

    /// The argument blocks successfully written so far, oldest first.
    pub fn written_blocks(&self) -> (r: &Vec<[u32; 6]>)
        ensures
            r@.len() == self.model().blocks_written.len(),
            forall|i: int| 0 <= i < r@.len() ==> r@[i]@ == self.model().blocks_written[i],
    {
        &self.blocks_written
    }

    /// The command words successfully written so far, oldest first.
    pub fn written_cmds(&self) -> (r: &Vec<u32>)
        ensures
            r@ == self.model().cmds_written,
    {
        &self.cmds_written
    }
}

impl Channel for ScriptedChannel {
    closed spec fn model(&self) -> ChannelModel {
        ChannelModel {
            status_reads: self.status_reads@,
            block_reads: self.block_reads@.map_values(
                |o: Option<[u32; 6]>|
                    match o {
                        Some(a) => Some(a@),
                        None => None::<Seq<u32>>,
                    },
            ),
            block_write_oks: self.block_write_oks@,
            cmd_write_oks: self.cmd_write_oks@,
            blocks_written: self.blocks_written@.map_values(|a: [u32; 6]| a@),
            cmds_written: self.cmds_written@,
        }
    }

    closed spec fn driver_present(&self) -> bool {
        self.driver_ok
    }

    fn probe_driver(&self) -> (r: bool) {
        self.driver_ok
    }

    fn read_status(&mut self) -> (r: Result<u32, IoFailure>) {
        if self.status_reads.len() == 0 {
            proof {
                assert(self.model() =~= old(self).model());
            }
            Err(IoFailure)
        } else {
            let o = self.status_reads.remove(0);
            proof {
                assert(self.model() =~= skip_status_reads(old(self).model(), 1));
            }
            match o {
                Some(v) => Ok(v),
                None => Err(IoFailure),
            }
        }
    }

    fn write_block(&mut self, b: &[u32; 6]) -> (r: Result<(), IoFailure>) {
        if self.block_write_oks.len() == 0 {
            proof {
                assert(self.model() =~= old(self).model());
            }
            Err(IoFailure)
        } else {
            let ok = self.block_write_oks.remove(0);
            if ok {
                self.blocks_written.push(*b);
                proof {
                    assert(self.model() =~= log_block_write(old(self).model(), b@));
                }
                Ok(())
            } else {
                proof {
                    assert(self.model() =~= take_block_write(old(self).model()));
                }
                Err(IoFailure)
            }
        }
    }

    fn write_cmd(&mut self, w: u32) -> (r: Result<(), IoFailure>) {
        if self.cmd_write_oks.len() == 0 {
            proof {
                assert(self.model() =~= old(self).model());
            }
            Err(IoFailure)
        } else {
            let ok = self.cmd_write_oks.remove(0);
            if ok {
                self.cmds_written.push(w);
                proof {
                    assert(self.model() =~= log_cmd_write(old(self).model(), w));
                }
                Ok(())
            } else {
                proof {
                    assert(self.model() =~= take_cmd_write(old(self).model()));
                }
                Err(IoFailure)
            }
        }
    }

    fn read_block(&mut self) -> (r: Result<[u32; 6], IoFailure>) {
        if self.block_reads.len() == 0 {
            proof {
                assert(self.model() =~= old(self).model());
            }
            Err(IoFailure)
        } else {
            let o = self.block_reads.remove(0);
            proof {
                assert(self.model() =~= take_block_read(old(self).model()));
                assert(old(self).model().block_reads[0] == match o {
                    Some(a) => Some(a@),
                    None => None::<Seq<u32>>,
                });
            }
            match o {
                Some(a) => Ok(a),
                None => Err(IoFailure),
            }
        }
    }

    fn pause(&self) {
    }
}

} // verus!
