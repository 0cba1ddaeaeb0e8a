//! The shared buffering state and the operations on it.
//!
//! `Inner` is the state object that a port handle and the background
//! worker share under one lock (the lock, the transport handle, and the
//! worker thread live with the unverified glue; only plain byte values
//! cross into this module).  Callers use `read` and `write`; the worker
//! uses `absorb_inbound` after a successful transport read and
//! `take_outbound` before a transport write.

use vstd::prelude::*;
use std::collections::VecDeque;
use crate::model::{
    PortModel, empty_model, read_enabled, read_count, read_returns, read_step, write_enabled,
    write_step, absorb_step, flush_emits, flush_step,
};

verus! {

/// Upper bound on one transport read attempt by the worker.
pub const READ_CHUNK_SIZE: usize = 256;

/// How long the worker sleeps when the transport had no data, in
/// milliseconds.
pub const IDLE_SLEEP_MS: u64 = 1;

/// The transport read timeout forced on an opened port, in milliseconds,
/// so the worker is never parked for long inside a blocking read.
pub const OPEN_TIMEOUT_MS: u64 = 1;

/// The only condition a caller-facing operation reports besides success:
/// the operation cannot complete right now and should be retried.
#[derive(Clone, Copy, Debug, PartialEq, Eq)]
pub enum PortError {
    /// No inbound byte to read, or the outbound slot is still occupied.
    WouldBlock,
}

/// The state shared between the port handle and the background worker:
/// the inbound byte queue and the single outbound slot.
pub struct Inner {
    in_buf: VecDeque<u8>,
    out_buf: Vec<u8>,
}

impl View for Inner {
    type V = PortModel;

    closed spec fn view(&self) -> PortModel {
        PortModel { inbound: self.in_buf@, outbound: self.out_buf@ }
    }
}

impl Inner {
    /// Fresh state for a newly opened port: both buffers empty.
    pub fn new() -> (r: Inner)
        ensures
            r@ == empty_model(),
    {
        let r = Inner { in_buf: VecDeque::new(), out_buf: Vec::new() };
        proof {
            assert(r@ =~= empty_model());
        }
        r
    }

    /// Non-blocking read: drain queued inbound bytes into the caller's
    /// buffer, oldest first.
    ///
    /// Copies min(queued, capacity) bytes into the front of `buf` and
    /// removes exactly those bytes from the queue, so nothing is ever
    /// duplicated or reordered across calls.  An empty queue is reported
    /// as `WouldBlock`, never as a zero-byte success.
    pub fn read(&mut self, buf: &mut [u8]) -> (r: Result<usize, PortError>)
        ensures
            read_enabled(old(self)@) ==> {
                &&& r == Ok::<usize, PortError>(
                    read_count(old(self)@, old(buf)@.len() as int) as usize,
                )
                &&& final(self)@ == read_step(old(self)@, old(buf)@.len() as int)
                &&& final(buf)@ == read_returns(old(self)@, old(buf)@.len() as int) + old(
                    buf,
                )@.skip(read_count(old(self)@, old(buf)@.len() as int))
            },
            !read_enabled(old(self)@) ==> {
                &&& r == Err::<usize, PortError>(PortError::WouldBlock)
                &&& final(self)@ == old(self)@
                &&& final(buf)@ == old(buf)@
            },
    {
        if self.in_buf.len() == 0 {
            return Err(PortError::WouldBlock);
        }
        let ghost queued = self.in_buf@;
        let ghost orig = buf@;
        let mut i: usize = 0;
        proof {
            assert(buf@ =~= queued.take(0) + orig.skip(0));
        }
        while i < buf.len() && self.in_buf.len() > 0
            invariant
                i <= buf@.len(),
                buf@.len() == orig.len(),
                i as int <= queued.len(),
                self.in_buf@ == queued.skip(i as int),
                self.out_buf@ == old(self).out_buf@,
                buf@ == queued.take(i as int) + orig.skip(i as int),
            decreases buf@.len() - i,
        {
            let b = self.in_buf.pop_front().unwrap();
            proof {
                assert(queued.skip(i as int)[0] == queued[i as int]);
                assert(self.in_buf@ =~= queued.skip(i + 1));
            }
            buf[i] = b;
            proof {
                assert(buf@ =~= queued.take(i + 1) + orig.skip(i + 1));
            }
            i = i + 1;
        }
        proof {
            let n = read_count(old(self)@, orig.len() as int);
            assert(n == i) by {
                if i < buf@.len() {
                    assert(queued.skip(i as int).len() == 0);
                }
            }
            assert(self@ =~= read_step(old(self)@, orig.len() as int));
        }
        Ok(i)
    }

    /// Non-blocking write: hand the whole payload to the outbound slot.
    ///
    /// All-or-nothing: if the slot is free the entire payload is accepted
    /// and the full length reported; if the previous write is still
    /// unflushed, nothing changes and the caller is told to retry.
    pub fn write(&mut self, buf: &[u8]) -> (r: Result<usize, PortError>)
        ensures
            write_enabled(old(self)@) ==> {
                &&& r == Ok::<usize, PortError>(buf@.len() as usize)
                &&& final(self)@ == write_step(old(self)@, buf@)
            },
            !write_enabled(old(self)@) ==> {
                &&& r == Err::<usize, PortError>(PortError::WouldBlock)
                &&& final(self)@ == old(self)@
            },
    {
        if self.out_buf.len() > 0 {
            return Err(PortError::WouldBlock);
        }
        let mut i: usize = 0;
        while i < buf.len()
            invariant
                i <= buf@.len(),
                self.out_buf@ == buf@.take(i as int),
                self.in_buf@ == old(self).in_buf@,
            decreases buf@.len() - i,
        {
            self.out_buf.push(buf[i]);
            proof {
                assert(self.out_buf@ =~= buf@.take(i + 1));
            }
            i = i + 1;
        }
        proof {
            assert(self@ =~= write_step(old(self)@, buf@));
        }
        Ok(buf.len())
    }

    /// Worker step after a successful transport read: append the received
    /// bytes, in order, to the back of the inbound queue.
    pub fn absorb_inbound(&mut self, bytes: &[u8])
        ensures
            final(self)@ == absorb_step(old(self)@, bytes@),
    {
        let mut i: usize = 0;
        proof {
            assert(self.in_buf@ =~= old(self).in_buf@ + bytes@.take(0));
        }
        while i < bytes.len()
            invariant
                i <= bytes@.len(),
                self.in_buf@ == old(self).in_buf@ + bytes@.take(i as int),
                self.out_buf@ == old(self).out_buf@,
            decreases bytes@.len() - i,
        {
            self.in_buf.push_back(bytes[i]);
            proof {
                assert(self.in_buf@ =~= old(self).in_buf@ + bytes@.take(i + 1));
            }
            i = i + 1;
        }
        proof {
            assert(self@ =~= absorb_step(old(self)@, bytes@));
        }
    }

    /// Worker step before a transport write: when the outbound slot is
    /// occupied, take its whole content and leave the slot free, so the
    /// taken bytes can be handed to the transport.
    pub fn take_outbound(&mut self) -> (r: Option<Vec<u8>>)
        ensures
            !write_enabled(old(self)@) <==> r is Some,
            r matches Some(b) ==> {
                &&& b@ == flush_emits(old(self)@)
                &&& final(self)@ == flush_step(old(self)@)
            },
            r is None ==> final(self)@ == old(self)@,
    {
        if self.out_buf.len() == 0 {
            return None;
        }
        let mut taken: Vec<u8> = Vec::new();
        taken.append(&mut self.out_buf);
        proof {
            assert(taken@ =~= flush_emits(old(self)@));
            assert(self@ =~= flush_step(old(self)@));
        }
        Some(taken)
    }

    /// Asynchronous flush is the worker's job, so this is a no-op that
    /// always succeeds.
    pub fn flush(&mut self) -> (r: Result<(), PortError>)
        ensures
            r == Ok::<(), PortError>(()),
            final(self)@ == old(self)@,
    {
        Ok(())
    }
}

} // verus!
