//! Ghost model of the buffering core.
//!
//! The shared state is modelled as two byte sequences: `inbound`, the queue
//! of bytes the worker has received from the transport and no caller has
//! read yet, and `outbound`, the single slot of bytes a caller has written
//! and the worker has not flushed yet.  Every executable operation of the
//! library is specified as a transition on this model.

use vstd::prelude::*;

verus! {

/// The two buffers that bridge the caller and the background worker.
#[verifier::ext_equal]
pub struct PortModel {
    /// Bytes received from the transport, oldest first, awaiting a read.
    pub inbound: Seq<u8>,
    /// Bytes accepted from a caller's write, awaiting the worker's flush.
    pub outbound: Seq<u8>,
}

/// A freshly opened port: both buffers empty.
pub open spec fn empty_model() -> PortModel {
    PortModel { inbound: Seq::empty(), outbound: Seq::empty() }
}

/// A read succeeds exactly when the inbound queue is non-empty.
pub open spec fn read_enabled(m: PortModel) -> bool {
    m.inbound.len() > 0
}

/// How many bytes a read with capacity `cap` copies: all queued bytes,
/// bounded by the caller's capacity.
pub open spec fn read_count(m: PortModel, cap: int) -> int {
    if m.inbound.len() as int <= cap {
        m.inbound.len() as int
    } else {
        cap
    }
}

/// The bytes a read with capacity `cap` hands to the caller: the front of
/// the inbound queue, in order.
pub open spec fn read_returns(m: PortModel, cap: int) -> Seq<u8> {
    m.inbound.take(read_count(m, cap))
}

/// The state after a read with capacity `cap`: the copied prefix is gone
/// from the inbound queue; the outbound slot is untouched.
pub open spec fn read_step(m: PortModel, cap: int) -> PortModel {
    PortModel { inbound: m.inbound.skip(read_count(m, cap)), outbound: m.outbound }
}

/// A write is accepted exactly when the outbound slot is free.
pub open spec fn write_enabled(m: PortModel) -> bool {
    m.outbound.len() == 0
}

/// The state after an accepted write: the whole payload sits in the
/// outbound slot; the inbound queue is untouched.
pub open spec fn write_step(m: PortModel, data: Seq<u8>) -> PortModel {
    PortModel { inbound: m.inbound, outbound: data }
}

/// The state after the worker appends bytes received from the transport:
/// they join the back of the inbound queue, in the order received.
pub open spec fn absorb_step(m: PortModel, bytes: Seq<u8>) -> PortModel {
    PortModel { inbound: m.inbound + bytes, outbound: m.outbound }
}

/// The bytes the worker hands to the transport when it flushes: the entire
/// outbound slot.
pub open spec fn flush_emits(m: PortModel) -> Seq<u8> {
    m.outbound
}

/// The state after the worker's flush: the outbound slot is free again;
/// the inbound queue is untouched.
pub open spec fn flush_step(m: PortModel) -> PortModel {
    PortModel { inbound: m.inbound, outbound: Seq::empty() }
}

/// The bytes a disciplined write session hands to the transport.
///
/// Starting from `m`, each payload of `ws` in turn is accepted into the
/// outbound slot and then flushed by the worker before the next write is
/// issued; since every flush frees the slot, every write of the session
/// finds the slot free, which is exactly the discipline a caller follows
/// when it retries until the previous write is confirmed flushed.
pub open spec fn session_emits(m: PortModel, ws: Seq<Seq<u8>>) -> Seq<u8>
    decreases ws.len(),
{
    if ws.len() == 0 {
        Seq::empty()
    } else {
        let written = write_step(m, ws.first());
        flush_emits(written) + session_emits(flush_step(written), ws.drop_first())
    }
}

/// Writes issued one at a time, each only after the previous one was
/// flushed, arrive at the transport as the concatenation of the payloads
/// in order: no payload is lost, duplicated, reordered or interleaved
/// with another.
pub proof fn lemma_session_in_order(m: PortModel, ws: Seq<Seq<u8>>)
    ensures
        session_emits(m, ws) == ws.flatten(),
    decreases ws.len(),
{
    if ws.len() == 0 {
        assert(session_emits(m, ws) =~= ws.flatten());
    } else {
        let written = write_step(m, ws.first());
        lemma_session_in_order(flush_step(written), ws.drop_first());
        assert(session_emits(m, ws) =~= ws.first() + ws.drop_first().flatten());
    }
}

/// Consecutive reads drain the inbound queue in strict FIFO order: each
/// read returns a prefix of the queue it found, and the bytes of two
/// successive reads, concatenated, are exactly one longer prefix of that
/// same queue, so no byte is returned twice and none is reordered.
pub proof fn lemma_reads_fifo(m: PortModel, cap1: int, cap2: int)
    requires
        0 <= cap1,
        0 <= cap2,
    ensures
        read_returns(m, cap1).is_prefix_of(m.inbound),
        read_returns(m, cap1) + read_returns(read_step(m, cap1), cap2) == m.inbound.take(
            read_count(m, cap1) + read_count(read_step(m, cap1), cap2),
        ),
{
    let n1 = read_count(m, cap1);
    let n2 = read_count(read_step(m, cap1), cap2);
    assert(read_returns(m, cap1) =~= m.inbound.take(n1));
    assert(read_returns(m, cap1) + read_returns(read_step(m, cap1), cap2) =~= m.inbound.take(
        n1 + n2,
    ));
}

/// Bytes the worker appends are served to readers after everything that
/// was already queued, and in the order received: a read after an absorb
/// step draws from the old queue followed by the new bytes.
pub proof fn lemma_absorb_keeps_order(m: PortModel, bytes: Seq<u8>, cap: int)
    requires
        0 <= cap,
    ensures
        read_returns(absorb_step(m, bytes), cap).is_prefix_of(m.inbound + bytes),
        absorb_step(m, bytes).outbound == m.outbound,
{
    assert(read_returns(absorb_step(m, bytes), cap) =~= (m.inbound + bytes).take(
        read_count(absorb_step(m, bytes), cap),
    ));
}

} // verus!
