//! `wl_buffer` and its backend: a buffer carved from a shared-memory pool
//! (or, one day, a DMA-BUF), attached to a master surface. The resize
//! sub-protocol replaces a buffer in place: destroy the old object, grow the
//! pool when the new geometry needs more bytes, create the new object.

use vstd::prelude::*;

use crate::errors::WaylandError;
use crate::kind::WaylandObjectKind;
use crate::objects::EventAction;
use crate::shm::{PixelFormat, SharedMemoryPool};
use crate::wire::{Id, QueueEntry, WireArgument, WireRequest};
use crate::DebugLevel;

verus! {

/// Where a buffer's bytes live: a shared-memory pool or a DMA-BUF object,
/// named by id.
#[derive(Clone, Copy, Debug, PartialEq, Eq, Structural)]
pub enum BufferBackend {
    SharedMemory(Id),
    Dma(Id),
}

/// The backend choices a window builder can ask for.
#[derive(Clone, Copy, Debug, PartialEq, Eq, Structural)]
pub enum BufferBackendKind {
    SharedMemory,
    Dma,
}

/// The state of one buffer object.
#[derive(Debug)]
pub struct Buffer {
    pub id: Id,
    pub offset: i32,
    pub width: i32,
    pub height: i32,
    pub in_use: bool,
    pub backend: BufferBackend,
    pub master: Id,
}

impl Buffer {
    /// A fresh buffer of the given geometry, not yet in use.
    pub fn new(id: Id, offset: i32, width: i32, height: i32, backend: BufferBackend, master: Id) -> (r:
        Buffer)
        ensures
            r == (Buffer { id, offset, width, height, in_use: false, backend, master }),
    {
        Buffer { id, offset, width, height, in_use: false, backend, master }
    }

    /// The buffer's destroy request.
    pub fn wl_destroy(&self) -> (r: WireRequest)
        ensures
            r.sender_id == self.id && r.opcode == 0 && r.args@ == Seq::<WireArgument>::empty(),
    {
        let args: Vec<WireArgument> = Vec::new();
        assert(args@ =~= Seq::<WireArgument>::empty());
        WireRequest { sender_id: self.id, opcode: 0, args }
    }

    /// Queue the buffer's destroy request and hand its id back for
    /// recycling.
    pub fn destroy(
        &self,
        wlmm: &mut crate::wire::MessageManager,
        wlim: &mut crate::ids::IdentManager,
    ) -> (r: Result<(), WaylandError>)
        requires
            crate::ids::spec_wf(old(wlim)@),
        ensures
            r is Ok,
            crate::ids::spec_wf(final(wlim)@),
            final(wlim)@ == crate::ids::spec_free(old(wlim)@, self.id),
            final(wlmm).outgoing@ == old(wlmm).outgoing@,
            final(wlmm).q@.len() == old(wlmm).q@.len() + 1,
            final(wlmm).q@.subrange(0, old(wlmm).q@.len() as int) == old(wlmm).q@,
            final(wlmm).q@.last() matches QueueEntry::Request(req, k)
                && k == WaylandObjectKind::Buffer && req.sender_id == self.id && req.opcode == 0
                && req.args@.len() == 0,
    {
        let req = self.wl_destroy();
        wlmm.queue_request(req, WaylandObjectKind::Buffer);
        assert(final(wlmm).q@.subrange(0, old(wlmm).q@.len() as int) =~= old(wlmm).q@);
        wlim.free_id(self.id)
    }

    /// Everything `handle` promises, as a relation between the state before
    /// (`pre`) and after (`post`) and the result: `release` clears the
    /// in-use flag; any other opcode is unknown on this interface and
    /// changes nothing.
    pub open spec fn spec_handle(
        pre: Buffer,
        opcode: int,
        post: Buffer,
        r: Result<Vec<EventAction>, WaylandError>,
    ) -> bool {
        &&& opcode == 0 ==> (r matches Ok(acts) && acts@.len() == 1 && (acts@[0]
            matches EventAction::DebugMessage(_, _)) && post == (Buffer {
            in_use: false,
            ..pre
        }))
        &&& opcode != 0 ==> (r matches Err(e) && e matches WaylandError::InvalidOpCode(op, _)
            && op == opcode && post == pre)
    }

    /// Handle one event for the buffer.
    pub fn handle(&mut self, opcode: usize, _payload: &[u8]) -> (r: Result<
        Vec<EventAction>,
        WaylandError,
    >)
        ensures
            Buffer::spec_handle(*old(self), opcode as int, *final(self), r),
    {
        match opcode {
            0 => {
                self.in_use = false;
                let mut acts: Vec<EventAction> = Vec::new();
                acts.push(
                    EventAction::DebugMessage(DebugLevel::Trivial, "wl_buffer: not in use anymore"),
                );
                Ok(acts)
            },
            inv => Err(WaylandError::InvalidOpCode(inv, "wl_buffer")),
        }
    }

    /// Replace the buffer under new geometry: destroy the old protocol
    /// object, grow the pool if the new frame needs more bytes, create a
    /// new buffer object under `new_buf_id`. The returned actions stand in
    /// exactly that order, each tagged with the object it belongs to, and
    /// none of them is itself a resize. Only a shared-memory backend can do
    /// this; a DMA-BUF backend reports a missing capability.
    pub fn get_resize_actions(
        &mut self,
        new_buf_id: Id,
        w: i32,
        h: i32,
        pool: &mut SharedMemoryPool,
        pf: PixelFormat,
    ) -> (r: Result<Vec<(EventAction, WaylandObjectKind, Id)>, WaylandError>)
        requires
            old(pool).wf(),
            0 < w,
            0 < h,
            w * h * 4 <= i32::MAX,
        ensures
            match r {
                Ok(acts) => (old(self).backend matches BufferBackend::SharedMemory(_)) && *final(self) == (Buffer { id: new_buf_id, width: w, height: h, ..*old(self) }) && final(pool).wf() && final(pool).id == old(pool).id && final(pool).size >= w * h * 4 && (old(pool).size >= w * h * 4 ==> *final(pool) == *old(pool) && acts@.len() == 2) && (old(pool).size < w * h * 4 ==> final(pool).size == w * h * 4 && acts@.len() == 4 && (
                acts@[1].0 matches EventAction::DebugMessage(_, _)) && (acts@[2].0
                    matches EventAction::Request(rq) && rq.sender_id == old(pool).id && rq.opcode
                    == 2 && rq.args@ == seq![WireArgument::Int((w * h * 4) as i32)]) && acts@[2].1
                    == WaylandObjectKind::SharedMemoryPool && acts@[2].2 == old(pool).id) && (
                acts@[0].0 matches EventAction::Request(rq) && rq.sender_id == old(self).id
                    && rq.opcode == 0 && rq.args@.len() == 0) && acts@[0].1
                    == WaylandObjectKind::Buffer && acts@[0].2 == old(self).id && (acts@.last().0
                    matches EventAction::Request(rq) && rq.sender_id == old(pool).id && rq.opcode
                    == 0 && rq.args@ == seq![
                    WireArgument::NewId(new_buf_id),
                    WireArgument::Int(old(self).offset),
                    WireArgument::Int(w),
                    WireArgument::Int(h),
                    WireArgument::Int((w * 4) as i32),
                    WireArgument::UnInt(pf.spec_wire_code()),
                ]) && acts@.last().1 == WaylandObjectKind::Buffer && acts@.last().2 == new_buf_id
                    && (forall|j: int|
                    0 <= j < acts@.len() ==> !((#[trigger] acts@[j]).0 is Resize)),
                Err(e) => (old(self).backend matches BufferBackend::Dma(_))
                    && (e matches WaylandError::RequiredValueNone) && *final(self) == *old(self)
                    && *final(pool) == *old(pool),
            },
    {
        let pool_is_backend = match &self.backend {
            BufferBackend::SharedMemory(_) => true,
            BufferBackend::Dma(_) => false,
        };
        if !pool_is_backend {
            return Err(WaylandError::RequiredValueNone);
        }
        let mut pending: Vec<(EventAction, WaylandObjectKind, Id)> = Vec::new();
        let old_id = self.id;
        pending.push((EventAction::Request(self.wl_destroy()), WaylandObjectKind::Buffer, old_id));
        self.width = w;
        self.height = h;
        assert(h * 4 <= i32::MAX && w * (h * 4) <= i32::MAX && w * (h * 4) == w * h * 4)
            by (nonlinear_arith)
            requires
                0 < w && 0 < h && w * h * 4 <= i32::MAX,
        ;
        let need = w * (h * 4);
        assert(need <= i32::MAX);
        assert(need >= 1) by (nonlinear_arith)
            requires
                w >= 1 && h >= 1 && need == w * (h * 4),
        ;
        let pool_id = pool.id;
        let ghost pool_old = *pool;
        let mut shm_acts = match pool.get_resize_actions_if_larger(need) {
            Ok(v) => v,
            Err(e) => {
                proof {
                    assert(false);
                }
                return Err(e);
            },
        };
        let ghost shm_seq = shm_acts@;
        let ghost base = pending@;
        while shm_acts.len() > 0
            invariant
                shm_acts@ == shm_seq.skip(shm_seq.len() - shm_acts@.len()),
                shm_acts@.len() <= shm_seq.len(),
                pending@.len() == base.len() + shm_seq.len() - shm_acts@.len(),
                pending@.subrange(0, base.len() as int) == base,
                forall|j: int|
                    0 <= j < shm_seq.len() - shm_acts@.len() ==> pending@[base.len() + j] == (
                    shm_seq[j],
                    WaylandObjectKind::SharedMemoryPool,
                    pool_id,
                ),
            decreases shm_acts@.len(),
        {
            let ghost k = shm_seq.len() - shm_acts@.len();
            let a = shm_acts.remove(0);
            proof {
                assert(a == shm_seq[k]);
                assert(shm_acts@ =~= shm_seq.skip(k + 1));
            }
            pending.push((a, WaylandObjectKind::SharedMemoryPool, pool_id));
            proof {
                assert(pending@.subrange(0, base.len() as int) =~= base);
            }
        }
        self.id = new_buf_id;
        assert(w * 4 <= i32::MAX) by (nonlinear_arith)
            requires
                w >= 1 && h >= 1 && w * h * 4 <= i32::MAX,
        ;
        let stride = w * 4;
        let req = pool.wl_create_buffer(new_buf_id, self.offset, w, h, stride, pf);
        pending.push((EventAction::Request(req), WaylandObjectKind::Buffer, new_buf_id));
        proof {
            if pool_old.size >= need {
                assert(shm_seq.len() == 0);
                assert(pending@.len() == 2);
            } else {
                assert(shm_seq.len() == 2);
                assert(pending@.len() == 4);
                assert(pending@[1] == (shm_seq[0], WaylandObjectKind::SharedMemoryPool, pool_id));
                assert(pending@[2] == (shm_seq[1], WaylandObjectKind::SharedMemoryPool, pool_id));
            }
            assert(pending@[0] == base[0]);
        }
        Ok(pending)
    }
}

} // verus!
