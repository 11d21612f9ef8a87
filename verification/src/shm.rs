//! `wl_shm` and `wl_shm_pool`: the pixel formats the compositor supports,
//! and the file-backed memory pool that buffers are carved from. The pool's
//! mapping is modelled by an owned byte vector whose length always equals the
//! pool's size; the embedding application mirrors it into the real mapping.

use vstd::prelude::*;
use crate::ids::spec_next_id;
use crate::wire::spec_string_bytes;
use vstd::utf8::encode_utf8;
use crate::registry::spec_find_interface;

use crate::drm::fourcc_code;
use crate::errors::WaylandError;
use crate::god::God;
use crate::ids::{spec_lookup, spec_wf};
use crate::kind::WaylandObjectKind;
use crate::objects::{EventAction, WaylandObject};
use crate::wire::{
    parse_u32, spec_parse_u32, Id, MessageManager, QueueEntry, WireArgument, WireRequest,
};
use crate::DebugLevel;

verus! {

/// A pixel format the library understands, numbered as it advertises them
/// on the wire: 0 for ARGB, 1 for XRGB.
#[derive(Clone, Copy, Debug, PartialEq, Eq, Structural)]
pub enum PixelFormat {
    Argb888,
    Xrgb888,
}

impl PixelFormat {
    /// The format for a wire code, or `InvalidPixelFormat` for any other
    /// value.
    pub fn from_u32(processee: u32) -> (r: Result<PixelFormat, WaylandError>)
        ensures
            processee == 0 ==> r == Ok::<PixelFormat, WaylandError>(PixelFormat::Argb888),
            processee == 1 ==> r == Ok::<PixelFormat, WaylandError>(PixelFormat::Xrgb888),
            processee > 1 ==> (r matches Err(e) && e matches WaylandError::InvalidPixelFormat),
    {
        match processee {
            0 => Ok(PixelFormat::Argb888),
            1 => Ok(PixelFormat::Xrgb888),
            _ => Err(WaylandError::InvalidPixelFormat),
        }
    }

    /// The format's wire code, inverse of `from_u32`.
    pub fn wire_code(&self) -> (r: u32)
        ensures
            r == self.spec_wire_code(),
    {
        match self {
            PixelFormat::Argb888 => 0,
            PixelFormat::Xrgb888 => 1,
        }
    }

    pub open spec fn spec_wire_code(&self) -> u32 {
        match self {
            PixelFormat::Argb888 => 0,
            PixelFormat::Xrgb888 => 1,
        }
    }

    /// Bytes per pixel.
    pub fn width(&self) -> (r: i32)
        ensures
            r == 4,
    {
        match self {
            PixelFormat::Argb888 => 4,
            PixelFormat::Xrgb888 => 4,
        }
    }

    /// The DRM FourCC code for this format; both formats map to 'XR24'.
    pub fn to_fourcc(self) -> (r: u32)
        ensures
            r == 0x34325258,
    {
        match self {
            PixelFormat::Argb888 => fourcc_code(0x58, 0x52, 0x32, 0x34),
            PixelFormat::Xrgb888 => fourcc_code(0x58, 0x52, 0x32, 0x34),
        }
    }

    /// Bits per pixel.
    pub fn bpp(&self) -> (r: u32)
        ensures
            r == 32,
    {
        match self {
            PixelFormat::Argb888 => 32,
            PixelFormat::Xrgb888 => 32,
        }
    }
}

/// The `wl_shm` global: its id and the pixel formats the compositor has
/// advertised.
#[derive(Debug)]
pub struct SharedMemory {
    pub id: Id,
    pub valid_pix_formats: Vec<PixelFormat>,
}

impl SharedMemory {
    /// A fresh `wl_shm` proxy with no formats recorded yet.
    pub fn new(id: Id) -> (r: SharedMemory)
        ensures
            r.id == id,
            r.valid_pix_formats@.len() == 0,
    {
        SharedMemory { id, valid_pix_formats: Vec::new() }
    }

    /// Record a format, keeping the list free of duplicates.
    fn push_pix_format(&mut self, pf: PixelFormat)
        ensures
            final(self).id == old(self).id,
            final(self).valid_pix_formats@.contains(pf),
            old(self).valid_pix_formats@.contains(pf) ==> final(self).valid_pix_formats@ == old(self).valid_pix_formats@,
            !old(self).valid_pix_formats@.contains(pf) ==> final(self).valid_pix_formats@ == old(self).valid_pix_formats@.push(pf),
    {
        let mut i: usize = 0;
        while i < self.valid_pix_formats.len()
            invariant
                i <= self.valid_pix_formats@.len(),
                forall|j: int| 0 <= j < i ==> self.valid_pix_formats@[j] != pf,
        decreases self.valid_pix_formats@.len() - i,
        {
            if self.valid_pix_formats[i] == pf {
                assert(self.valid_pix_formats@[i as int] == pf);
                assert(self.valid_pix_formats@.contains(pf));
                return ;
            }
            i = i + 1;
        }
        self.valid_pix_formats.push(pf);
        assert(self.valid_pix_formats@[self.valid_pix_formats@.len() - 1] == pf);
        assert(self.valid_pix_formats@.contains(pf));
    }

    /// Create and register the `wl_shm` proxy and queue the `bind` that
    /// brings it to life at version 1; refused when the registry never
    /// advertised `wl_shm`, or when the given id does not hold the registry.
    pub fn new_bound_initialized(god: &mut God, registry_id: Id) -> (r: Result<Id, WaylandError>)
        requires
            spec_wf(old(god).wlim@),
            old(god).wlim.top_id < u32::MAX,
        ensures
            spec_wf(final(god).wlim@),
            final(god).wlim.top_id <= old(god).wlim.top_id + 1,
            r is Ok <==> match spec_lookup(old(god).wlim@, registry_id) {
                Some(o) => match o {
                    WaylandObject::Registry(reg) => ({
                        let i = spec_find_interface(
                            reg.inner@,
                            encode_utf8(WaylandObjectKind::SharedMemory.spec_name()),
                        );
                        i >= 0 && 1 <= reg.inner@[i].1.version
                    }),
                    _ => false,
                },
                None => false,
            },
            match r {
                Ok(id) => id == spec_next_id(old(god).wlim@) && spec_lookup(old(god).wlim@, id)
                    is None && (spec_lookup(final(god).wlim@, id)
                    matches Some(o2) && (o2 matches WaylandObject::SharedMemory(sm) && sm.id == id && sm.valid_pix_formats@.len() == 0)) && (forall|id2: Id|
                    id2 != id ==> #[trigger] spec_lookup(final(god).wlim@, id2) == spec_lookup(
                        old(god).wlim@,
                        id2,
                    )) && final(god).wlmm.outgoing@ == old(god).wlmm.outgoing@ && final(god).wlmm.q@.len() == old(god).wlmm.q@.len() + 1 && final(god).wlmm.q@.subrange(
                    0,
                    old(god).wlmm.q@.len() as int,
                ) == old(god).wlmm.q@ && match spec_lookup(old(god).wlim@, registry_id) {
                    Some(o) => match o {
                        WaylandObject::Registry(reg) => ({
                            let i = spec_find_interface(
                                reg.inner@,
                                encode_utf8(WaylandObjectKind::SharedMemory.spec_name()),
                            );
                            final(god).wlmm.q@.last() matches QueueEntry::Request(req, _)
                                && req.sender_id == reg.id && req.opcode == 0 && req.args@.len()
                                == 2 && req.args@[0] == WireArgument::UnInt(reg.inner@[i].0) && (
                            req.args@[1] matches WireArgument::NewIdSpecific(n, v, nid)
                                && spec_string_bytes(n) == encode_utf8(
                                WaylandObjectKind::SharedMemory.spec_name(),
                            ) && v == 1 && nid == id)
                        }),
                        _ => false,
                    },
                    None => false,
                },
                Err(e) => (e matches WaylandError::NotInRegistry
                    || e matches WaylandError::ObjectNonExistent),
            },
    {
        let ghost v0 = god.wlim@;
        let new_id = god.wlim.pick_id();
        proof {
            assert(spec_lookup(v0, new_id) is None);
        }
        god.wlim.register_at(new_id, WaylandObject::SharedMemory(SharedMemory::new(new_id)));
        let ghost v1 = god.wlim@;
        match god.wlim.take_obj(registry_id) {
            Some(o) => match o {
                WaylandObject::Registry(mut reg) => {
                    let ghost v2 = god.wlim@;
                    let res = reg.bind(&mut god.wlmm, new_id, WaylandObjectKind::SharedMemory, 1);
                    let ghost regg = reg;
                    god.wlim.register_at(registry_id, WaylandObject::Registry(reg));
                    proof {
                        assert(spec_lookup(v1, registry_id) == spec_lookup(v0, registry_id));
                        assert forall|id2: Id| id2 != new_id implies #[trigger] spec_lookup(
                            god.wlim@,
                            id2,
                        ) == spec_lookup(v0, id2) by {
                            if id2 == registry_id {
                                assert(spec_lookup(god.wlim@, id2) == Some(
                                    WaylandObject::Registry(regg),
                                ));
                            } else {
                                assert(spec_lookup(v1, id2) == spec_lookup(v0, id2));
                                assert(spec_lookup(v2, id2) == spec_lookup(v1, id2));
                                assert(spec_lookup(god.wlim@, id2) == spec_lookup(v2, id2));
                            }
                        }
                        assert(spec_lookup(v2, new_id) == spec_lookup(v1, new_id));
                        assert(spec_lookup(god.wlim@, new_id) == spec_lookup(v2, new_id));
                    }
                    match res {
                        Ok(_) => Ok(new_id),
                        Err(e) => Err(e),
                    }
                },
                other => {
                    let ghost og = other;
                    god.wlim.register_at(registry_id, other);
                    proof {
                        if registry_id != new_id {
                            assert(spec_lookup(v1, registry_id) == spec_lookup(v0, registry_id));
                            assert(spec_lookup(v1, registry_id) == Some(og));
                        } else {
                            assert(spec_lookup(v0, registry_id) is None);
                        }
                    }
                    Err(WaylandError::ObjectNonExistent)
                },
            },
            None => {
                proof {
                    if registry_id != new_id {
                        assert(spec_lookup(v1, registry_id) == spec_lookup(v0, registry_id));
                    }
                }
                Err(WaylandError::ObjectNonExistent)
            },
        }
    }

    /// Create and register a pool over a backing file the embedding
    /// application has opened and truncated to `size` bytes, and queue the
    /// `create_pool` request that announces it (the descriptor rides out of
    /// band). The registered pool's modelled mapping is exactly `size` zero
    /// bytes; a negative size is refused.
    pub fn make_pool(god: &mut God, shm_id: Id, fd: i32, size: i32, name: String) -> (r: Result<
        Id,
        WaylandError,
    >)
        requires
            spec_wf(old(god).wlim@),
            old(god).wlim.top_id < u32::MAX,
        ensures
            spec_wf(final(god).wlim@),
            final(god).wlim.top_id <= old(god).wlim.top_id + 1,
            size >= 0 ==> match r {
                Ok(id) => id == spec_next_id(old(god).wlim@) && (spec_lookup(old(god).wlim@, id)
                    is None) && (forall|id2: Id|
                    id2 != id ==> #[trigger] spec_lookup(final(god).wlim@, id2) == spec_lookup(
                        old(god).wlim@,
                        id2,
                    )) && (spec_lookup(final(god).wlim@, id) matches Some(o) && (o
                    matches WaylandObject::SharedMemoryPool(p) && p.id == id && p.size == size
                    && p.fd == fd && p.wf() && p.data@.len() == size)) && final(god).wlmm.outgoing@
                    == old(god).wlmm.outgoing@ && final(god).wlmm.q@.len() == old(god).wlmm.q@.len() + 1 && final(god).wlmm.q@.subrange(0, old(god).wlmm.q@.len() as int) == old(
                    god,
                ).wlmm.q@ && (final(god).wlmm.q@.last() matches QueueEntry::Request(
                    req,
                    _,
                ) && req.sender_id == shm_id && req.opcode == 0 && req.args@ == seq![
                    WireArgument::NewId(id),
                    WireArgument::FileDescriptor(fd),
                    WireArgument::Int(size),
                ]),
                Err(_) => false,
            },
            size < 0 ==> (r matches Err(e) && e matches WaylandError::RequiredValueNone && *final(god) == *old(god)),
    {
        if size < 0 {
            return Err(WaylandError::RequiredValueNone);
        }
        let id = god.wlim.pick_id();
        let pool = SharedMemoryPool::new(id, name, size, fd);
        god.wlim.register_at(id, WaylandObject::SharedMemoryPool(pool));
        let shm = SharedMemory { id: shm_id, valid_pix_formats: Vec::new() };
        shm.create_pool(&mut god.wlmm, size, fd, id);
        Ok(id)
    }

    /// The `create_pool` request: the new pool object, its file descriptor
    /// (sent out of band), and its size.
    pub fn wl_create_pool(&self, size: i32, fd: i32, id: Id) -> (r: WireRequest)
        ensures
            r.sender_id == self.id,
            r.opcode == 0,
            r.args@ == seq![
                WireArgument::NewId(id),
                WireArgument::FileDescriptor(fd),
                WireArgument::Int(size),
            ],
    {
        let mut args: Vec<WireArgument> = Vec::new();
        args.push(WireArgument::NewId(id));
        args.push(WireArgument::FileDescriptor(fd));
        args.push(WireArgument::Int(size));
        assert(args@ =~= seq![
            WireArgument::NewId(id),
            WireArgument::FileDescriptor(fd),
            WireArgument::Int(size),
        ]);
        WireRequest { sender_id: self.id, opcode: 0, args }
    }

    /// Queue the `create_pool` request.
    pub fn create_pool(&self, wlmm: &mut MessageManager, size: i32, fd: i32, id: Id)
        ensures
            final(wlmm).outgoing@ == old(wlmm).outgoing@,
            final(wlmm).q@.len() == old(wlmm).q@.len() + 1,
            final(wlmm).q@.subrange(0, old(wlmm).q@.len() as int) == old(wlmm).q@,
            final(wlmm).q@.last() matches QueueEntry::Request(req, k)
                && k == WaylandObjectKind::SharedMemory && req.sender_id == self.id && req.opcode
                == 0 && req.args@ == seq![
                WireArgument::NewId(id),
                WireArgument::FileDescriptor(fd),
                WireArgument::Int(size),
            ],
    {
        let req = self.wl_create_pool(size, fd, id);
        wlmm.queue_request(req, WaylandObjectKind::SharedMemory);
        assert(final(wlmm).q@.subrange(0, old(wlmm).q@.len() as int) =~= old(wlmm).q@);
    }

    /// Everything `handle` promises, as a relation between the state before
    /// (`pre`) and after (`post`) and the result: `format` records an
    /// advertised pixel format when the library knows it and only logs an
    /// unknown code; any other opcode is unknown on this interface.
    pub open spec fn spec_handle(
        pre: SharedMemory,
        opcode: int,
        payload: Seq<u8>,
        post: SharedMemory,
        r: Result<Vec<EventAction>, WaylandError>,
    ) -> bool {
        &&& post.id == pre.id
        &&& opcode == 0 ==> match spec_parse_u32(payload, 0) {
            Ok(code) => r matches Ok(acts) && acts@.len() == 1 && (acts@[0]
                matches EventAction::DebugMessage(_, _)) && (code == 0
                ==> post.valid_pix_formats@.contains(PixelFormat::Argb888)) && (code == 1
                ==> post.valid_pix_formats@.contains(PixelFormat::Xrgb888)) && (code > 1
                ==> post.valid_pix_formats@ == pre.valid_pix_formats@),
            Err(e) => r matches Err(e2) && e2 == e && post == pre,
        }
        &&& opcode != 0 ==> (r matches Err(e) && e matches WaylandError::InvalidOpCode(op, _)
            && op == opcode && post == pre)
    }

    /// Handle one event for the `wl_shm` global.
    pub fn handle(&mut self, opcode: usize, payload: &[u8]) -> (r: Result<
        Vec<EventAction>,
        WaylandError,
    >)
        ensures
            SharedMemory::spec_handle(*old(self), opcode as int, payload@, *final(self), r),
    {
        match opcode {
            0 => {
                let format = match parse_u32(payload, 0) {
                    Ok(v) => v,
                    Err(e) => {
                        return Err(e);
                    },
                };
                let mut acts: Vec<EventAction> = Vec::new();
                match PixelFormat::from_u32(format) {
                    Ok(pf) => {
                        self.push_pix_format(pf);
                        acts.push(
                            EventAction::DebugMessage(
                                DebugLevel::Trivial,
                                "wl_shm: pixel format recorded",
                            ),
                        );
                    },
                    Err(_) => {
                        acts.push(
                            EventAction::DebugMessage(
                                DebugLevel::Error,
                                "wl_shm: unrecognized pixel format",
                            ),
                        );
                    },
                }
                Ok(acts)
            },
            inv => Err(WaylandError::InvalidOpCode(inv, "wl_shm")),
        }
    }
}

/// A shared-memory pool: the id of its protocol object, the descriptor of
/// its backing file, its current size, the name it was created under, and
/// the modelled mapping, always exactly `size` bytes long.
#[derive(Debug)]
pub struct SharedMemoryPool {
    pub id: Id,
    pub fd: i32,
    pub size: i32,
    pub name: String,
    pub data: Vec<u8>,
}

impl SharedMemoryPool {
    /// The pool's mapping matches its size.
    pub open spec fn wf(&self) -> bool {
        self.size >= 0 && self.data@.len() == self.size
    }

    /// A pool of `size` zero bytes.
    pub fn new(id: Id, name: String, size: i32, fd: i32) -> (r: SharedMemoryPool)
        requires
            size >= 0,
        ensures
            r.id == id,
            r.fd == fd,
            r.size == size,
            r.name == name,
            r.wf(),
            r.data@ == Seq::new(size as nat, |i: int| 0u8),
    {
        let data: Vec<u8> = alloc_zeroed(size as usize);
        SharedMemoryPool { id, fd, size, name, data }
    }

    /// The `create_buffer` request: a new buffer at `offset` within the
    /// pool, with the given geometry, stride and format.
    pub fn wl_create_buffer(
        &self,
        id: Id,
        offset: i32,
        width: i32,
        height: i32,
        stride: i32,
        format: PixelFormat,
    ) -> (r: WireRequest)
        ensures
            r.sender_id == self.id,
            r.opcode == 0,
            r.args@ == seq![
                WireArgument::NewId(id),
                WireArgument::Int(offset),
                WireArgument::Int(width),
                WireArgument::Int(height),
                WireArgument::Int(stride),
                WireArgument::UnInt(format.spec_wire_code()),
            ],
    {
        let mut args: Vec<WireArgument> = Vec::new();
        args.push(WireArgument::NewId(id));
        args.push(WireArgument::Int(offset));
        args.push(WireArgument::Int(width));
        args.push(WireArgument::Int(height));
        args.push(WireArgument::Int(stride));
        args.push(WireArgument::UnInt(format.wire_code()));
        assert(args@ =~= seq![
            WireArgument::NewId(id),
            WireArgument::Int(offset),
            WireArgument::Int(width),
            WireArgument::Int(height),
            WireArgument::Int(stride),
            WireArgument::UnInt(format.spec_wire_code()),
        ]);
        WireRequest { sender_id: self.id, opcode: 0, args }
    }

    /// The pool's destroy request.
    pub fn wl_destroy(&self) -> (r: WireRequest)
        ensures
            r.sender_id == self.id,
            r.opcode == 1,
            r.args@ == Seq::<WireArgument>::empty(),
    {
        let args: Vec<WireArgument> = Vec::new();
        assert(args@ =~= Seq::<WireArgument>::empty());
        WireRequest { sender_id: self.id, opcode: 1, args }
    }

    /// The pool's resize request, carrying its current size.
    pub fn wl_resize(&self) -> (r: WireRequest)
        ensures
            r.sender_id == self.id,
            r.opcode == 2,
            r.args@ == seq![WireArgument::Int(self.size)],
    {
        let mut args: Vec<WireArgument> = Vec::new();
        args.push(WireArgument::Int(self.size));
        assert(args@ =~= seq![WireArgument::Int(self.size)]);
        WireRequest { sender_id: self.id, opcode: 2, args }
    }

    /// Queue the pool's destroy request; the embedding application unmaps
    /// and unlinks the real pool afterwards.
    pub fn destroy(&self, wlmm: &mut MessageManager)
        ensures
            final(wlmm).outgoing@ == old(wlmm).outgoing@,
            final(wlmm).q@.len() == old(wlmm).q@.len() + 1,
            final(wlmm).q@.subrange(0, old(wlmm).q@.len() as int) == old(wlmm).q@,
            final(wlmm).q@.last() matches QueueEntry::Request(req, k)
                && k == WaylandObjectKind::SharedMemoryPool && req.sender_id == self.id
                && req.opcode == 1 && req.args@.len() == 0,
    {
        let req = self.wl_destroy();
        wlmm.queue_request(req, WaylandObjectKind::SharedMemoryPool);
        assert(final(wlmm).q@.subrange(0, old(wlmm).q@.len() as int) =~= old(wlmm).q@);
    }

    /// Grow the pool to `size` bytes. A size not above the current one is a
    /// no-op with no actions; otherwise the pool's size and mapping become
    /// exactly `size`, the old bytes are kept, the new tail is zero, and the
    /// actions are a log line followed by the pool's `resize` request.
    pub fn get_resize_actions_if_larger(&mut self, size: i32) -> (r: Result<
        Vec<EventAction>,
        WaylandError,
    >)
        requires
            old(self).wf(),
        ensures
            final(self).id == old(self).id,
            final(self).fd == old(self).fd,
            final(self).name == old(self).name,
            final(self).wf(),
            size <= old(self).size ==> *final(self) == *old(self) && (r matches Ok(v) && v@.len()
                == 0),
            size > old(self).size ==> final(self).size == size && final(self).data@.len() == size
                && final(self).data@.subrange(0, old(self).size as int) == old(self).data@ && (
            forall|j: int| old(self).size <= j < size ==> final(self).data@[j] == 0) && (r matches Ok(
                v,
            ) && v@.len() == 2 && (v@[0] matches EventAction::DebugMessage(_, _)) && (v@[1]
                matches EventAction::Request(req) && req.sender_id == old(self).id && req.opcode
                == 2 && req.args@ == seq![WireArgument::Int(size)])),
    {
        let mut pending: Vec<EventAction> = Vec::new();
        if size <= self.size {
            return Ok(pending);
        }
        self.size = size;
        grow_zeroed(&mut self.data, size as usize);
        pending.push(EventAction::DebugMessage(DebugLevel::Important, "wl_shm_pool: resize"));
        let req = self.wl_resize();
        pending.push(EventAction::Request(req));
        assert(pending@.len() == 2);
        Ok(pending)
    }
}

/// A vector of `n` zero bytes.
fn alloc_zeroed(n: usize) -> (r: Vec<u8>)
    ensures
        r@ == Seq::new(n as nat, |i: int| 0u8),
{
    let mut v: Vec<u8> = Vec::new();
    let mut i: usize = 0;
    while i < n
        invariant
            i <= n,
            v@ == Seq::new(i as nat, |k: int| 0u8),
        decreases n - i,
    {
        v.push(0);
        i = i + 1;
        assert(v@ =~= Seq::new(i as nat, |k: int| 0u8));
    }
    v
}

/// Extend `v` with zero bytes up to length `n`.
fn grow_zeroed(v: &mut Vec<u8>, n: usize)
    requires
        old(v)@.len() <= n,
    ensures
        final(v)@.len() == n,
        final(v)@.subrange(0, old(v)@.len() as int) == old(v)@,
        forall|j: int| old(v)@.len() <= j < n ==> final(v)@[j] == 0,
{
    let ghost base = old(v)@;
    while v.len() < n
        invariant
            base.len() <= v@.len() <= n,
            v@.subrange(0, base.len() as int) == base,
            forall|j: int| base.len() <= j < v@.len() ==> v@[j] == 0,
        decreases n - v@.len(),
    {
        v.push(0);
        assert(v@.subrange(0, base.len() as int) =~= base);
    }
}

} // verus!
