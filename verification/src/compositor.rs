//! `wl_compositor`: the global that creates surfaces.

use vstd::prelude::*;
use crate::ids::spec_next_id;
use crate::wire::spec_string_bytes;
use vstd::utf8::encode_utf8;
use crate::registry::spec_find_interface;

use crate::errors::WaylandError;
use crate::god::God;
use crate::ids::{spec_lookup, spec_wf};
use crate::kind::WaylandObjectKind;
use crate::objects::{EventAction, WaylandObject};
use crate::shm::PixelFormat;
use crate::surface::Surface;
use crate::wire::{Id, QueueEntry, WireArgument, WireRequest};

verus! {

/// The compositor global's state: its id.
#[derive(Debug)]
pub struct Compositor {
    pub id: Id,
}

impl Compositor {
    pub fn new(id: Id) -> (r: Compositor)
        ensures
            r.id == id,
    {
        Compositor { id }
    }

    /// Create and register the compositor proxy and queue the `bind` that
    /// brings it to life at version 5; refused when the registry never
    /// advertised `wl_compositor` at that version, or when the given id does
    /// not hold the registry.
    pub fn new_bound(god: &mut God, registry_id: Id) -> (r: Result<Id, WaylandError>)
        requires
            spec_wf(old(god).wlim@),
            old(god).wlim.top_id < u32::MAX,
        ensures
            spec_wf(final(god).wlim@),
            final(god).wlim.top_id <= old(god).wlim.top_id + 1,
            r is Ok <==> match spec_lookup(old(god).wlim@, registry_id) {
                Some(o) => match o {
                    WaylandObject::Registry(reg) => ({
                        let i = spec_find_interface(
                            reg.inner@,
                            encode_utf8(WaylandObjectKind::Compositor.spec_name()),
                        );
                        i >= 0 && 5 <= reg.inner@[i].1.version
                    }),
                    _ => false,
                },
                None => false,
            },
            match r {
                Ok(id) => id == spec_next_id(old(god).wlim@) && spec_lookup(old(god).wlim@, id)
                    is None && (spec_lookup(final(god).wlim@, id)
                    == Some(WaylandObject::Compositor(Compositor { id }))) && (forall|id2: Id|
                    id2 != id ==> #[trigger] spec_lookup(final(god).wlim@, id2) == spec_lookup(
                        old(god).wlim@,
                        id2,
                    )) && final(god).wlmm.outgoing@ == old(god).wlmm.outgoing@ && final(god).wlmm.q@.len() == old(god).wlmm.q@.len() + 1 && final(god).wlmm.q@.subrange(
                    0,
                    old(god).wlmm.q@.len() as int,
                ) == old(god).wlmm.q@ && match spec_lookup(old(god).wlim@, registry_id) {
                    Some(o) => match o {
                        WaylandObject::Registry(reg) => ({
                            let i = spec_find_interface(
                                reg.inner@,
                                encode_utf8(WaylandObjectKind::Compositor.spec_name()),
                            );
                            final(god).wlmm.q@.last() matches QueueEntry::Request(req, _)
                                && req.sender_id == reg.id && req.opcode == 0 && req.args@.len()
                                == 2 && req.args@[0] == WireArgument::UnInt(reg.inner@[i].0) && (
                            req.args@[1] matches WireArgument::NewIdSpecific(n, v, nid)
                                && spec_string_bytes(n) == encode_utf8(
                                WaylandObjectKind::Compositor.spec_name(),
                            ) && v == 5 && nid == id)
                        }),
                        _ => false,
                    },
                    None => false,
                },
                Err(e) => (e matches WaylandError::NotInRegistry
                    || e matches WaylandError::ObjectNonExistent),
            },
    {
        let ghost v0 = god.wlim@;
        let new_id = god.wlim.pick_id();
        proof {
            assert(spec_lookup(v0, new_id) is None);
        }
        god.wlim.register_at(new_id, WaylandObject::Compositor(Compositor { id: new_id }));
        let ghost v1 = god.wlim@;
        match god.wlim.take_obj(registry_id) {
            Some(o) => match o {
                WaylandObject::Registry(mut reg) => {
                    let ghost v2 = god.wlim@;
                    let res = reg.bind(&mut god.wlmm, new_id, WaylandObjectKind::Compositor, 5);
                    let ghost regg = reg;
                    god.wlim.register_at(registry_id, WaylandObject::Registry(reg));
                    proof {
                        assert(spec_lookup(v1, registry_id) == spec_lookup(v0, registry_id));
                        assert forall|id2: Id| id2 != new_id implies #[trigger] spec_lookup(
                            god.wlim@,
                            id2,
                        ) == spec_lookup(v0, id2) by {
                            if id2 == registry_id {
                                assert(spec_lookup(god.wlim@, id2) == Some(
                                    WaylandObject::Registry(regg),
                                ));
                            } else {
                                assert(spec_lookup(v1, id2) == spec_lookup(v0, id2));
                                assert(spec_lookup(v2, id2) == spec_lookup(v1, id2));
                                assert(spec_lookup(god.wlim@, id2) == spec_lookup(v2, id2));
                            }
                        }
                        assert(spec_lookup(v2, new_id) == spec_lookup(v1, new_id));
                        assert(spec_lookup(god.wlim@, new_id) == spec_lookup(v2, new_id));
                    }
                    match res {
                        Ok(_) => Ok(new_id),
                        Err(e) => Err(e),
                    }
                },
                other => {
                    let ghost og = other;
                    god.wlim.register_at(registry_id, other);
                    proof {
                        if registry_id != new_id {
                            assert(spec_lookup(v1, registry_id) == spec_lookup(v0, registry_id));
                            assert(spec_lookup(v1, registry_id) == Some(og));
                        } else {
                            assert(spec_lookup(v0, registry_id) is None);
                        }
                    }
                    Err(WaylandError::ObjectNonExistent)
                },
            },
            None => {
                proof {
                    if registry_id != new_id {
                        assert(spec_lookup(v1, registry_id) == spec_lookup(v0, registry_id));
                    }
                }
                Err(WaylandError::ObjectNonExistent)
            },
        }
    }

    /// Create and register a surface and queue the `create_surface` request
    /// that announces it. The new surface starts with nothing attached, no
    /// committed size, no pending frame callback, and the default pixel
    /// format Xrgb8888.
    pub fn make_surface(god: &mut God, compositor_id: Id) -> (r: Id)
        requires
            spec_wf(old(god).wlim@),
            old(god).wlim.top_id < u32::MAX,
        ensures
            spec_wf(final(god).wlim@),
            final(god).wlim.top_id <= old(god).wlim.top_id + 1,
            r == spec_next_id(old(god).wlim@),
            spec_lookup(old(god).wlim@, r) is None,
            forall|id2: Id|
                id2 != r ==> #[trigger] spec_lookup(final(god).wlim@, id2) == spec_lookup(
                    old(god).wlim@,
                    id2,
                ),
            spec_lookup(final(god).wlim@, r) matches Some(o) && (o matches WaylandObject::Surface(s)
                && s.id == r && s.attached_buf is None && s.frame_cb is None && s.pf
                == PixelFormat::Xrgb888 && s.w == 0 && s.h == 0),
            final(god).wlmm.outgoing@ == old(god).wlmm.outgoing@,
            final(god).wlmm.q@.len() == old(god).wlmm.q@.len() + 1,
            final(god).wlmm.q@.subrange(0, old(god).wlmm.q@.len() as int) == old(god).wlmm.q@,
            final(god).wlmm.q@.last() matches QueueEntry::Request(req, _) && req.sender_id
                == compositor_id && req.opcode == 0 && req.args@ == seq![WireArgument::UnInt(r)],
    {
        let id = god.wlim.pick_id();
        god.wlim.register_at(id, WaylandObject::Surface(Surface::new(id, PixelFormat::Xrgb888)));
        let comp = Compositor { id: compositor_id };
        let req = comp.wl_create_surface(id);
        god.wlmm.queue_request(req, WaylandObjectKind::Surface);
        assert(final(god).wlmm.q@.subrange(0, old(god).wlmm.q@.len() as int) =~= old(god).wlmm.q@);
        id
    }

    /// The `create_surface` request, naming the new surface's id.
    pub fn wl_create_surface(&self, id: Id) -> (r: WireRequest)
        ensures
            r.sender_id == self.id && r.opcode == 0 && r.args@ == seq![WireArgument::UnInt(id)],
    {
        let mut args: Vec<WireArgument> = Vec::new();
        args.push(WireArgument::UnInt(id));
        assert(args@ =~= seq![WireArgument::UnInt(id)]);
        WireRequest { sender_id: self.id, opcode: 0, args }
    }

    /// Everything `handle` promises, as a relation: the compositor global
    /// receives no events, so every opcode is refused.
    pub open spec fn spec_handle(opcode: int, r: Result<Vec<EventAction>, WaylandError>) -> bool {
        r matches Err(e) && e matches WaylandError::InvalidOpCode(op, _) && op == opcode
    }

    /// Handle one event for the compositor global.
    pub fn handle(&self, opcode: usize, _payload: &[u8]) -> (r: Result<
        Vec<EventAction>,
        WaylandError,
    >)
        ensures
            Compositor::spec_handle(opcode as int, r),
    {
        Err(WaylandError::InvalidOpCode(opcode, "wl_compositor"))
    }
}

} // verus!
