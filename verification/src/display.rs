//! `wl_display`: the connection singleton under id 1. Its events report
//! protocol errors and recycle deleted ids; its requests create the registry
//! and synchronisation callbacks.

use vstd::prelude::*;

use crate::callback::Callback;
use crate::errors::{RecvError, WaylandError};
use crate::god::God;
use crate::ids::{spec_lookup, spec_next_id, spec_wf};
use crate::objects::{EventAction, WaylandObject};
use crate::registry::Registry;
use crate::bytes::{spec_u32_bytes, spec_u32_of};
use crate::wire::{
    arg_is_scalar, lemma_frame_header, lemma_scalar_request_wf, parse_string_bytes, parse_u32,
    spec_args_payload, spec_encode_request, spec_header_word, spec_parse_string_bytes,
    spec_parse_u32, spec_string_bytes, string_from_utf8, Id, QueueEntry, WireArgument,
    WireRequest,
};

verus! {

/// The display singleton's state: its id (1 on every live connection).
#[derive(Debug)]
pub struct Display {
    pub id: Id,
}

impl Display {
    /// Create and register the display singleton. On a fresh connection —
    /// nothing allocated yet — it receives id 1, as the protocol fixes.
    pub fn new(god: &mut God) -> (r: Id)
        requires
            spec_wf(old(god).wlim@),
            old(god).wlim.top_id < u32::MAX,
        ensures
            spec_wf(final(god).wlim@),
            final(god).wlim.top_id <= old(god).wlim.top_id + 1,
            r == spec_next_id(old(god).wlim@),
            spec_lookup(old(god).wlim@, r) is None,
            forall|id2: Id|
                id2 != r ==> #[trigger] spec_lookup(final(god).wlim@, id2) == spec_lookup(
                    old(god).wlim@,
                    id2,
                ),
            spec_lookup(final(god).wlim@, r) == Some(WaylandObject::Display(Display { id: r })),
            final(god).wlmm == old(god).wlmm,
            old(god).wlim@.free.len() == 0 && old(god).wlim.top_id == 0 ==> r == 1,
    {
        let id = god.wlim.pick_id();
        god.wlim.register_at(id, WaylandObject::Display(Display { id }));
        id
    }

    /// Create and register the registry, and send the `get_registry`
    /// request at once: the frame on the wire names this display and
    /// opcode 1.
    pub fn make_registry(&self, god: &mut God) -> (r: Id)
        requires
            spec_wf(old(god).wlim@),
            old(god).wlim.top_id < u32::MAX,
        ensures
            spec_wf(final(god).wlim@),
            final(god).wlim.top_id <= old(god).wlim.top_id + 1,
            r == spec_next_id(old(god).wlim@),
            spec_lookup(old(god).wlim@, r) is None,
            forall|id2: Id|
                id2 != r ==> #[trigger] spec_lookup(final(god).wlim@, id2) == spec_lookup(
                    old(god).wlim@,
                    id2,
                ),
            spec_lookup(final(god).wlim@, r) matches Some(o) && (o
                matches WaylandObject::Registry(reg) && reg.id == r && reg.inner@.len() == 0),
            final(god).wlmm.q@ == old(god).wlmm.q@,
            final(god).wlmm.outgoing@.len() == old(god).wlmm.outgoing@.len() + 1,
            spec_u32_of(final(god).wlmm.outgoing@.last().bytes@.subrange(0, 4)) == self.id,
            spec_u32_of(final(god).wlmm.outgoing@.last().bytes@.subrange(4, 8)) & 0xFFFF == 1,
            final(god).wlmm.outgoing@.last().bytes@ == spec_u32_bytes(self.id) + spec_u32_bytes(
                spec_header_word(12, 1),
            ) + spec_u32_bytes(r),
    {
        let id = god.wlim.pick_id();
        god.wlim.register_at(id, WaylandObject::Registry(Registry::new_empty(id)));
        let req = self.wl_get_registry(id);
        proof {
            assert forall|i: int| 0 <= i < req.args@.len() implies arg_is_scalar(
                #[trigger] req.args@[i],
            ) by {
                assert(req.args@[i] == WireArgument::NewId(id));
            }
            lemma_scalar_request_wf(req);
            lemma_frame_header(req);
            assert(req.args@.drop_last() =~= Seq::<WireArgument>::empty());
            assert(spec_args_payload(req.args@.drop_last()) =~= Seq::<u8>::empty());
            assert(spec_args_payload(req.args@) == spec_args_payload(req.args@.drop_last())
                + crate::wire::spec_arg_payload(req.args@.last()));
            assert(spec_args_payload(req.args@) =~= spec_u32_bytes(id));
            assert(spec_encode_request(req) =~= spec_u32_bytes(self.id) + spec_u32_bytes(
                spec_header_word(12, 1),
            ) + spec_u32_bytes(id));
        }
        god.wlmm.send_request(&req);
        id
    }

    /// Issue a sync barrier: register a fresh callback, send `wl_display.sync`
    /// naming it, and queue the barrier entry that makes the event loop stop
    /// at that callback's completion.
    pub fn sync(&self, god: &mut God) -> (r: Id)
        requires
            spec_wf(old(god).wlim@),
            old(god).wlim.top_id < u32::MAX,
        ensures
            spec_wf(final(god).wlim@),
            final(god).wlim.top_id <= old(god).wlim.top_id + 1,
            r == spec_next_id(old(god).wlim@),
            spec_lookup(old(god).wlim@, r) is None,
            forall|id2: Id|
                id2 != r ==> #[trigger] spec_lookup(final(god).wlim@, id2) == spec_lookup(
                    old(god).wlim@,
                    id2,
                ),
            spec_lookup(final(god).wlim@, r) matches Some(o) && (o
                matches WaylandObject::Callback(cb) && !cb.done && cb.data is None),
            final(god).wlmm.q@ == old(god).wlmm.q@.push(QueueEntry::Sync(r)),
            final(god).wlmm.outgoing@.len() == old(god).wlmm.outgoing@.len() + 1,
            spec_u32_of(final(god).wlmm.outgoing@.last().bytes@.subrange(0, 4)) == self.id,
            spec_u32_of(final(god).wlmm.outgoing@.last().bytes@.subrange(4, 8)) & 0xFFFF == 0,
            final(god).wlmm.outgoing@.last().bytes@ == spec_u32_bytes(self.id) + spec_u32_bytes(
                spec_header_word(12, 0),
            ) + spec_u32_bytes(r),
    {
        let id = god.wlim.pick_id();
        god.wlim.register_at(id, WaylandObject::Callback(Callback::new()));
        let req = self.wl_sync(id);
        proof {
            assert forall|i: int| 0 <= i < req.args@.len() implies arg_is_scalar(
                #[trigger] req.args@[i],
            ) by {
                assert(req.args@[i] == WireArgument::NewId(id));
            }
            lemma_scalar_request_wf(req);
            lemma_frame_header(req);
            assert(req.args@.drop_last() =~= Seq::<WireArgument>::empty());
            assert(spec_args_payload(req.args@.drop_last()) =~= Seq::<u8>::empty());
            assert(spec_args_payload(req.args@) == spec_args_payload(req.args@.drop_last())
                + crate::wire::spec_arg_payload(req.args@.last()));
            assert(spec_args_payload(req.args@) =~= spec_u32_bytes(id));
            assert(spec_encode_request(req) =~= spec_u32_bytes(self.id) + spec_u32_bytes(
                spec_header_word(12, 0),
            ) + spec_u32_bytes(id));
        }
        god.wlmm.send_request(&req);
        god.wlmm.queue_sync(id);
        id
    }

    /// The `get_registry` request, naming the registry's new id.
    pub fn wl_get_registry(&self, id: Id) -> (r: WireRequest)
        ensures
            r.sender_id == self.id && r.opcode == 1 && r.args@ == seq![WireArgument::NewId(id)],
    {
        let mut args: Vec<WireArgument> = Vec::new();
        args.push(WireArgument::NewId(id));
        assert(args@ =~= seq![WireArgument::NewId(id)]);
        WireRequest { sender_id: self.id, opcode: 1, args }
    }

    /// The `sync` request, naming the callback that fires once the server
    /// has processed everything before it.
    pub fn wl_sync(&self, id: Id) -> (r: WireRequest)
        ensures
            r.sender_id == self.id && r.opcode == 0 && r.args@ == seq![WireArgument::NewId(id)],
    {
        let mut args: Vec<WireArgument> = Vec::new();
        args.push(WireArgument::NewId(id));
        assert(args@ =~= seq![WireArgument::NewId(id)]);
        WireRequest { sender_id: self.id, opcode: 0, args }
    }

    /// Everything `handle` promises, as a relation over the result (the
    /// display object itself carries no mutable state): `error` surfaces
    /// the reported object, code and message, and is owed success for a
    /// parseable payload with an ASCII message; `delete_id` hands the freed
    /// id back to the identifier manager; any other opcode is unknown on
    /// this interface.
    pub open spec fn spec_handle(
        opcode: int,
        payload: Seq<u8>,
        r: Result<Vec<EventAction>, WaylandError>,
    ) -> bool {
        &&& opcode == 0 ==> match r {
                Ok(acts) => acts@.len() == 1 && (acts@[0] matches EventAction::Error(re)
                    && (spec_parse_u32(payload, 0) matches Ok(oid) && re.id == oid) && (
                spec_parse_u32(payload, 4) matches Ok(code) && re.code == code) && (
                spec_parse_string_bytes(payload, 8) matches Ok(mb) && spec_string_bytes(re.msg)
                    == mb)),
                Err(_) => true,
            }
        &&& opcode == 0 ==> ((spec_parse_u32(payload, 0) is Err || spec_parse_u32(payload, 4)
                is Err || spec_parse_string_bytes(payload, 8) is Err) ==> r is Err)
        &&& opcode == 0 ==> ((spec_parse_u32(payload, 0) is Ok && spec_parse_u32(payload, 4)
                is Ok && (spec_parse_string_bytes(payload, 8) matches Ok(mb) && (forall|k: int|
                0 <= k < mb.len() ==> mb[k] < 0x80))) ==> r is Ok)
        &&& opcode == 1 ==> match r {
                Ok(acts) => spec_parse_u32(payload, 0) matches Ok(did) && acts@ == seq![
                    EventAction::IdDeletion(did),
                ],
                Err(e) => spec_parse_u32(payload, 0) matches Err(e2) && e2 == e,
            }
        &&& opcode > 1 ==> (r matches Err(e) && e matches WaylandError::InvalidOpCode(op, _) && op
                == opcode)
    }

    /// Handle one event for the display.
    pub fn handle(&self, opcode: usize, payload: &[u8]) -> (r: Result<
        Vec<EventAction>,
        WaylandError,
    >)
        ensures
            Display::spec_handle(opcode as int, payload@, r),
    {
        match opcode {
            0 => {
                let obj_id = match parse_u32(payload, 0) {
                    Ok(v) => v,
                    Err(e) => {
                        return Err(e);
                    },
                };
                let code = match parse_u32(payload, 4) {
                    Ok(v) => v,
                    Err(e) => {
                        return Err(e);
                    },
                };
                let mb = match parse_string_bytes(payload, 8) {
                    Ok(v) => v,
                    Err(e) => {
                        return Err(e);
                    },
                };
                let msg = match string_from_utf8(mb) {
                    Some(s) => s,
                    None => {
                        return Err(WaylandError::ParseError);
                    },
                };
                let mut acts: Vec<EventAction> = Vec::new();
                acts.push(EventAction::Error(RecvError { id: obj_id, code, msg }));
                Ok(acts)
            },
            1 => {
                let deleted = match parse_u32(payload, 0) {
                    Ok(v) => v,
                    Err(e) => {
                        return Err(e);
                    },
                };
                let mut acts: Vec<EventAction> = Vec::new();
                acts.push(EventAction::IdDeletion(deleted));
                assert(acts@ =~= seq![EventAction::IdDeletion(deleted)]);
                Ok(acts)
            },
            inv => Err(WaylandError::InvalidOpCode(inv, "wl_display")),
        }
    }
}

} // verus!
