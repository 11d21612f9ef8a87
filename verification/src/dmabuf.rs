//! `zwp_linux_dmabuf_v1` and its feedback object. The feedback stream
//! describes the compositor's preferred device and the format/modifier pairs
//! it accepts; its format table arrives as a file descriptor that the
//! embedding application maps and feeds back as plain bytes.

use vstd::prelude::*;
use crate::ids::spec_next_id;
use crate::wire::spec_string_bytes;
use vstd::utf8::encode_utf8;
use crate::registry::spec_find_interface;

use crate::bytes::{read_u32_le, read_u64_le, spec_u32_of, spec_u64_of};
use crate::errors::WaylandError;
use crate::god::God;
use crate::ids::{spec_lookup, spec_wf};
use crate::kind::WaylandObjectKind;
use crate::objects::{EventAction, WaylandObject};
use crate::registry::Registry;
use crate::wire::{
    parse_u16_array, parse_u32, parse_u32_array, spec_parse_u16_array, spec_parse_u32,
    spec_parse_u32_array, Id, QueueEntry, WireArgument, WireRequest,
};
use crate::DebugLevel;

verus! {

/// The dmabuf global's state: its id and the surface its buffers will serve.
#[derive(Debug)]
pub struct DmaBuf {
    pub id: Id,
    pub surface: Id,
}

impl DmaBuf {
    pub fn new(id: Id, surface: Id) -> (r: DmaBuf)
        ensures
            r.id == id,
            r.surface == surface,
    {
        DmaBuf { id, surface }
    }

    /// Create and register the dmabuf global for the given surface and
    /// queue the `bind` that brings it to life at version 5; refused when
    /// the registry never advertised `zwp_linux_dmabuf_v1` at that version,
    /// or when the given id does not hold the registry.
    pub fn new_bound(god: &mut God, registry_id: Id, surface_id: Id) -> (r: Result<Id, WaylandError>)
        requires
            spec_wf(old(god).wlim@),
            old(god).wlim.top_id < u32::MAX,
        ensures
            spec_wf(final(god).wlim@),
            final(god).wlim.top_id <= old(god).wlim.top_id + 1,
            r is Ok <==> match spec_lookup(old(god).wlim@, registry_id) {
                Some(o) => match o {
                    WaylandObject::Registry(reg) => ({
                        let i = spec_find_interface(
                            reg.inner@,
                            encode_utf8(WaylandObjectKind::DmaBuf.spec_name()),
                        );
                        i >= 0 && 5 <= reg.inner@[i].1.version
                    }),
                    _ => false,
                },
                None => false,
            },
            match r {
                Ok(id) => id == spec_next_id(old(god).wlim@) && spec_lookup(old(god).wlim@, id)
                    is None && (spec_lookup(final(god).wlim@, id)
                    == Some(WaylandObject::DmaBuf(DmaBuf { id, surface: surface_id }))) && (forall|id2: Id|
                    id2 != id ==> #[trigger] spec_lookup(final(god).wlim@, id2) == spec_lookup(
                        old(god).wlim@,
                        id2,
                    )) && final(god).wlmm.outgoing@ == old(god).wlmm.outgoing@ && final(god).wlmm.q@.len() == old(god).wlmm.q@.len() + 1 && final(god).wlmm.q@.subrange(
                    0,
                    old(god).wlmm.q@.len() as int,
                ) == old(god).wlmm.q@ && match spec_lookup(old(god).wlim@, registry_id) {
                    Some(o) => match o {
                        WaylandObject::Registry(reg) => ({
                            let i = spec_find_interface(
                                reg.inner@,
                                encode_utf8(WaylandObjectKind::DmaBuf.spec_name()),
                            );
                            final(god).wlmm.q@.last() matches QueueEntry::Request(req, _)
                                && req.sender_id == reg.id && req.opcode == 0 && req.args@.len()
                                == 2 && req.args@[0] == WireArgument::UnInt(reg.inner@[i].0) && (
                            req.args@[1] matches WireArgument::NewIdSpecific(n, v, nid)
                                && spec_string_bytes(n) == encode_utf8(
                                WaylandObjectKind::DmaBuf.spec_name(),
                            ) && v == 5 && nid == id)
                        }),
                        _ => false,
                    },
                    None => false,
                },
                Err(e) => (e matches WaylandError::NotInRegistry
                    || e matches WaylandError::ObjectNonExistent),
            },
    {
        let ghost v0 = god.wlim@;
        let new_id = god.wlim.pick_id();
        proof {
            assert(spec_lookup(v0, new_id) is None);
        }
        god.wlim.register_at(new_id, WaylandObject::DmaBuf(DmaBuf::new(new_id, surface_id)));
        let ghost v1 = god.wlim@;
        match god.wlim.take_obj(registry_id) {
            Some(o) => match o {
                WaylandObject::Registry(mut reg) => {
                    let ghost v2 = god.wlim@;
                    let res = reg.bind(&mut god.wlmm, new_id, WaylandObjectKind::DmaBuf, 5);
                    let ghost regg = reg;
                    god.wlim.register_at(registry_id, WaylandObject::Registry(reg));
                    proof {
                        assert(spec_lookup(v1, registry_id) == spec_lookup(v0, registry_id));
                        assert forall|id2: Id| id2 != new_id implies #[trigger] spec_lookup(
                            god.wlim@,
                            id2,
                        ) == spec_lookup(v0, id2) by {
                            if id2 == registry_id {
                                assert(spec_lookup(god.wlim@, id2) == Some(
                                    WaylandObject::Registry(regg),
                                ));
                            } else {
                                assert(spec_lookup(v1, id2) == spec_lookup(v0, id2));
                                assert(spec_lookup(v2, id2) == spec_lookup(v1, id2));
                                assert(spec_lookup(god.wlim@, id2) == spec_lookup(v2, id2));
                            }
                        }
                        assert(spec_lookup(v2, new_id) == spec_lookup(v1, new_id));
                        assert(spec_lookup(god.wlim@, new_id) == spec_lookup(v2, new_id));
                    }
                    match res {
                        Ok(_) => Ok(new_id),
                        Err(e) => Err(e),
                    }
                },
                other => {
                    let ghost og = other;
                    god.wlim.register_at(registry_id, other);
                    proof {
                        if registry_id != new_id {
                            assert(spec_lookup(v1, registry_id) == spec_lookup(v0, registry_id));
                            assert(spec_lookup(v1, registry_id) == Some(og));
                        } else {
                            assert(spec_lookup(v0, registry_id) is None);
                        }
                    }
                    Err(WaylandError::ObjectNonExistent)
                },
            },
            None => {
                proof {
                    if registry_id != new_id {
                        assert(spec_lookup(v1, registry_id) == spec_lookup(v0, registry_id));
                    }
                }
                Err(WaylandError::ObjectNonExistent)
            },
        }
    }

    /// Create and register the default feedback object for this dmabuf
    /// global and queue the request that asks for it.
    pub fn get_default_feedback(god: &mut God, dmabuf_id: Id) -> (r: Id)
        requires
            spec_wf(old(god).wlim@),
            old(god).wlim.top_id < u32::MAX,
        ensures
            spec_wf(final(god).wlim@),
            final(god).wlim.top_id <= old(god).wlim.top_id + 1,
            r == spec_next_id(old(god).wlim@),
            spec_lookup(old(god).wlim@, r) is None,
            forall|id2: Id|
                id2 != r ==> #[trigger] spec_lookup(final(god).wlim@, id2) == spec_lookup(
                    old(god).wlim@,
                    id2,
                ),
            spec_lookup(final(god).wlim@, r) matches Some(o) && (o
                matches WaylandObject::DmaFeedback(fb) && fb.dmabuf == dmabuf_id && !fb.done
                && fb.format_table@.len() == 0),
            final(god).wlmm.outgoing@ == old(god).wlmm.outgoing@,
            final(god).wlmm.q@.len() == old(god).wlmm.q@.len() + 1,
            final(god).wlmm.q@.subrange(0, old(god).wlmm.q@.len() as int) == old(god).wlmm.q@,
            final(god).wlmm.q@.last() matches QueueEntry::Request(req, _) && req.sender_id
                == dmabuf_id && req.opcode == 2 && req.args@ == seq![WireArgument::NewId(r)],
    {
        let id = god.wlim.pick_id();
        god.wlim.register_at(id, WaylandObject::DmaFeedback(DmaFeedback::new(dmabuf_id)));
        let dmabuf = DmaBuf { id: dmabuf_id, surface: 0 };
        let req = dmabuf.wl_get_default_feedback(id);
        god.wlmm.queue_request(req, WaylandObjectKind::DmaFeedback);
        assert(final(god).wlmm.q@.subrange(0, old(god).wlmm.q@.len() as int) =~= old(god).wlmm.q@);
        id
    }

    /// The request that creates the default feedback object.
    pub fn wl_get_default_feedback(&self, id: Id) -> (r: WireRequest)
        ensures
            r.sender_id == self.id && r.opcode == 2 && r.args@ == seq![WireArgument::NewId(id)],
    {
        let mut args: Vec<WireArgument> = Vec::new();
        args.push(WireArgument::NewId(id));
        assert(args@ =~= seq![WireArgument::NewId(id)]);
        WireRequest { sender_id: self.id, opcode: 2, args }
    }

    /// Everything `handle` promises, as a relation: the deprecated `format`
    /// advertisement is only logged; any other opcode is unknown on this
    /// interface.
    pub open spec fn spec_handle(opcode: int, r: Result<Vec<EventAction>, WaylandError>) -> bool {
        &&& opcode == 0 ==> (r matches Ok(acts) && acts@.len() == 1 && acts@[0]
            matches EventAction::DebugMessage(_, _))
        &&& opcode != 0 ==> (r matches Err(e) && e matches WaylandError::InvalidOpCode(op, _)
            && op == opcode)
    }

    /// Handle one event for the dmabuf global.
    pub fn handle(&self, opcode: usize, _payload: &[u8]) -> (r: Result<
        Vec<EventAction>,
        WaylandError,
    >)
        ensures
            DmaBuf::spec_handle(opcode as int, r),
    {
        match opcode {
            0 => {
                let mut acts: Vec<EventAction> = Vec::new();
                acts.push(
                    EventAction::DebugMessage(DebugLevel::Important, "zwp_linux_dmabuf: format"),
                );
                Ok(acts)
            },
            inv => Err(WaylandError::InvalidOpCode(inv, "zwp_linux_dmabuf_v1")),
        }
    }
}

/// The flags a feedback tranche can carry.
#[derive(Clone, Copy, Debug, PartialEq, Eq, Structural)]
pub enum TrancheFlags {
    Scanout,
}

/// The state of a feedback object: whether the stream has completed, the
/// format table (format and modifier pairs), the indices the current tranche
/// selects, the tranche flags, the confirmed target device, and the two
/// pending facts that wait for the embedding application — the format-table
/// descriptor to map, and the device number to compare against the render
/// node.
#[derive(Debug)]
pub struct DmaFeedback {
    pub done: bool,
    pub format_table: Vec<(u32, u64)>,
    pub format_indices: Vec<u16>,
    pub flags: Vec<TrancheFlags>,
    pub target_device: Option<u32>,
    pub pending_table: Option<(i32, u32)>,
    pub pending_target_device: Option<u32>,
    pub dmabuf: Id,
}

impl DmaFeedback {
    /// A fresh feedback object for the given dmabuf global.
    pub fn new(dmabuf: Id) -> (r: DmaFeedback)
        ensures
            r.dmabuf == dmabuf,
            !r.done,
            r.format_table@.len() == 0,
            r.format_indices@.len() == 0,
            r.flags@.len() == 0,
            r.target_device is None,
            r.pending_table is None,
            r.pending_target_device is None,
    {
        DmaFeedback {
            done: false,
            format_table: Vec::new(),
            format_indices: Vec::new(),
            flags: Vec::new(),
            target_device: None,
            pending_table: None,
            pending_target_device: None,
            dmabuf,
        }
    }

    /// Ingest the mapped format table: packed 16-byte entries of a 32-bit
    /// format, 32 bits of padding, and a 64-bit modifier. Whole entries are
    /// appended to the table in order; a trailing fragment is ignored.
    pub fn parse_format_table(&mut self, slice: &[u8])
        ensures
            *final(self) == (DmaFeedback { format_table: final(self).format_table, ..*old(self) }),
            final(self).format_table@.len() == old(self).format_table@.len() + slice@.len() / 16,
            final(self).format_table@.subrange(0, old(self).format_table@.len() as int) == old(self).format_table@,
            forall|k: int|
                0 <= k < slice@.len() / 16 ==> (#[trigger] final(self).format_table@[old(self).format_table@.len() + k]) == (
                spec_u32_of(slice@.subrange(16 * k, 16 * k + 4)),
                spec_u64_of(slice@.subrange(16 * k + 8, 16 * k + 16)),
                ),
    {
        let ghost base = self.format_table@;
        let n = slice.len() / 16;
        let mut k: usize = 0;
        while k < n
            invariant
                k <= n,
                n == slice@.len() / 16,
                slice@.len() <= usize::MAX,
                self.format_table@.len() == base.len() + k,
                self.format_table@.subrange(0, base.len() as int) == base,
                *self == (DmaFeedback { format_table: self.format_table, ..*old(self) }),
                forall|j: int|
                    0 <= j < k ==> (#[trigger] self.format_table@[base.len() + j]) == (
                    spec_u32_of(slice@.subrange(16 * j, 16 * j + 4)),
                    spec_u64_of(slice@.subrange(16 * j + 8, 16 * j + 16)),
                    ),
            decreases n - k,
        {
            proof {
                assert(16 * (k as int) + 16 <= slice@.len()) by (nonlinear_arith)
                    requires
                        0 <= k < n,
                        n == slice@.len() / 16,
                ;
            }
            let format = read_u32_le(slice, 16 * k);
            let modifier = read_u64_le(slice, 16 * k + 8);
            self.format_table.push((format, modifier));
            k = k + 1;
            proof {
                assert(self.format_table@.subrange(0, base.len() as int) =~= base);
            }
        }
    }

    /// Confirm the tranche's target device against the device number of the
    /// render node that the embedding application opened: a match records
    /// the device, a mismatch or a missing candidate records nothing.
    pub fn confirm_target_device(&mut self, st_rdev: u64)
        ensures
            *final(self) == (DmaFeedback { target_device: final(self).target_device, ..*old(self) }),
            match old(self).pending_target_device {
                Some(dev) => if dev as u64 == st_rdev {
                    final(self).target_device == Some(dev)
                } else {
                    final(self).target_device == old(self).target_device
                },
                None => final(self).target_device == old(self).target_device,
            },
    {
        match self.pending_target_device {
            Some(dev) => {
                if dev as u64 == st_rdev {
                    self.target_device = Some(dev);
                }
            },
            None => {},
        }
    }

    /// Whether the current tranche offers the given format with the given
    /// modifier: some selected index lies within the table and names exactly
    /// that pair.
    pub fn has_format(&self, fourcc: u32, modifier: u64) -> (r: bool)
        ensures
            r == (exists|k: int|
                0 <= k < self.format_indices@.len() && (self.format_indices@[k] as int)
                    < self.format_table@.len() && self.format_table@[self.format_indices@[k] as int]
                    == (fourcc, modifier)),
    {
        let mut k: usize = 0;
        while k < self.format_indices.len()
            invariant
                k <= self.format_indices@.len(),
                forall|j: int|
                    0 <= j < k ==> !((self.format_indices@[j] as int) < self.format_table@.len()
                        && self.format_table@[self.format_indices@[j] as int] == (
                        fourcc,
                        modifier,
                    )),
            decreases self.format_indices@.len() - k,
        {
            let ix = self.format_indices[k] as usize;
            if ix < self.format_table.len() {
                let entry = self.format_table[ix];
                if entry.0 == fourcc && entry.1 == modifier {
                    return true;
                }
            }
            k = k + 1;
        }
        false
    }

    /// Everything `handle` promises, as a relation between the state before
    /// (`pre`) and after (`post`) and the result.
    ///
    /// `done` marks the stream complete; `format_table` stores the received
    /// descriptor and size for the embedding application to map (a missing
    /// descriptor is reported); `main_device` and `tranche_done` are logged;
    /// `tranche_target_device` stores the advertised device number for
    /// later confirmation; `tranche_formats` records the selected indices;
    /// `tranche_flags` records whether scan-out is offered. Anything else
    /// is unknown on this interface.
    pub open spec fn spec_handle(
        pre: DmaFeedback,
        opcode: int,
        payload: Seq<u8>,
        fds: Seq<i32>,
        post: DmaFeedback,
        r: Result<Vec<EventAction>, WaylandError>,
    ) -> bool {
        &&& post.dmabuf == pre.dmabuf
        &&& pre.done ==> post.done
        &&& opcode == 0 ==> (r matches Ok(acts) && acts@.len() == 0 && post.done && post == (DmaFeedback { done: true, ..pre }))
        &&& opcode == 1 ==> match spec_parse_u32(payload, 0) {
                Ok(size) => if fds.len() > 0 {
                    r matches Ok(acts) && acts@.len() == 1 && post == (DmaFeedback {
                        pending_table: Some((fds[0], size)),
                        ..pre
                    })
                } else {
                    r matches Err(e) && e matches WaylandError::FdExpected && post == pre
                },
                Err(e) => r matches Err(e2) && e2 == e && post == pre,
            }
        &&& opcode == 2 || opcode == 3 ==> (r matches Ok(acts) && acts@.len() == 1 && post
                == pre)
        &&& opcode == 4 ==> match spec_parse_u32_array(payload, 0) {
                Ok(devs) => if devs.len() > 0 {
                    r matches Ok(acts) && acts@.len() == 1 && post == (DmaFeedback {
                        pending_target_device: Some(devs[0]),
                        ..pre
                    })
                } else {
                    r matches Err(e) && e matches WaylandError::ParseError && post == pre
                },
                Err(e) => r matches Err(e2) && e2 == e && post == pre,
            }
        &&& opcode == 5 ==> match spec_parse_u16_array(payload, 0) {
                Ok(ixs) => r matches Ok(acts) && acts@.len() == 1 && post == (DmaFeedback {
                    format_indices: post.format_indices,
                    ..pre
                }) && post.format_indices@ == ixs,
                Err(e) => r matches Err(e2) && e2 == e && post == pre,
            }
        &&& opcode == 6 ==> match spec_parse_u32(payload, 0) {
                Ok(fl) => r matches Ok(acts) && acts@.len() == 1 && post == (DmaFeedback {
                    flags: post.flags,
                    ..pre
                }) && (fl & 1 == 1 ==> post.flags@ == seq![TrancheFlags::Scanout]) && (fl & 1
                    == 0 ==> post.flags@.len() == 0),
                Err(e) => r matches Err(e2) && e2 == e && post == pre,
            }
        &&& opcode > 6 ==> (r matches Err(e) && e matches WaylandError::InvalidOpCode(op, _) && op
                == opcode && post == pre)
    }

    /// Handle one event for the feedback object.
    pub fn handle(&mut self, opcode: usize, payload: &[u8], fds: &[i32]) -> (r: Result<
        Vec<EventAction>,
        WaylandError,
    >)
        ensures
            DmaFeedback::spec_handle(*old(self), opcode as int, payload@, fds@, *final(self), r),
    {
        match opcode {
            0 => {
                self.done = true;
                Ok(Vec::new())
            },
            1 => {
                let size = match parse_u32(payload, 0) {
                    Ok(v) => v,
                    Err(e) => {
                        return Err(e);
                    },
                };
                if fds.len() == 0 {
                    return Err(WaylandError::FdExpected);
                }
                let fd = fds[0];
                self.pending_table = Some((fd, size));
                let mut acts: Vec<EventAction> = Vec::new();
                acts.push(
                    EventAction::DebugMessage(
                        DebugLevel::Important,
                        "dmabuf feedback: format table received",
                    ),
                );
                Ok(acts)
            },
            2 => {
                let mut acts: Vec<EventAction> = Vec::new();
                acts.push(
                    EventAction::DebugMessage(DebugLevel::Important, "dmabuf feedback: main device"),
                );
                Ok(acts)
            },
            3 => {
                let mut acts: Vec<EventAction> = Vec::new();
                acts.push(
                    EventAction::DebugMessage(
                        DebugLevel::Important,
                        "dmabuf feedback: tranche done",
                    ),
                );
                Ok(acts)
            },
            4 => {
                let devs = match parse_u32_array(payload, 0) {
                    Ok(v) => v,
                    Err(e) => {
                        return Err(e);
                    },
                };
                if devs.len() == 0 {
                    return Err(WaylandError::ParseError);
                }
                self.pending_target_device = Some(devs[0]);
                let mut acts: Vec<EventAction> = Vec::new();
                acts.push(
                    EventAction::DebugMessage(
                        DebugLevel::Important,
                        "dmabuf feedback: tranche target device",
                    ),
                );
                Ok(acts)
            },
            5 => {
                let ixs = match parse_u16_array(payload, 0) {
                    Ok(v) => v,
                    Err(e) => {
                        return Err(e);
                    },
                };
                self.format_indices = ixs;
                let mut acts: Vec<EventAction> = Vec::new();
                acts.push(
                    EventAction::DebugMessage(
                        DebugLevel::SuperVerbose,
                        "dmabuf feedback: tranche formats",
                    ),
                );
                Ok(acts)
            },
            6 => {
                let fl = match parse_u32(payload, 0) {
                    Ok(v) => v,
                    Err(e) => {
                        return Err(e);
                    },
                };
                let mut v: Vec<TrancheFlags> = Vec::new();
                if fl & 1 == 1 {
                    v.push(TrancheFlags::Scanout);
                    assert(v@ =~= seq![TrancheFlags::Scanout]);
                }
                proof {
                    assert(fl & 1 == 1 || fl & 1 == 0) by (bit_vector);
                }
                self.flags = v;
                let mut acts: Vec<EventAction> = Vec::new();
                acts.push(
                    EventAction::DebugMessage(DebugLevel::Trivial, "dmabuf feedback: tranche flags"),
                );
                Ok(acts)
            },
            inv => Err(WaylandError::InvalidOpCode(inv, "zwp_linux_dmabuf_feedback_v1")),
        }
    }
}

} // verus!
