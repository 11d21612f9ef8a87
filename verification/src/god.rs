//! The event loop. `God` owns the identifier manager and the message
//! queues; one `handle_events` pass splits the received bytes into events,
//! dispatches each to the object it addresses, collects the resulting
//! actions, and applies them in order: requests are encoded for the wire,
//! freed ids recycled, resizes drive the buffer-replacement sub-protocol,
//! and a completed sync callback ends the pass early.

use vstd::prelude::*;

use crate::buffer::BufferBackend;
use crate::errors::{RecvError, WaylandError};
use crate::ids::{spec_lookup, spec_wf, IdentManager};
use crate::kind::WaylandObjectKind;
use crate::objects::{EventAction, WaylandObject};
use crate::wire::{
    request_wf_check, spec_encode_request, Id, MessageManager, OutboundFrame, QueueEntry,
    WireArgument, WireRequest,
};
use crate::DebugLevel;

verus! {

/// Whether a staged frame is exactly the encoding of a request with the
/// given sender, opcode and arguments.
pub open spec fn spec_frame_is_request(
    f: OutboundFrame,
    sender: Id,
    opcode: int,
    args: Seq<WireArgument>,
) -> bool {
    exists|rq: WireRequest|
        f.bytes@ == #[trigger] spec_encode_request(rq) && rq.sender_id == sender && rq.opcode
            == opcode && rq.args@ == args
}

/// Whether every frame of a byte stream addresses an object that is not in
/// the id-map — a pass over such a stream only logs and skips.
pub open spec fn spec_all_receivers_unmapped(v: crate::ids::ImView, bytes: Seq<u8>) -> bool {
    match crate::wire::spec_frames(bytes) {
        Ok(fs) => forall|j: int|
            0 <= j < fs.len() ==> spec_lookup(v, (#[trigger] fs[j]).0) is None,
        Err(_) => false,
    }
}

/// The parsed frames of a well-formed stream.
pub open spec fn spec_frames_of(bytes: Seq<u8>) -> Seq<(u32, int, Seq<u8>)> {
    crate::wire::spec_frames(bytes)->Ok_0
}

/// The stream is exactly one well-formed ping: a single frame with opcode 0,
/// addressed to a mapped `xdg_wm_base`, carrying a parseable serial.
pub open spec fn spec_single_ping(v: crate::ids::ImView, bytes: Seq<u8>) -> bool {
    match crate::wire::spec_frames(bytes) {
        Ok(fs) => fs.len() == 1 && fs[0].1 == 0 && (spec_lookup(v, fs[0].0) matches Some(o)
            && o is XdgWmBase) && crate::wire::spec_parse_u32(fs[0].2, 0) is Ok,
        Err(_) => false,
    }
}

/// The pong such a ping owes: exactly one staged frame more, carrying the
/// shell's own id, the pong opcode and the ping's serial.
pub open spec fn spec_pong_staged(
    v: crate::ids::ImView,
    bytes: Seq<u8>,
    out0: Seq<OutboundFrame>,
    out1: Seq<OutboundFrame>,
) -> bool {
    let fs = spec_frames_of(bytes);
    let serial = crate::wire::spec_parse_u32(fs[0].2, 0)->Ok_0;
    match spec_lookup(v, fs[0].0) {
        Some(o) => match o {
            WaylandObject::XdgWmBase(b) => out1.len() == out0.len() + 1 && out1.subrange(
                0,
                out0.len() as int,
            ) == out0 && spec_frame_is_request(
                out1.last(),
                b.id,
                3,
                seq![WireArgument::UnInt(serial)],
            ),
            _ => false,
        },
        None => false,
    }
}

/// The stream is a sync completion followed by a ping: frame 0 is `done`
/// for the mapped callback recorded as the current sync barrier, frame 1 a
/// well-formed ping for a mapped shell.
pub open spec fn spec_sync_then_ping(v: crate::ids::ImView, bytes: Seq<u8>) -> bool {
    match crate::wire::spec_frames(bytes) {
        Ok(fs) => fs.len() == 2 && v.sync == Some(fs[0].0) && fs[0].1 == 0 && (spec_lookup(
            v,
            fs[0].0,
        ) matches Some(o) && o is Callback) && crate::wire::spec_parse_u32(fs[0].2, 0) is Ok
            && fs[1].1 == 0 && (spec_lookup(v, fs[1].0) matches Some(o2) && o2 is XdgWmBase)
            && crate::wire::spec_parse_u32(fs[1].2, 0) is Ok,
        Err(_) => false,
    }
}

/// What dispatching a lone ping leaves pending: the id-map unchanged (up to
/// lookup), and exactly one collected action, the pong request.
pub open spec fn spec_pong_pending(
    v0: crate::ids::ImView,
    bytes: Seq<u8>,
    vnow: crate::ids::ImView,
    actions: Seq<(EventAction, WaylandObjectKind, Id)>,
) -> bool {
    let fs = spec_frames_of(bytes);
    let serial = crate::wire::spec_parse_u32(fs[0].2, 0)->Ok_0;
    &&& (forall|id2: Id| #[trigger] spec_lookup(vnow, id2) == spec_lookup(v0, id2))
    &&& vnow.sync == v0.sync
    &&& vnow.free == v0.free
    &&& vnow.top_id == v0.top_id
    &&& actions.len() == 1
    &&& match spec_lookup(v0, fs[0].0) {
        Some(o) => match o {
            WaylandObject::XdgWmBase(b) => actions[0].0 matches EventAction::Request(rq)
                && rq.sender_id == b.id && rq.opcode == 3 && rq.args@ == seq![
                WireArgument::UnInt(serial),
            ],
            _ => false,
        },
        None => false,
    }
}

/// What the sync completion's dispatch leaves: the callback marked done
/// with its datum, everything else untouched.
pub open spec fn spec_sync_done_state(
    v0: crate::ids::ImView,
    bytes: Seq<u8>,
    vnow: crate::ids::ImView,
) -> bool {
    let fs = spec_frames_of(bytes);
    let d = crate::wire::spec_parse_u32(fs[0].2, 0)->Ok_0;
    &&& spec_lookup(vnow, fs[0].0) == Some(
        WaylandObject::Callback(crate::callback::Callback { done: true, data: Some(d) }),
    )
    &&& (forall|id2: Id|
        id2 != fs[0].0 ==> #[trigger] spec_lookup(vnow, id2) == spec_lookup(v0, id2))
    &&& vnow.free == v0.free
    &&& vnow.top_id == v0.top_id
}

/// The stream is exactly one well-formed toplevel configure with nonzero
/// geometry whose whole resize chain is mapped: the toplevel, its
/// `xdg_surface`, the decorated surface, the attached buffer, and that
/// buffer's shared-memory pool, valid and with id headroom.
pub open spec fn spec_single_configure_resize(v: crate::ids::ImView, bytes: Seq<u8>) -> bool {
    match crate::wire::spec_frames(bytes) {
        Ok(fs) => fs.len() == 1 && fs[0].1 == 0 && match spec_lookup(v, fs[0].0) {
            Some(o) => match o {
                WaylandObject::XdgTopLevel(t) => match (
                    crate::wire::spec_parse_i32(fs[0].2, 0),
                    crate::wire::spec_parse_i32(fs[0].2, 4),
                    crate::wire::spec_parse_u32_array(fs[0].2, 8),
                ) {
                    (Ok(w), Ok(h), Ok(states)) => (forall|k: int|
                        0 <= k < states.len() ==> 1 <= (#[trigger] states[k]) <= 13) && 0 < w && 0
                        < h && (w as int) * (h as int) * 4 <= i32::MAX && match
                        crate::facade::spec_xdg_surface_of(v, t.parent) {
                        Some(x) => match crate::facade::spec_surface_of(v, x.wl_surface) {
                            Some(s) => match s.attached_buf {
                                Some(b) => match crate::facade::spec_buffer_of(v, b) {
                                    Some(bb) => match bb.backend {
                                        BufferBackend::SharedMemory(pid) => match
                                            crate::facade::spec_pool_of(v, pid) {
                                            Some(p) => p.wf() && v.top_id < u32::MAX,
                                            None => false,
                                        },
                                        BufferBackend::Dma(_) => false,
                                    },
                                    None => false,
                                },
                                None => false,
                            },
                            None => false,
                        },
                        None => false,
                    },
                    _ => false,
                },
                _ => false,
            },
            None => false,
        },
        Err(_) => false,
    }
}

/// What dispatching the configure leaves pending: the id-map unchanged (up
/// to lookup), and the log line and resize action collected in order.
pub open spec fn spec_resize_pending(
    v0: crate::ids::ImView,
    bytes: Seq<u8>,
    vnow: crate::ids::ImView,
    actions: Seq<(EventAction, WaylandObjectKind, Id)>,
) -> bool {
    let fs = spec_frames_of(bytes);
    let w = crate::wire::spec_parse_i32(fs[0].2, 0)->Ok_0;
    let h = crate::wire::spec_parse_i32(fs[0].2, 4)->Ok_0;
    &&& (forall|id2: Id| #[trigger] spec_lookup(vnow, id2) == spec_lookup(v0, id2))
    &&& vnow.free == v0.free
    &&& vnow.top_id == v0.top_id
    &&& vnow.sync == v0.sync
    &&& actions.len() == 2
    &&& (actions[0].0 matches EventAction::DebugMessage(_, _))
    &&& match spec_lookup(v0, fs[0].0) {
        Some(o) => match o {
            WaylandObject::XdgTopLevel(t) => actions[1].0 == EventAction::Resize(w, h, t.parent),
            _ => false,
        },
        None => false,
    }
}

/// What the configure's resize leaves behind: the surface's committed
/// dimensions updated, the replacement buffer registered under the next
/// free id, and the destroy / (grow) / create frames staged in that order,
/// ahead of everything staged later.
pub open spec fn spec_resize_result(
    v0: crate::ids::ImView,
    bytes: Seq<u8>,
    out0: Seq<OutboundFrame>,
    v1: crate::ids::ImView,
    out1: Seq<OutboundFrame>,
) -> bool {
    let fs = spec_frames_of(bytes);
    let w = crate::wire::spec_parse_i32(fs[0].2, 0)->Ok_0;
    let h = crate::wire::spec_parse_i32(fs[0].2, 4)->Ok_0;
    match spec_lookup(v0, fs[0].0) {
        Some(o) => match o {
            WaylandObject::XdgTopLevel(t) => match crate::facade::spec_xdg_surface_of(
                v0,
                t.parent,
            ) {
                Some(x) => match crate::facade::spec_surface_of(v0, x.wl_surface) {
                    Some(s) => match s.attached_buf {
                        Some(b) => match crate::facade::spec_buffer_of(v0, b) {
                            Some(bb) => match bb.backend {
                                BufferBackend::SharedMemory(pid) => match
                                    crate::facade::spec_pool_of(v0, pid) {
                                    Some(pool) => ({
                                        let need = (w as int) * (h as int) * 4;
                                        let grow = (pool.size as int) < need;
                                        let nid = crate::ids::spec_next_id(v0);
                                        &&& crate::facade::spec_surface_of(v1, x.wl_surface)
                                            == Some(crate::surface::Surface { w, h, ..s })
                                        &&& crate::facade::spec_buffer_of(v1, nid) == Some(
                                            crate::buffer::Buffer {
                                                id: nid,
                                                width: w,
                                                height: h,
                                                ..bb
                                            },
                                        )
                                        &&& out1.len() == out0.len() + (if grow {
                                            3int
                                        } else {
                                            2
                                        })
                                        &&& out1.subrange(0, out0.len() as int) == out0
                                        &&& spec_frame_is_request(
                                            out1[out0.len() as int],
                                            bb.id,
                                            0,
                                            Seq::<WireArgument>::empty(),
                                        )
                                        &&& (grow ==> spec_frame_is_request(
                                            out1[out0.len() as int + 1],
                                            pool.id,
                                            2,
                                            seq![WireArgument::Int((w * h * 4) as i32)],
                                        ))
                                        &&& spec_frame_is_request(
                                            out1.last(),
                                            pool.id,
                                            0,
                                            seq![
                                                WireArgument::NewId(nid),
                                                WireArgument::Int(bb.offset),
                                                WireArgument::Int(w),
                                                WireArgument::Int(h),
                                                WireArgument::Int((w * 4) as i32),
                                                WireArgument::UnInt(s.pf.spec_wire_code()),
                                            ],
                                        )
                                    }),
                                    None => false,
                                },
                                BufferBackend::Dma(_) => false,
                            },
                            None => false,
                        },
                        None => false,
                    },
                    None => false,
                },
                None => false,
            },
            _ => false,
        },
        None => false,
    }
}

/// Move each action of `acts`, in order, to the back of `actions`, tagged
/// with the interface and id it came from.
fn append_tagged(
    actions: &mut Vec<(EventAction, WaylandObjectKind, Id)>,
    acts: Vec<EventAction>,
    kind: WaylandObjectKind,
    id: Id,
)
    ensures
        final(actions)@ == old(actions)@ + acts@.map_values(
            |a: EventAction| (a, kind, id),
        ),
{
    let ghost acts0 = acts@;
    let mut acts = acts;
    while acts.len() > 0
        invariant
            acts@ == acts0.skip(acts0.len() - acts@.len()),
            acts@.len() <= acts0.len(),
            actions@.len() == old(actions)@.len() + acts0.len() - acts@.len(),
            actions@.subrange(0, old(actions)@.len() as int) == old(actions)@,
            forall|j: int|
                0 <= j < acts0.len() - acts@.len() ==> #[trigger] actions@[old(actions)@.len()
                    + j] == (acts0[j], kind, id),
        decreases acts@.len(),
    {
        let ghost k = acts0.len() - acts@.len();
        let a = acts.remove(0);
        proof {
            assert(a == acts0[k]);
            assert(acts@ =~= acts0.skip(k + 1));
        }
        actions.push((a, kind, id));
        proof {
            assert(actions@.subrange(0, old(actions)@.len() as int) =~= old(actions)@);
        }
    }
    proof {
        let m = acts0.map_values(|a: EventAction| (a, kind, id));
        assert(m.len() == acts0.len());
        assert forall|j: int| 0 <= j < actions@.len() implies actions@[j] == (old(actions)@
            + m)[j] by {
            if j >= old(actions)@.len() {
                assert(actions@[old(actions)@.len() + (j - old(actions)@.len())] == actions@[j]);
                assert(actions@[j] == (acts0[j - old(actions)@.len()], kind, id));
                assert(m[j - old(actions)@.len()] == (acts0[j - old(actions)@.len()], kind, id));
            } else {
                assert(actions@.subrange(0, old(actions)@.len() as int)[j] == actions@[j]);
            }
        }
        assert(actions@ =~= old(actions)@ + m);
    }
}

/// The single-threaded heart of the library: all protocol state, the
/// queues, and what the loop reported while running.
pub struct God {
    pub wlim: IdentManager,
    pub wlmm: MessageManager,
    pub log: Vec<(DebugLevel, &'static str)>,
    pub errors: Vec<RecvError>,
}

impl God {
    /// Compose a loop from existing parts.
    pub fn new(wlmm: MessageManager, wlim: IdentManager) -> (r: God)
        ensures
            r.wlim == wlim,
            r.wlmm == wlmm,
            r.log@.len() == 0,
            r.errors@.len() == 0,
    {
        God { wlim, wlmm, log: Vec::new(), errors: Vec::new() }
    }

    /// A fresh loop: no ids handed out, empty queues. The embedding
    /// application connects the socket and feeds bytes in.
    pub fn new_default() -> (r: God)
        ensures
            spec_wf(r.wlim@),
            r.wlim@.top_id == 0,
            r.wlim@.entries.len() == 0,
            r.wlim@.free.len() == 0,
            r.wlim@.sync is None,
            r.wlmm.q@.len() == 0,
            r.wlmm.outgoing@.len() == 0,
            r.log@.len() == 0,
            r.errors@.len() == 0,
    {
        God { wlim: IdentManager::new(), wlmm: MessageManager::new(), log: Vec::new(), errors: Vec::new() }
    }

    /// Encode and stage a request if it fits the wire format; a request too
    /// large for the 16-bit size field cannot be framed at all and is
    /// reported instead of being sent mangled.
    pub fn send_checked(&mut self, msg: &WireRequest)
        ensures
            final(self).wlim == old(self).wlim,
            final(self).wlmm.q@ == old(self).wlmm.q@,
            final(self).errors@ == old(self).errors@,
            final(self).wlmm.outgoing@.len() >= old(self).wlmm.outgoing@.len(),
            final(self).wlmm.outgoing@.subrange(0, old(self).wlmm.outgoing@.len() as int) == old(
                self,
            ).wlmm.outgoing@,
            crate::wire::spec_request_wf(*msg) ==> final(self).wlmm.outgoing@.len() == old(
                self,
            ).wlmm.outgoing@.len() + 1 && final(self).wlmm.outgoing@.last().bytes@
                == crate::wire::spec_encode_request(*msg),
            !crate::wire::spec_request_wf(*msg) ==> final(self).wlmm == old(self).wlmm,
    {
        if request_wf_check(msg) {
            self.wlmm.send_request(msg);
        } else {
            self.log.push((DebugLevel::Error, "request too large for a wire frame"));
        }
        assert(final(self).wlmm.outgoing@.subrange(0, old(self).wlmm.outgoing@.len() as int) =~= old(
            self,
        ).wlmm.outgoing@);
    }

    /// One pass of the loop over `len` freshly received bytes and the file
    /// descriptors that rode along with them: split into events, dispatch,
    /// apply the collected actions. On success the dispatch queue has been
    /// drained completely; a sync barrier that fires only cuts the apply
    /// phase short, dropping the actions that were still waiting.
    pub fn handle_events(&mut self, buf: &[u8], len: usize, fds: &[i32]) -> (r: Result<
        (),
        WaylandError,
    >)
        requires
            spec_wf(old(self).wlim@),
            len <= buf@.len(),
        ensures
            spec_wf(final(self).wlim@),
            final(self).wlmm.outgoing@.len() >= old(self).wlmm.outgoing@.len(),
            final(self).wlmm.outgoing@.subrange(0, old(self).wlmm.outgoing@.len() as int) == old(
                self,
            ).wlmm.outgoing@,
            r is Ok ==> final(self).wlmm.q@.len() == 0,
            crate::wire::spec_frames(buf@.take(len as int)) matches Err(e2) ==> (r matches Err(e)
                && e == e2),
            (old(self).wlmm.q@.len() == 0 && spec_all_receivers_unmapped(
                old(self).wlim@,
                buf@.take(len as int),
            )) ==> r is Ok,
            (old(self).wlmm.q@.len() == 0 && spec_single_ping(
                old(self).wlim@,
                buf@.take(len as int),
            )) ==> r is Ok && spec_pong_staged(
                old(self).wlim@,
                buf@.take(len as int),
                old(self).wlmm.outgoing@,
                final(self).wlmm.outgoing@,
            ) && final(self).wlim@.sync == old(self).wlim@.sync && (forall|id2: Id|
                #[trigger] spec_lookup(final(self).wlim@, id2) == spec_lookup(
                    old(self).wlim@,
                    id2,
                )),
            (old(self).wlmm.q@.len() == 0 && spec_sync_then_ping(
                old(self).wlim@,
                buf@.take(len as int),
            )) ==> r is Ok && final(self).wlmm.outgoing@ == old(self).wlmm.outgoing@
                && final(self).wlim@.sync is None && spec_sync_done_state(
                old(self).wlim@,
                buf@.take(len as int),
                final(self).wlim@,
            ),
            (old(self).wlmm.q@.len() == 0 && spec_single_configure_resize(
                old(self).wlim@,
                buf@.take(len as int),
            )) ==> r is Ok && final(self).wlim@.sync == old(self).wlim@.sync
                && spec_resize_result(
                old(self).wlim@,
                buf@.take(len as int),
                old(self).wlmm.outgoing@,
                final(self).wlim@,
                final(self).wlmm.outgoing@,
            ),
    {
        let ghost v0 = self.wlim@;
        let ghost out0 = self.wlmm.outgoing@;
        let ghost bytes = buf@.take(len as int);
        let ghost allskip = old(self).wlmm.q@.len() == 0 && spec_all_receivers_unmapped(
            old(self).wlim@,
            buf@.take(len as int),
        );
        let ghost sping = old(self).wlmm.q@.len() == 0 && spec_single_ping(
            old(self).wlim@,
            buf@.take(len as int),
        );
        let ghost ssync = old(self).wlmm.q@.len() == 0 && spec_sync_then_ping(
            old(self).wlim@,
            buf@.take(len as int),
        );
        let ghost sresize = old(self).wlmm.q@.len() == 0 && spec_single_configure_resize(
            old(self).wlim@,
            buf@.take(len as int),
        );
        match self.wlmm.get_events(buf, len) {
            Ok(_) => {},
            Err(e) => {
                return Err(e);
            },
        }
        proof {
            if allskip {
                assert forall|j: int| 0 <= j < self.wlmm.q@.len() implies ((
                #[trigger] self.wlmm.q@[j]) matches QueueEntry::EventResponse(f) && spec_lookup(
                    v0,
                    f.recv_id,
                ) is None) by {
                    let fs = crate::wire::spec_frames(buf@.take(len as int))->Ok_0;
                    assert(self.wlmm.q@[old(self).wlmm.q@.len() + j] == self.wlmm.q@[j]);
                    assert(self.wlmm.q@[j] matches QueueEntry::EventResponse(f2)
                        && crate::wire::frame_view(f2) == fs[j]);
                    assert(spec_lookup(v0, fs[j].0) is None);
                }
            }
            if sping || ssync || sresize {
                assert forall|j: int| 0 <= j < self.wlmm.q@.len() implies ((
                #[trigger] self.wlmm.q@[j]) matches QueueEntry::EventResponse(f)
                    && crate::wire::frame_view(f) == spec_frames_of(bytes)[j]) by {
                    assert(self.wlmm.q@[old(self).wlmm.q@.len() + j] == self.wlmm.q@[j]);
                }
            }
        }
        let mut actions: Vec<(EventAction, WaylandObjectKind, Id)> = Vec::new();
        while self.wlmm.q.len() > 0
            invariant
                spec_wf(self.wlim@),
                crate::wire::spec_frames(buf@.take(len as int)) is Ok,
                self.wlmm.outgoing@.len() >= old(self).wlmm.outgoing@.len(),
                self.wlmm.outgoing@.subrange(0, old(self).wlmm.outgoing@.len() as int) == old(
                    self,
                ).wlmm.outgoing@,
                allskip == (old(self).wlmm.q@.len() == 0 && spec_all_receivers_unmapped(
                    old(self).wlim@,
                    buf@.take(len as int),
                )),
                sping == (old(self).wlmm.q@.len() == 0 && spec_single_ping(
                    old(self).wlim@,
                    buf@.take(len as int),
                )),
                ssync == (old(self).wlmm.q@.len() == 0 && spec_sync_then_ping(
                    old(self).wlim@,
                    buf@.take(len as int),
                )),
                sresize == (old(self).wlmm.q@.len() == 0 && spec_single_configure_resize(
                    old(self).wlim@,
                    buf@.take(len as int),
                )),
                v0 == old(self).wlim@,
                out0 == old(self).wlmm.outgoing@,
                bytes == buf@.take(len as int),
                allskip ==> self.wlim@.entries == v0.entries,
                allskip ==> actions@.len() == 0,
                allskip ==> (forall|j: int|
                    0 <= j < self.wlmm.q@.len() ==> ((#[trigger] self.wlmm.q@[j])
                        matches QueueEntry::EventResponse(f) && spec_lookup(v0, f.recv_id)
                        is None)),
                sping ==> ((self.wlmm.q@.len() == 1 && self.wlim@ == v0 && actions@.len() == 0
                    && self.wlmm.outgoing@ == out0 && ((self.wlmm.q@[0])
                    matches QueueEntry::EventResponse(f) && crate::wire::frame_view(f)
                    == spec_frames_of(bytes)[0])) || (self.wlmm.q@.len() == 0
                    && self.wlmm.outgoing@ == out0 && spec_pong_pending(
                    v0,
                    bytes,
                    self.wlim@,
                    actions@,
                ))),
                sresize ==> ((self.wlmm.q@.len() == 1 && self.wlim@ == v0 && actions@.len() == 0
                    && self.wlmm.outgoing@ == out0 && ((self.wlmm.q@[0])
                    matches QueueEntry::EventResponse(f) && crate::wire::frame_view(f)
                    == spec_frames_of(bytes)[0])) || (self.wlmm.q@.len() == 0
                    && self.wlmm.outgoing@ == out0 && spec_resize_pending(
                    v0,
                    bytes,
                    self.wlim@,
                    actions@,
                ))),
                ssync ==> ((self.wlmm.q@.len() == 2 && self.wlim@ == v0 && actions@.len() == 0
                    && self.wlmm.outgoing@ == out0 && (forall|j: int|
                    0 <= j < 2 ==> ((#[trigger] self.wlmm.q@[j])
                        matches QueueEntry::EventResponse(f) && crate::wire::frame_view(f)
                        == spec_frames_of(bytes)[j]))) || (self.wlmm.q@.len() == 1
                    && spec_sync_done_state(v0, bytes, self.wlim@) && self.wlim@.sync == v0.sync
                    && self.wlmm.outgoing@ == out0 && actions@.len() == 1 && actions@[0].0
                    == EventAction::CallbackDone(
                    spec_frames_of(bytes)[0].0,
                    crate::wire::spec_parse_u32(spec_frames_of(bytes)[0].2, 0)->Ok_0,
                ) && ((self.wlmm.q@[0]) matches QueueEntry::EventResponse(f)
                    && crate::wire::frame_view(f) == spec_frames_of(bytes)[1])) || (
                self.wlmm.q@.len() == 0 && spec_sync_done_state(v0, bytes, self.wlim@)
                    && self.wlim@.sync == v0.sync && self.wlmm.outgoing@ == out0
                    && actions@.len() == 2 && actions@[0].0 == EventAction::CallbackDone(
                    spec_frames_of(bytes)[0].0,
                    crate::wire::spec_parse_u32(spec_frames_of(bytes)[0].2, 0)->Ok_0,
                ) && (match spec_lookup(v0, spec_frames_of(bytes)[1].0) {
                    Some(o) => match o {
                        WaylandObject::XdgWmBase(b) => actions@[1].0
                            matches EventAction::Request(rq) && rq.sender_id == b.id && rq.opcode
                            == 3 && rq.args@ == seq![
                            WireArgument::UnInt(
                                crate::wire::spec_parse_u32(spec_frames_of(bytes)[1].2, 0)->Ok_0,
                            ),
                        ],
                        _ => false,
                    },
                    None => false,
                }))),
            decreases self.wlmm.q@.len(),
        {
            let ghost q_pre = self.wlmm.q@;
            let ghost v_pre = self.wlim@;
            let entry = self.wlmm.q.remove(0);
            proof {
                if allskip {
                    assert forall|j: int| 0 <= j < self.wlmm.q@.len() implies ((
                    #[trigger] self.wlmm.q@[j]) matches QueueEntry::EventResponse(f)
                        && spec_lookup(v0, f.recv_id) is None) by {
                        assert(self.wlmm.q@[j] == q_pre[j + 1]);
                    }
                }
                if ssync && q_pre.len() == 2 {
                    assert(self.wlmm.q@[0] == q_pre[1]);
                }
            }
            match entry {
                QueueEntry::EventResponse(ev) => {
                    let ghost take_pre = self.wlim@;
                    match self.wlim.take_obj(ev.recv_id) {
                        Some(mut obj) => {
                            let ghost obj0 = obj;
                            let kind = obj.kind();
                            let res = obj.handle(ev.recv_id, ev.opcode, ev.payload.as_slice(), fds);
                            let ghost obj1 = obj;
                            self.wlim.register_at(ev.recv_id, obj);
                            proof {
                                if sping || ssync || sresize {
                                    assert forall|id2: Id| #[trigger] spec_lookup(
                                        self.wlim@,
                                        id2,
                                    ) == if id2 == ev.recv_id {
                                        Some(obj1)
                                    } else {
                                        spec_lookup(take_pre, id2)
                                    } by {
                                        if id2 != ev.recv_id {
                                            assert(spec_lookup(self.wlim@, id2) == spec_lookup(
                                                take_pre,
                                                id2,
                                            ));
                                        }
                                    }
                                }
                            }
                            let acts = match res {
                                Ok(a) => a,
                                Err(e) => {
                                    return Err(e);
                                },
                            };
                            append_tagged(&mut actions, acts, kind, ev.recv_id);
                        },
                        None => {
                            self.log.push(
                                (
                                    DebugLevel::Important,
                                    "event received for a nonexistent object",
                                ),
                            );
                        },
                    }
                },
                QueueEntry::Request(req, kind) => {
                    let id = req.sender_id;
                    actions.push((EventAction::Request(req), kind, id));
                },
                QueueEntry::Sync(id) => {
                    self.wlim.set_sync(Some(id));
                },
            }
        }
        while actions.len() > 0
            invariant_except_break
                sping ==> ((actions@.len() == 1 && self.wlmm.outgoing@ == out0
                    && spec_pong_pending(v0, bytes, self.wlim@, actions@)) || (actions@.len() == 0
                    && spec_pong_staged(v0, bytes, out0, self.wlmm.outgoing@)
                    && self.wlim@.sync == v0.sync && (forall|id2: Id|
                    #[trigger] spec_lookup(self.wlim@, id2) == spec_lookup(v0, id2)))),
                sresize ==> ((actions@.len() == 2 && self.wlmm.outgoing@ == out0
                    && spec_resize_pending(v0, bytes, self.wlim@, actions@)) || (actions@.len()
                    == 1 && self.wlmm.outgoing@ == out0 && (forall|id2: Id|
                    #[trigger] spec_lookup(self.wlim@, id2) == spec_lookup(v0, id2))
                    && self.wlim@.free == v0.free && self.wlim@.top_id == v0.top_id
                    && self.wlim@.sync == v0.sync && (match spec_lookup(
                    v0,
                    spec_frames_of(bytes)[0].0,
                ) {
                    Some(o) => match o {
                        WaylandObject::XdgTopLevel(t) => actions@[0].0 == EventAction::Resize(
                            crate::wire::spec_parse_i32(spec_frames_of(bytes)[0].2, 0)->Ok_0,
                            crate::wire::spec_parse_i32(spec_frames_of(bytes)[0].2, 4)->Ok_0,
                            t.parent,
                        ),
                        _ => false,
                    },
                    None => false,
                })) || (actions@.len() == 0 && self.wlim@.sync == v0.sync && spec_resize_result(
                    v0,
                    bytes,
                    out0,
                    self.wlim@,
                    self.wlmm.outgoing@,
                ))),
                ssync ==> (actions@.len() == 2 && self.wlmm.outgoing@ == out0
                    && spec_sync_done_state(v0, bytes, self.wlim@) && self.wlim@.sync == v0.sync
                    && actions@[0].0 == EventAction::CallbackDone(
                    spec_frames_of(bytes)[0].0,
                    crate::wire::spec_parse_u32(spec_frames_of(bytes)[0].2, 0)->Ok_0,
                ) && (actions@[1].0 matches EventAction::Request(_))),
            invariant
                spec_wf(self.wlim@),
                crate::wire::spec_frames(buf@.take(len as int)) is Ok,
                allskip == (old(self).wlmm.q@.len() == 0 && spec_all_receivers_unmapped(
                    old(self).wlim@,
                    buf@.take(len as int),
                )),
                sping == (old(self).wlmm.q@.len() == 0 && spec_single_ping(
                    old(self).wlim@,
                    buf@.take(len as int),
                )),
                ssync == (old(self).wlmm.q@.len() == 0 && spec_sync_then_ping(
                    old(self).wlim@,
                    buf@.take(len as int),
                )),
                sresize == (old(self).wlmm.q@.len() == 0 && spec_single_configure_resize(
                    old(self).wlim@,
                    buf@.take(len as int),
                )),
                v0 == old(self).wlim@,
                out0 == old(self).wlmm.outgoing@,
                bytes == buf@.take(len as int),
                self.wlmm.q@.len() == 0,
                self.wlmm.outgoing@.len() >= old(self).wlmm.outgoing@.len(),
                allskip ==> actions@.len() == 0,
                self.wlmm.outgoing@.subrange(0, old(self).wlmm.outgoing@.len() as int) == old(
                    self,
                ).wlmm.outgoing@,
            ensures
                sping ==> (spec_pong_staged(v0, bytes, out0, self.wlmm.outgoing@)
                    && self.wlim@.sync == v0.sync && (forall|id2: Id|
                    #[trigger] spec_lookup(self.wlim@, id2) == spec_lookup(v0, id2))),
                ssync ==> (self.wlmm.outgoing@ == out0 && self.wlim@.sync is None
                    && spec_sync_done_state(v0, bytes, self.wlim@)),
                sresize ==> (self.wlim@.sync == v0.sync && spec_resize_result(
                    v0,
                    bytes,
                    out0,
                    self.wlim@,
                    self.wlmm.outgoing@,
                )),
                self.wlmm.q@.len() == 0,
                spec_wf(self.wlim@),
                self.wlmm.outgoing@.len() >= old(self).wlmm.outgoing@.len(),
                self.wlmm.outgoing@.subrange(0, old(self).wlmm.outgoing@.len() as int) == old(
                    self,
                ).wlmm.outgoing@,
            decreases actions@.len(),
        {
            let ghost pre_out = self.wlmm.outgoing@;
            let ghost actions_pre = actions@;
            let (act, _kind, _id) = actions.remove(0);
            match act {
                EventAction::Request(msg) => {
                    proof {
                        if sping {
                            assert forall|i: int| 0 <= i < msg.args@.len() implies
                                crate::wire::arg_is_scalar(#[trigger] msg.args@[i]) by {
                                assert(msg.args@[i] == msg.args@[0]);
                            }
                            crate::wire::lemma_scalar_request_wf(msg);
                        }
                    }
                    self.send_checked(&msg);
                },
                EventAction::IdDeletion(did) => {
                    let _ = self.wlim.free_id(did);
                },
                EventAction::Error(re) => {
                    self.errors.push(re);
                },
                EventAction::DebugMessage(lvl, s) => {
                    self.log.push((lvl, s));
                },
                EventAction::Resize(w, h, xdgs_id) => {
                    let ghost v_call = self.wlim@;
                    proof {
                        if sresize {
                            let fs = spec_frames_of(bytes);
                            assert(act == actions_pre[0].0);
                            assert(spec_lookup(v_call, fs[0].0) == spec_lookup(v0, fs[0].0));
                            match spec_lookup(v0, fs[0].0) {
                                Some(o) => match o {
                                    WaylandObject::XdgTopLevel(t) => {
                                        assert(xdgs_id == t.parent);
                                        assert(spec_lookup(v_call, t.parent) == spec_lookup(
                                            v0,
                                            t.parent,
                                        ));
                                        match crate::facade::spec_xdg_surface_of(v0, t.parent) {
                                            Some(x) => {
                                                assert(spec_lookup(v_call, x.wl_surface)
                                                    == spec_lookup(v0, x.wl_surface));
                                                match crate::facade::spec_surface_of(
                                                    v0,
                                                    x.wl_surface,
                                                ) {
                                                    Some(sf) => {
                                                        match sf.attached_buf {
                                                            Some(b) => {
                                                                assert(spec_lookup(v_call, b)
                                                                    == spec_lookup(v0, b));
                                                                match crate::facade::spec_buffer_of(
                                                                    v0,
                                                                    b,
                                                                ) {
                                                                    Some(bb) => match bb.backend {
                                                                        BufferBackend::SharedMemory(
                                                                            pid,
                                                                        ) => {
                                                                            assert(spec_lookup(
                                                                                v_call,
                                                                                pid,
                                                                            ) == spec_lookup(
                                                                                v0,
                                                                                pid,
                                                                            ));
                                                                        },
                                                                        _ => {},
                                                                    },
                                                                    None => {},
                                                                }
                                                            },
                                                            None => {},
                                                        }
                                                    },
                                                    None => {},
                                                }
                                            },
                                            None => {},
                                        }
                                    },
                                    _ => {},
                                },
                                None => {},
                            }
                        }
                    }
                    match self.apply_resize(w, h, xdgs_id) {
                        Ok(_) => {},
                        Err(e) => {
                            return Err(e);
                        },
                    }
                    proof {
                        if sresize {
                            assert(spec_resize_result(
                                v0,
                                bytes,
                                out0,
                                self.wlim@,
                                self.wlmm.outgoing@,
                            ));
                        }
                    }
                },
                EventAction::CallbackDone(cid, _data) => {
                    let fired = match self.wlim.current_sync_id {
                        Some(sid) => sid == cid,
                        None => false,
                    };
                    if fired {
                        let ghost v_before = self.wlim@;
                        self.wlim.set_sync(None);
                        proof {
                            if ssync {
                                assert(self.wlim@.entries == v_before.entries);
                                assert forall|id2: Id| #[trigger] spec_lookup(self.wlim@, id2)
                                    == spec_lookup(v_before, id2) by {}
                                assert(spec_sync_done_state(v0, bytes, self.wlim@));
                            }
                        }
                        break ;
                    }
                },
                EventAction::DropObject(did) => {
                    let _ = self.wlim.take_obj(did);
                },
            }
            proof {
                if sresize && actions_pre.len() == 2 {
                    assert(actions@[0] == actions_pre[1]);
                }
                let oldn = old(self).wlmm.outgoing@.len() as int;
                assert(self.wlmm.outgoing@.subrange(0, pre_out.len() as int) =~= pre_out);
                assert forall|i: int| 0 <= i < oldn implies self.wlmm.outgoing@[i] == pre_out[i] by {
                    assert(self.wlmm.outgoing@.subrange(0, pre_out.len() as int)[i]
                        == self.wlmm.outgoing@[i]);
                }
                assert(self.wlmm.outgoing@.subrange(0, oldn) =~= pre_out.subrange(0, oldn));
            }
        }
        Ok(())
    }

    /// The resize sub-protocol, triggered by a toplevel configure with
    /// nonzero geometry aimed at the given `xdg_surface`: commit the new
    /// dimensions to the decorated surface, and when a shared-memory buffer
    /// is attached, replace it — its destroy request, the pool's resize when
    /// the new frame needs more bytes, and the `create_buffer` for the
    /// replacement under the next free id go straight onto the wire, ahead
    /// of every action still waiting in the caller's queue. Degenerate or
    /// overflowing geometry is reported and skipped; a dangling reference is
    /// an error, as is a DMA-BUF backend, whose reallocation this revision
    /// does not carry.
    #[verifier::rlimit(100)]
    pub fn apply_resize(&mut self, w: i32, h: i32, xdgs_id: Id) -> (r: Result<(), WaylandError>)
        requires
            spec_wf(old(self).wlim@),
        ensures
            spec_wf(final(self).wlim@),
            final(self).wlim@.sync == old(self).wlim@.sync,
            final(self).wlmm.q@ == old(self).wlmm.q@,
            final(self).wlmm.outgoing@.len() >= old(self).wlmm.outgoing@.len(),
            final(self).wlmm.outgoing@.subrange(0, old(self).wlmm.outgoing@.len() as int) == old(
                self,
            ).wlmm.outgoing@,
            ({
                let v0 = old(self).wlim@;
                let out0 = old(self).wlmm.outgoing@;
                let dims_ok = 0 < w && 0 < h && (w as int) * (h as int) * 4 <= i32::MAX;
                match crate::facade::spec_xdg_surface_of(v0, xdgs_id) {
                    Some(x) => match crate::facade::spec_surface_of(v0, x.wl_surface) {
                        Some(s) => dims_ok ==> {
                            &&& (r is Ok ==> crate::facade::spec_surface_of(
                                final(self).wlim@,
                                x.wl_surface,
                            ) == Some(crate::surface::Surface { w, h, ..s }))
                            &&& (s.attached_buf is None ==> r is Ok && final(self).wlmm.outgoing@
                                == out0)
                            &&& match s.attached_buf {
                                Some(b) => match crate::facade::spec_buffer_of(v0, b) {
                                    Some(bb) => match bb.backend {
                                        BufferBackend::SharedMemory(pid) => match
                                            crate::facade::spec_pool_of(v0, pid) {
                                            Some(pool) => (pool.wf() && v0.top_id < u32::MAX)
                                                ==> ({
                                                let need = (w as int) * (h as int) * 4;
                                                let grow = (pool.size as int) < need;
                                                let nid = crate::ids::spec_next_id(v0);
                                                &&& r is Ok
                                                &&& final(self).wlmm.outgoing@.len() == out0.len()
                                                    + (if grow {
                                                    3int
                                                } else {
                                                    2
                                                })
                                                &&& spec_frame_is_request(
                                                    final(self).wlmm.outgoing@[out0.len() as int],
                                                    bb.id,
                                                    0,
                                                    Seq::<WireArgument>::empty(),
                                                )
                                                &&& (grow ==> spec_frame_is_request(
                                                    final(self).wlmm.outgoing@[out0.len() as int
                                                        + 1],
                                                    pool.id,
                                                    2,
                                                    seq![WireArgument::Int((w * h * 4) as i32)],
                                                ))
                                                &&& spec_frame_is_request(
                                                    final(self).wlmm.outgoing@.last(),
                                                    pool.id,
                                                    0,
                                                    seq![
                                                        WireArgument::NewId(nid),
                                                        WireArgument::Int(bb.offset),
                                                        WireArgument::Int(w),
                                                        WireArgument::Int(h),
                                                        WireArgument::Int((w * 4) as i32),
                                                        WireArgument::UnInt(
                                                            s.pf.spec_wire_code(),
                                                        ),
                                                    ],
                                                )
                                                &&& crate::facade::spec_buffer_of(
                                                    final(self).wlim@,
                                                    nid,
                                                ) == Some(
                                                    crate::buffer::Buffer {
                                                        id: nid,
                                                        width: w,
                                                        height: h,
                                                        ..bb
                                                    },
                                                )
                                            }),
                                            None => true,
                                        },
                                        BufferBackend::Dma(_) => true,
                                    },
                                    None => true,
                                },
                                None => true,
                            }
                        },
                        None => true,
                    },
                    None => true,
                }
            }),
    {
        let ghost v0 = self.wlim@;
        let ghost out0 = self.wlmm.outgoing@;
        if w <= 0 || h <= 0 {
            self.log.push((DebugLevel::Error, "resize with degenerate dimensions skipped"));
            return Ok(());
        }
        assert((w as int) * (h as int) <= 0x7fffffff * 0x7fffffff && ((w as int) * (h as int)
            <= 0x1fffffff <==> (w as int) * (h as int) * 4 <= i32::MAX)) by (nonlinear_arith)
            requires
                0 < w <= 0x7fffffff && 0 < h <= 0x7fffffff,
        ;
        let wh = (w as i64) * (h as i64);
        if wh > 0x1fffffff {
            self.log.push((DebugLevel::Error, "resize larger than a pool can hold skipped"));
            return Ok(());
        }
        let surf_id = match self.wlim.find_obj_by_id(xdgs_id) {
            Ok(o) => match o {
                WaylandObject::XdgSurface(x) => x.wl_surface,
                _ => {
                    return Err(WaylandError::ObjectNonExistentInWeak);
                },
            },
            Err(_) => {
                return Err(WaylandError::ObjectNonExistentInWeak);
            },
        };
        let ghost s0 = crate::facade::spec_surface_of(v0, surf_id);
        let (attached, pf) = match self.wlim.take_obj(surf_id) {
            Some(o) => match o {
                WaylandObject::Surface(mut s) => {
                    let att = s.attached_buf;
                    let pfv = s.pf;
                    s.w = w;
                    s.h = h;
                    self.wlim.register_at(surf_id, WaylandObject::Surface(s));
                    (att, pfv)
                },
                other => {
                    self.wlim.register_at(surf_id, other);
                    return Err(WaylandError::ObjectNonExistentInWeak);
                },
            },
            None => {
                return Err(WaylandError::ObjectNonExistentInWeak);
            },
        };
        let ghost vs = self.wlim@;
        self.log.push((DebugLevel::Important, "applying resize"));
        let buf_id = match attached {
            Some(b) => b,
            None => {
                self.log.push((DebugLevel::Important, "buffer not present at resize"));
                return Ok(());
            },
        };
        proof {
            if buf_id != surf_id {
                assert(spec_lookup(vs, buf_id) == spec_lookup(v0, buf_id));
            }
        }
        let mut buf = match self.wlim.take_obj(buf_id) {
            Some(o) => match o {
                WaylandObject::Buffer(b) => b,
                other => {
                    self.wlim.register_at(buf_id, other);
                    return Err(WaylandError::ObjectNonExistentInWeak);
                },
            },
            None => {
                return Err(WaylandError::ObjectNonExistentInWeak);
            },
        };
        let ghost bb0 = buf;
        let ghost vbt = self.wlim@;
        let pool_id = match buf.backend {
            BufferBackend::SharedMemory(p) => p,
            BufferBackend::Dma(_) => {
                self.wlim.register_at(buf_id, WaylandObject::Buffer(buf));
                return Err(WaylandError::RequiredValueNone);
            },
        };
        let ghost entries_nobuf = self.wlim@.entries;
        proof {
            if pool_id != buf_id && pool_id != surf_id {
                assert(spec_lookup(vbt, pool_id) == spec_lookup(vs, pool_id));
                assert(spec_lookup(vs, pool_id) == spec_lookup(v0, pool_id));
            }
        }
        let pool_taken = self.wlim.take_obj(pool_id);
        let ghost vpt = self.wlim@;
        proof {
            if pool_taken is Some {
                crate::ids::lemma_index_of(entries_nobuf, pool_id);
                crate::ids::lemma_absent_after_remove(
                    entries_nobuf,
                    crate::ids::spec_index_of(entries_nobuf, pool_id),
                    buf_id,
                );
            }
        }
        let mut pool = match pool_taken {
            Some(o) => match o {
                WaylandObject::SharedMemoryPool(p) => p,
                other => {
                    self.wlim.register_two(pool_id, other, buf_id, WaylandObject::Buffer(buf));
                    return Err(WaylandError::ObjectNonExistentInWeak);
                },
            },
            None => {
                self.wlim.register_at(buf_id, WaylandObject::Buffer(buf));
                return Err(WaylandError::ObjectNonExistentInWeak);
            },
        };
        let ghost pool0 = pool;
        if pool.size < 0 || pool.data.len() != pool.size as usize {
            self.wlim.register_two(
                pool_id,
                WaylandObject::SharedMemoryPool(pool),
                buf_id,
                WaylandObject::Buffer(buf),
            );
            return Err(WaylandError::RequiredValueNone);
        }
        if self.wlim.top_id == u32::MAX {
            self.wlim.register_two(
                pool_id,
                WaylandObject::SharedMemoryPool(pool),
                buf_id,
                WaylandObject::Buffer(buf),
            );
            return Err(WaylandError::RequiredValueNone);
        }
        let ghost free_before_pick = self.wlim@.free;
        let new_id = self.wlim.pick_id();
        proof {
            if free_before_pick.len() > 0 {
                assert forall|i: int| 0 <= i < self.wlim@.free.len() implies (
                #[trigger] self.wlim@.free[i]) != buf_id by {
                    assert(self.wlim@.free[i] == free_before_pick[i + 1]);
                }
                assert forall|i: int| 0 <= i < self.wlim@.free.len() implies (
                #[trigger] self.wlim@.free[i]) != pool_id by {
                    assert(self.wlim@.free[i] == free_before_pick[i + 1]);
                }
            }
        }
        let acts = match buf.get_resize_actions(new_id, w, h, &mut pool, pf) {
            Ok(a) => a,
            Err(e) => {
                self.wlim.register_two(
                    pool_id,
                    WaylandObject::SharedMemoryPool(pool),
                    buf_id,
                    WaylandObject::Buffer(buf),
                );
                return Err(e);
            },
        };
        let ghost vpre2 = self.wlim@;
        self.wlim.register_two(
            pool_id,
            WaylandObject::SharedMemoryPool(pool),
            new_id,
            WaylandObject::Buffer(buf),
        );
        let ghost vfin = self.wlim@;
        proof {
            assert(spec_lookup(vs, surf_id) matches Some(so) && so is Surface);
            assert(spec_lookup(vbt, surf_id) == spec_lookup(vs, surf_id));
            assert(spec_lookup(vpt, surf_id) == spec_lookup(vbt, surf_id));
            assert(spec_lookup(vpre2, surf_id) == spec_lookup(vpt, surf_id));
            assert(spec_lookup(vpre2, new_id) is None);
            assert(spec_lookup(vfin, surf_id) == spec_lookup(vpre2, surf_id));
            assert(free_before_pick == v0.free);
            assert(vpt.top_id == v0.top_id);
            assert(new_id == crate::ids::spec_next_id(v0));
        }
        let mut acts = acts;
        let grew = acts.len() == 4;
        let a0 = acts.remove(0);
        let rq0 = match a0.0 {
            EventAction::Request(rq) => rq,
            _ => {
                proof {
                    assert(false);
                }
                return Err(WaylandError::RequiredValueNone);
            },
        };
        proof {
            assert(rq0.args@.len() == 0);
            assert forall|i: int| 0 <= i < rq0.args@.len() implies crate::wire::arg_is_scalar(
                #[trigger] rq0.args@[i],
            ) by {}
            crate::wire::lemma_scalar_request_wf(rq0);
        }
        let ghost rq0g = rq0;
        self.send_checked(&rq0);
        let ghost o1 = self.wlmm.outgoing@;
        let mut rq_resize_opt: Option<WireRequest> = None;
        if grew {
            let a1 = acts.remove(0);
            match a1.0 {
                EventAction::DebugMessage(lvl, s2) => {
                    self.log.push((lvl, s2));
                },
                _ => {
                    proof {
                        assert(false);
                    }
                },
            }
            let a2 = acts.remove(0);
            let rq2 = match a2.0 {
                EventAction::Request(rq) => rq,
                _ => {
                    proof {
                        assert(false);
                    }
                    return Err(WaylandError::RequiredValueNone);
                },
            };
            proof {
                assert forall|i: int| 0 <= i < rq2.args@.len() implies crate::wire::arg_is_scalar(
                    #[trigger] rq2.args@[i],
                ) by {
                    assert(rq2.args@[i] == rq2.args@[0]);
                }
                crate::wire::lemma_scalar_request_wf(rq2);
            }
            rq_resize_opt = Some(rq2);
        }
        let ghost rq2g = rq_resize_opt;
        match &rq_resize_opt {
            Some(rq2) => {
                self.send_checked(rq2);
            },
            None => {},
        }
        let ghost o2 = self.wlmm.outgoing@;
        let a_last = acts.remove(0);
        let rql = match a_last.0 {
            EventAction::Request(rq) => rq,
            _ => {
                proof {
                    assert(false);
                }
                return Err(WaylandError::RequiredValueNone);
            },
        };
        proof {
            assert forall|i: int| 0 <= i < rql.args@.len() implies crate::wire::arg_is_scalar(
                #[trigger] rql.args@[i],
            ) by {
                let a = rql.args@;
                assert(a == seq![
                    WireArgument::NewId(new_id),
                    WireArgument::Int(bb0.offset),
                    WireArgument::Int(w),
                    WireArgument::Int(h),
                    WireArgument::Int((w * 4) as i32),
                    WireArgument::UnInt(pf.spec_wire_code()),
                ]);
            }
            crate::wire::lemma_scalar_request_wf(rql);
        }
        let ghost rqlg = rql;
        self.send_checked(&rql);
        proof {
            let out_fin = self.wlmm.outgoing@;
            assert(o1[out0.len() as int].bytes@ == crate::wire::spec_encode_request(rq0g));
            assert(o2.subrange(0, o1.len() as int)[out0.len() as int] == o2[out0.len() as int]);
            assert(out_fin.subrange(0, o2.len() as int)[out0.len() as int] == out_fin[out0.len()
                as int]);
            if grew {
                assert(out_fin.subrange(0, o2.len() as int)[out0.len() as int + 1]
                    == out_fin[out0.len() as int + 1]);
            }
            assert(rq0g.sender_id == bb0.id && rq0g.opcode == 0);
            assert(rq0g.args@ =~= Seq::<WireArgument>::empty());
            assert(spec_frame_is_request(
                out_fin[out0.len() as int],
                bb0.id,
                0,
                Seq::<WireArgument>::empty(),
            ));
            match rq2g {
                Some(rq2v) => {
                    assert(rq2v.sender_id == pool0.id && rq2v.opcode == 2);
                    assert(rq2v.args@ =~= seq![WireArgument::Int((w * h * 4) as i32)]);
                    assert(spec_frame_is_request(
                        out_fin[out0.len() as int + 1],
                        pool0.id,
                        2,
                        seq![WireArgument::Int((w * h * 4) as i32)],
                    ));
                },
                None => {},
            }
            assert(rqlg.sender_id == pool0.id && rqlg.opcode == 0);
            assert(rqlg.args@ =~= seq![
                WireArgument::NewId(new_id),
                WireArgument::Int(bb0.offset),
                WireArgument::Int(w),
                WireArgument::Int(h),
                WireArgument::Int((w * 4) as i32),
                WireArgument::UnInt(pf.spec_wire_code()),
            ]);
            assert(spec_frame_is_request(
                out_fin.last(),
                pool0.id,
                0,
                seq![
                    WireArgument::NewId(new_id),
                    WireArgument::Int(bb0.offset),
                    WireArgument::Int(w),
                    WireArgument::Int(h),
                    WireArgument::Int((w * 4) as i32),
                    WireArgument::UnInt(pf.spec_wire_code()),
                ],
            ));
        }
        Ok(())
    }
}

} // verus!
