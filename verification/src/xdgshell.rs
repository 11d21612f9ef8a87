//! The XDG shell trio: `xdg_wm_base` (the shell global, which answers pings),
//! `xdg_surface` (which acknowledges every configure before the next commit),
//! and `xdg_toplevel` (the window role, whose configure drives resizes and
//! whose close event latches the close flag).

use vstd::prelude::*;
use crate::ids::spec_next_id;
use crate::wire::spec_string_bytes;
use vstd::utf8::encode_utf8;
use crate::registry::spec_find_interface;

use crate::errors::WaylandError;
use crate::god::God;
use crate::ids::{spec_lookup, spec_wf};
use crate::kind::WaylandObjectKind;
use crate::objects::{EventAction, WaylandObject};
use crate::wire::{
    parse_i32, parse_u32, parse_u32_array, spec_parse_i32, spec_parse_u32, spec_parse_u32_array,
    Id, MessageManager, QueueEntry, WireArgument, WireRequest,
};
use crate::DebugLevel;

verus! {

/// The `xdg_wm_base` global's state: its id.
#[derive(Debug)]
pub struct XdgWmBase {
    pub id: Id,
}

impl XdgWmBase {
    /// Create and register the shell proxy and queue the `bind` that brings
    /// it to life at version 1; refused when the registry never advertised
    /// `xdg_wm_base`, or when the given id does not hold the registry.
    pub fn new_bound(god: &mut God, registry_id: Id) -> (r: Result<Id, WaylandError>)
        requires
            spec_wf(old(god).wlim@),
            old(god).wlim.top_id < u32::MAX,
        ensures
            spec_wf(final(god).wlim@),
            final(god).wlim.top_id <= old(god).wlim.top_id + 1,
            r is Ok <==> match spec_lookup(old(god).wlim@, registry_id) {
                Some(o) => match o {
                    WaylandObject::Registry(reg) => ({
                        let i = spec_find_interface(
                            reg.inner@,
                            encode_utf8(WaylandObjectKind::XdgWmBase.spec_name()),
                        );
                        i >= 0 && 1 <= reg.inner@[i].1.version
                    }),
                    _ => false,
                },
                None => false,
            },
            match r {
                Ok(id) => id == spec_next_id(old(god).wlim@) && spec_lookup(old(god).wlim@, id)
                    is None && (spec_lookup(final(god).wlim@, id)
                    == Some(WaylandObject::XdgWmBase(XdgWmBase { id }))) && (forall|id2: Id|
                    id2 != id ==> #[trigger] spec_lookup(final(god).wlim@, id2) == spec_lookup(
                        old(god).wlim@,
                        id2,
                    )) && final(god).wlmm.outgoing@ == old(god).wlmm.outgoing@ && final(god).wlmm.q@.len() == old(god).wlmm.q@.len() + 1 && final(god).wlmm.q@.subrange(
                    0,
                    old(god).wlmm.q@.len() as int,
                ) == old(god).wlmm.q@ && match spec_lookup(old(god).wlim@, registry_id) {
                    Some(o) => match o {
                        WaylandObject::Registry(reg) => ({
                            let i = spec_find_interface(
                                reg.inner@,
                                encode_utf8(WaylandObjectKind::XdgWmBase.spec_name()),
                            );
                            final(god).wlmm.q@.last() matches QueueEntry::Request(req, _)
                                && req.sender_id == reg.id && req.opcode == 0 && req.args@.len()
                                == 2 && req.args@[0] == WireArgument::UnInt(reg.inner@[i].0) && (
                            req.args@[1] matches WireArgument::NewIdSpecific(n, v, nid)
                                && spec_string_bytes(n) == encode_utf8(
                                WaylandObjectKind::XdgWmBase.spec_name(),
                            ) && v == 1 && nid == id)
                        }),
                        _ => false,
                    },
                    None => false,
                },
                Err(e) => (e matches WaylandError::NotInRegistry
                    || e matches WaylandError::ObjectNonExistent),
            },
    {
        let ghost v0 = god.wlim@;
        let new_id = god.wlim.pick_id();
        proof {
            assert(spec_lookup(v0, new_id) is None);
        }
        god.wlim.register_at(new_id, WaylandObject::XdgWmBase(XdgWmBase { id: new_id }));
        let ghost v1 = god.wlim@;
        match god.wlim.take_obj(registry_id) {
            Some(o) => match o {
                WaylandObject::Registry(mut reg) => {
                    let ghost v2 = god.wlim@;
                    let res = reg.bind(&mut god.wlmm, new_id, WaylandObjectKind::XdgWmBase, 1);
                    let ghost regg = reg;
                    god.wlim.register_at(registry_id, WaylandObject::Registry(reg));
                    proof {
                        assert(spec_lookup(v1, registry_id) == spec_lookup(v0, registry_id));
                        assert forall|id2: Id| id2 != new_id implies #[trigger] spec_lookup(
                            god.wlim@,
                            id2,
                        ) == spec_lookup(v0, id2) by {
                            if id2 == registry_id {
                                assert(spec_lookup(god.wlim@, id2) == Some(
                                    WaylandObject::Registry(regg),
                                ));
                            } else {
                                assert(spec_lookup(v1, id2) == spec_lookup(v0, id2));
                                assert(spec_lookup(v2, id2) == spec_lookup(v1, id2));
                                assert(spec_lookup(god.wlim@, id2) == spec_lookup(v2, id2));
                            }
                        }
                        assert(spec_lookup(v2, new_id) == spec_lookup(v1, new_id));
                        assert(spec_lookup(god.wlim@, new_id) == spec_lookup(v2, new_id));
                    }
                    match res {
                        Ok(_) => Ok(new_id),
                        Err(e) => Err(e),
                    }
                },
                other => {
                    let ghost og = other;
                    god.wlim.register_at(registry_id, other);
                    proof {
                        if registry_id != new_id {
                            assert(spec_lookup(v1, registry_id) == spec_lookup(v0, registry_id));
                            assert(spec_lookup(v1, registry_id) == Some(og));
                        } else {
                            assert(spec_lookup(v0, registry_id) is None);
                        }
                    }
                    Err(WaylandError::ObjectNonExistent)
                },
            },
            None => {
                proof {
                    if registry_id != new_id {
                        assert(spec_lookup(v1, registry_id) == spec_lookup(v0, registry_id));
                    }
                }
                Err(WaylandError::ObjectNonExistent)
            },
        }
    }

    /// Create and register the `xdg_surface` decorating the given
    /// `wl_surface`, and queue the request that announces it. The new
    /// decoration starts unconfigured.
    pub fn make_xdg_surface(god: &mut God, base_id: Id, wl_surface_id: Id) -> (r: Id)
        requires
            spec_wf(old(god).wlim@),
            old(god).wlim.top_id < u32::MAX,
        ensures
            spec_wf(final(god).wlim@),
            final(god).wlim.top_id <= old(god).wlim.top_id + 1,
            r == spec_next_id(old(god).wlim@),
            spec_lookup(old(god).wlim@, r) is None,
            forall|id2: Id|
                id2 != r ==> #[trigger] spec_lookup(final(god).wlim@, id2) == spec_lookup(
                    old(god).wlim@,
                    id2,
                ),
            spec_lookup(final(god).wlim@, r) == Some(
                WaylandObject::XdgSurface(
                    XdgSurface { id: r, is_configured: false, wl_surface: wl_surface_id },
                ),
            ),
            final(god).wlmm.outgoing@ == old(god).wlmm.outgoing@,
            final(god).wlmm.q@.len() == old(god).wlmm.q@.len() + 1,
            final(god).wlmm.q@.subrange(0, old(god).wlmm.q@.len() as int) == old(god).wlmm.q@,
            final(god).wlmm.q@.last() matches QueueEntry::Request(req, _) && req.sender_id
                == base_id && req.opcode == 2 && req.args@ == seq![
                WireArgument::NewId(r),
                WireArgument::Obj(wl_surface_id),
            ],
    {
        let id = god.wlim.pick_id();
        god.wlim.register_at(id, WaylandObject::XdgSurface(XdgSurface::new(id, wl_surface_id)));
        let base = XdgWmBase { id: base_id };
        let req = base.wl_get_xdg_surface(wl_surface_id, id);
        god.wlmm.queue_request(req, WaylandObjectKind::XdgSurface);
        assert(final(god).wlmm.q@.subrange(0, old(god).wlmm.q@.len() as int) =~= old(god).wlmm.q@);
        id
    }

    /// The shell's destroy request.
    pub fn wl_destroy(&self) -> (r: WireRequest)
        ensures
            r.sender_id == self.id && r.opcode == 0 && r.args@ == Seq::<WireArgument>::empty(),
    {
        let args: Vec<WireArgument> = Vec::new();
        assert(args@ =~= Seq::<WireArgument>::empty());
        WireRequest { sender_id: self.id, opcode: 0, args }
    }

    /// The pong request answering a ping with the same serial.
    pub fn wl_pong(&self, serial: u32) -> (r: WireRequest)
        ensures
            r.sender_id == self.id && r.opcode == 3 && r.args@ == seq![WireArgument::UnInt(serial)],
    {
        let mut args: Vec<WireArgument> = Vec::new();
        args.push(WireArgument::UnInt(serial));
        assert(args@ =~= seq![WireArgument::UnInt(serial)]);
        WireRequest { sender_id: self.id, opcode: 3, args }
    }

    /// The request that decorates a `wl_surface` with a new `xdg_surface`.
    pub fn wl_get_xdg_surface(&self, wl_surface_id: Id, xdg_surface_id: Id) -> (r: WireRequest)
        ensures
            r.sender_id == self.id && r.opcode == 2 && r.args@ == seq![
                WireArgument::NewId(xdg_surface_id),
                WireArgument::Obj(wl_surface_id),
            ],
    {
        let mut args: Vec<WireArgument> = Vec::new();
        args.push(WireArgument::NewId(xdg_surface_id));
        args.push(WireArgument::Obj(wl_surface_id));
        assert(args@ =~= seq![
            WireArgument::NewId(xdg_surface_id),
            WireArgument::Obj(wl_surface_id),
        ]);
        WireRequest { sender_id: self.id, opcode: 2, args }
    }

    /// Queue the shell's destroy request.
    pub fn destroy(&self, wlmm: &mut MessageManager)
        ensures
            final(wlmm).outgoing@ == old(wlmm).outgoing@,
            final(wlmm).q@.len() == old(wlmm).q@.len() + 1,
            final(wlmm).q@.subrange(0, old(wlmm).q@.len() as int) == old(wlmm).q@,
            final(wlmm).q@.last() matches QueueEntry::Request(req, k)
                && k == WaylandObjectKind::XdgWmBase && req.sender_id == self.id && req.opcode == 0,
    {
        let req = self.wl_destroy();
        wlmm.queue_request(req, WaylandObjectKind::XdgWmBase);
        assert(final(wlmm).q@.subrange(0, old(wlmm).q@.len() as int) =~= old(wlmm).q@);
    }

    /// Queue a pong for the given serial.
    pub fn pong(&self, wlmm: &mut MessageManager, serial: u32)
        ensures
            final(wlmm).outgoing@ == old(wlmm).outgoing@,
            final(wlmm).q@.len() == old(wlmm).q@.len() + 1,
            final(wlmm).q@.subrange(0, old(wlmm).q@.len() as int) == old(wlmm).q@,
            final(wlmm).q@.last() matches QueueEntry::Request(req, k)
                && k == WaylandObjectKind::XdgWmBase && req.sender_id == self.id && req.opcode == 3
                && req.args@ == seq![WireArgument::UnInt(serial)],
    {
        let req = self.wl_pong(serial);
        wlmm.queue_request(req, WaylandObjectKind::XdgWmBase);
        assert(final(wlmm).q@.subrange(0, old(wlmm).q@.len() as int) =~= old(wlmm).q@);
    }

    /// Everything `handle` promises, as a relation: a ping with some serial
    /// is answered by exactly one pong carrying the very same serial, from
    /// this shell's own id; any other opcode is unknown on this interface.
    pub open spec fn spec_handle(
        pre: XdgWmBase,
        opcode: int,
        payload: Seq<u8>,
        r: Result<Vec<EventAction>, WaylandError>,
    ) -> bool {
        &&& opcode == 0 ==> match spec_parse_u32(payload, 0) {
            Ok(serial) => r matches Ok(acts) && acts@.len() == 1 && (acts@[0]
                matches EventAction::Request(req) && req.sender_id == pre.id && req.opcode == 3
                && req.args@ == seq![WireArgument::UnInt(serial)]),
            Err(e) => r matches Err(e2) && e2 == e,
        }
        &&& opcode != 0 ==> (r matches Err(e) && e matches WaylandError::InvalidOpCode(op, _)
            && op == opcode)
    }

    /// Handle one event for the shell.
    pub fn handle(&self, opcode: usize, payload: &[u8]) -> (r: Result<
        Vec<EventAction>,
        WaylandError,
    >)
        ensures
            XdgWmBase::spec_handle(*self, opcode as int, payload@, r),
    {
        match opcode {
            0 => {
                let serial = match parse_u32(payload, 0) {
                    Ok(v) => v,
                    Err(e) => {
                        return Err(e);
                    },
                };
                let mut acts: Vec<EventAction> = Vec::new();
                acts.push(EventAction::Request(self.wl_pong(serial)));
                Ok(acts)
            },
            inv => Err(WaylandError::InvalidOpCode(inv, "xdg_wm_base")),
        }
    }
}

/// The state of one `xdg_surface`: configured once a configure event has
/// been received and acknowledged, and a reference to the `wl_surface` it
/// decorates.
#[derive(Debug)]
pub struct XdgSurface {
    pub id: Id,
    pub is_configured: bool,
    pub wl_surface: Id,
}

impl XdgSurface {
    /// An unconfigured decoration of the given surface.
    pub fn new(id: Id, wl_surface: Id) -> (r: XdgSurface)
        ensures
            r.id == id,
            r.wl_surface == wl_surface,
            !r.is_configured,
    {
        XdgSurface { id, is_configured: false, wl_surface }
    }

    /// The request that gives this surface the toplevel role.
    pub fn wl_get_toplevel(&self, xdg_toplevel_id: Id) -> (r: WireRequest)
        ensures
            r.sender_id == self.id && r.opcode == 1 && r.args@ == seq![
                WireArgument::NewId(xdg_toplevel_id),
            ],
    {
        let mut args: Vec<WireArgument> = Vec::new();
        args.push(WireArgument::NewId(xdg_toplevel_id));
        assert(args@ =~= seq![WireArgument::NewId(xdg_toplevel_id)]);
        WireRequest { sender_id: self.id, opcode: 1, args }
    }

    /// The acknowledgement of a configure event, by serial.
    pub fn wl_ack_configure(&self, serial: u32) -> (r: WireRequest)
        ensures
            r.sender_id == self.id && r.opcode == 4 && r.args@ == seq![WireArgument::UnInt(serial)],
    {
        let mut args: Vec<WireArgument> = Vec::new();
        args.push(WireArgument::UnInt(serial));
        assert(args@ =~= seq![WireArgument::UnInt(serial)]);
        WireRequest { sender_id: self.id, opcode: 4, args }
    }

    /// The decoration's destroy request.
    pub fn wl_destroy(&self) -> (r: WireRequest)
        ensures
            r.sender_id == self.id && r.opcode == 0 && r.args@ == Seq::<WireArgument>::empty(),
    {
        let args: Vec<WireArgument> = Vec::new();
        assert(args@ =~= Seq::<WireArgument>::empty());
        WireRequest { sender_id: self.id, opcode: 0, args }
    }

    /// Everything `handle` promises, as a relation between the state before
    /// (`pre`) and after (`post`) and the result. Every configure marks the
    /// surface configured and enqueues `ack_configure` with the same serial
    /// within the same handling step, so the acknowledgement precedes
    /// whatever commit follows; any other opcode is unknown on this
    /// interface.
    pub open spec fn spec_handle(
        pre: XdgSurface,
        opcode: int,
        payload: Seq<u8>,
        post: XdgSurface,
        r: Result<Vec<EventAction>, WaylandError>,
    ) -> bool {
        &&& post.id == pre.id
        &&& post.wl_surface == pre.wl_surface
        &&& pre.is_configured ==> post.is_configured
        &&& opcode == 0 ==> match spec_parse_u32(payload, 0) {
            Ok(serial) => r matches Ok(acts) && post.is_configured && acts@.len() == 2 && (
            acts@[0] matches EventAction::DebugMessage(_, _)) && (acts@[1]
                matches EventAction::Request(req) && req.sender_id == pre.id && req.opcode == 4
                && req.args@ == seq![WireArgument::UnInt(serial)]),
            Err(e) => r matches Err(e2) && e2 == e && post == pre,
        }
        &&& opcode != 0 ==> (r matches Err(e) && e matches WaylandError::InvalidOpCode(op, _)
            && op == opcode && post == pre)
    }

    /// Handle one event for the decoration.
    pub fn handle(&mut self, opcode: usize, payload: &[u8]) -> (r: Result<
        Vec<EventAction>,
        WaylandError,
    >)
        ensures
            XdgSurface::spec_handle(*old(self), opcode as int, payload@, *final(self), r),
    {
        match opcode {
            0 => {
                let serial = match parse_u32(payload, 0) {
                    Ok(v) => v,
                    Err(e) => {
                        return Err(e);
                    },
                };
                self.is_configured = true;
                let mut acts: Vec<EventAction> = Vec::new();
                acts.push(
                    EventAction::DebugMessage(
                        DebugLevel::Important,
                        "xdg_surface: configure received, acking",
                    ),
                );
                acts.push(EventAction::Request(self.wl_ack_configure(serial)));
                Ok(acts)
            },
            inv => Err(WaylandError::InvalidOpCode(inv, "xdg_surface")),
        }
    }
}

/// The window states a toplevel configure can carry.
#[derive(Clone, Copy, Debug, PartialEq, Eq, Structural)]
pub enum XdgTopLevelStates {
    Maximized,
    Fullscreen,
    Resizing,
    Activated,
    TiledLeft,
    TiledRight,
    TiledTop,
    TiledBottom,
    Suspended,
    ConstrainedLeft,
    ConstrainedRight,
    ConstrainedTop,
    ConstrainedBottom,
}

impl XdgTopLevelStates {
    /// The state for a wire value; the protocol numbers them from one, and
    /// anything outside the thirteen known states is a protocol error.
    pub fn from_u32(v: u32) -> (r: Result<XdgTopLevelStates, WaylandError>)
        ensures
            1 <= v <= 13 ==> r is Ok,
            (v == 0 || v > 13) ==> (r matches Err(e)
                && e matches WaylandError::InvalidEnumVariant),
    {
        match v {
            1 => Ok(XdgTopLevelStates::Maximized),
            2 => Ok(XdgTopLevelStates::Fullscreen),
            3 => Ok(XdgTopLevelStates::Resizing),
            4 => Ok(XdgTopLevelStates::Activated),
            5 => Ok(XdgTopLevelStates::TiledLeft),
            6 => Ok(XdgTopLevelStates::TiledRight),
            7 => Ok(XdgTopLevelStates::TiledTop),
            8 => Ok(XdgTopLevelStates::TiledBottom),
            9 => Ok(XdgTopLevelStates::Suspended),
            10 => Ok(XdgTopLevelStates::ConstrainedLeft),
            11 => Ok(XdgTopLevelStates::ConstrainedRight),
            12 => Ok(XdgTopLevelStates::ConstrainedTop),
            13 => Ok(XdgTopLevelStates::ConstrainedBottom),
            _ => Err(WaylandError::InvalidEnumVariant),
        }
    }
}

/// The state of one toplevel window: its decorated `xdg_surface`, its
/// optional title and application id, and the close flag, which only ever
/// latches on.
#[derive(Debug)]
pub struct XdgTopLevel {
    pub id: Id,
    pub parent: Id,
    pub title: Option<String>,
    pub appid: Option<String>,
    pub close_requested: bool,
}

impl XdgTopLevel {
    /// Create and register the toplevel role over the given `xdg_surface`,
    /// and queue the `get_toplevel` request that announces it. The new
    /// toplevel has no title, no application id, and its close flag clear.
    pub fn new_from_xdg_surface(god: &mut God, xdg_surface_id: Id) -> (r: Id)
        requires
            spec_wf(old(god).wlim@),
            old(god).wlim.top_id < u32::MAX,
        ensures
            spec_wf(final(god).wlim@),
            final(god).wlim.top_id <= old(god).wlim.top_id + 1,
            r == spec_next_id(old(god).wlim@),
            spec_lookup(old(god).wlim@, r) is None,
            forall|id2: Id|
                id2 != r ==> #[trigger] spec_lookup(final(god).wlim@, id2) == spec_lookup(
                    old(god).wlim@,
                    id2,
                ),
            spec_lookup(final(god).wlim@, r) matches Some(o) && (o
                matches WaylandObject::XdgTopLevel(t) && t.id == r && t.parent == xdg_surface_id
                && t.title is None && t.appid is None && !t.close_requested),
            final(god).wlmm.outgoing@ == old(god).wlmm.outgoing@,
            final(god).wlmm.q@.len() == old(god).wlmm.q@.len() + 1,
            final(god).wlmm.q@.subrange(0, old(god).wlmm.q@.len() as int) == old(god).wlmm.q@,
            final(god).wlmm.q@.last() matches QueueEntry::Request(req, _) && req.sender_id
                == xdg_surface_id && req.opcode == 1 && req.args@ == seq![WireArgument::NewId(r)],
    {
        let id = god.wlim.pick_id();
        god.wlim.register_at(id, WaylandObject::XdgTopLevel(XdgTopLevel::new(id, xdg_surface_id)));
        let xdgs = XdgSurface { id: xdg_surface_id, is_configured: false, wl_surface: 0 };
        let req = xdgs.wl_get_toplevel(id);
        god.wlmm.queue_request(req, WaylandObjectKind::XdgTopLevel);
        assert(final(god).wlmm.q@.subrange(0, old(god).wlmm.q@.len() as int) =~= old(god).wlmm.q@);
        id
    }

    /// A fresh toplevel over the given `xdg_surface`.
    pub fn new(id: Id, parent: Id) -> (r: XdgTopLevel)
        ensures
            r.id == id,
            r.parent == parent,
            r.title is None,
            r.appid is None,
            !r.close_requested,
    {
        XdgTopLevel { id, parent, title: None, appid: None, close_requested: false }
    }

    /// The request that sets the application id.
    pub fn wl_set_app_id(&self, id: String) -> (r: WireRequest)
        ensures
            r.sender_id == self.id && r.opcode == 3 && r.args@ == seq![WireArgument::Str(id)],
    {
        let mut args: Vec<WireArgument> = Vec::new();
        args.push(WireArgument::Str(id));
        WireRequest { sender_id: self.id, opcode: 3, args }
    }

    /// The request that sets the title.
    pub fn wl_set_title(&self, id: String) -> (r: WireRequest)
        ensures
            r.sender_id == self.id && r.opcode == 2 && r.args@ == seq![WireArgument::Str(id)],
    {
        let mut args: Vec<WireArgument> = Vec::new();
        args.push(WireArgument::Str(id));
        WireRequest { sender_id: self.id, opcode: 2, args }
    }

    /// The toplevel's destroy request.
    pub fn wl_destroy(&self) -> (r: WireRequest)
        ensures
            r.sender_id == self.id && r.opcode == 0 && r.args@ == Seq::<WireArgument>::empty(),
    {
        let args: Vec<WireArgument> = Vec::new();
        assert(args@ =~= Seq::<WireArgument>::empty());
        WireRequest { sender_id: self.id, opcode: 0, args }
    }

    /// Record the application id and queue the request that announces it.
    pub fn set_app_id(&mut self, wlmm: &mut MessageManager, id: &str)
        ensures
            final(self).id == old(self).id,
            final(self).parent == old(self).parent,
            final(self).title == old(self).title,
            final(self).close_requested == old(self).close_requested,
            final(self).appid matches Some(s) && s@ == id@,
            final(wlmm).outgoing@ == old(wlmm).outgoing@,
            final(wlmm).q@.len() == old(wlmm).q@.len() + 1,
            final(wlmm).q@.subrange(0, old(wlmm).q@.len() as int) == old(wlmm).q@,
            final(wlmm).q@.last() matches QueueEntry::Request(req, k)
                && k == WaylandObjectKind::XdgTopLevel && req.sender_id == old(self).id
                && req.opcode == 3 && req.args@.len() == 1 && (req.args@[0]
                matches WireArgument::Str(s) && s@ == id@),
    {
        self.appid = Some(id.to_owned());
        let req = self.wl_set_app_id(id.to_owned());
        wlmm.queue_request(req, WaylandObjectKind::XdgTopLevel);
        assert(final(wlmm).q@.subrange(0, old(wlmm).q@.len() as int) =~= old(wlmm).q@);
    }

    /// Record the title and queue the request that announces it.
    pub fn set_title(&mut self, wlmm: &mut MessageManager, id: &str)
        ensures
            final(self).id == old(self).id,
            final(self).parent == old(self).parent,
            final(self).appid == old(self).appid,
            final(self).close_requested == old(self).close_requested,
            final(self).title matches Some(s) && s@ == id@,
            final(wlmm).outgoing@ == old(wlmm).outgoing@,
            final(wlmm).q@.len() == old(wlmm).q@.len() + 1,
            final(wlmm).q@.subrange(0, old(wlmm).q@.len() as int) == old(wlmm).q@,
            final(wlmm).q@.last() matches QueueEntry::Request(req, k)
                && k == WaylandObjectKind::XdgTopLevel && req.sender_id == old(self).id
                && req.opcode == 2 && req.args@.len() == 1 && (req.args@[0]
                matches WireArgument::Str(s) && s@ == id@),
    {
        self.title = Some(id.to_owned());
        let req = self.wl_set_title(id.to_owned());
        wlmm.queue_request(req, WaylandObjectKind::XdgTopLevel);
        assert(final(wlmm).q@.subrange(0, old(wlmm).q@.len() as int) =~= old(wlmm).q@);
    }

    /// Everything `handle` promises, as a relation between the state before
    /// (`pre`) and after (`post`) and the result.
    ///
    /// `configure` parses width, height and the state array; a state value
    /// outside the known thirteen is a protocol error, and nonzero
    /// dimensions yield a resize action aimed at the decorated
    /// `xdg_surface`. `close` latches the close flag, which no event ever
    /// clears again. `configure_bounds` and `wm_capabilities` are
    /// acknowledged with a log line and otherwise ignored; anything else is
    /// unknown on this interface.
    pub open spec fn spec_handle(
        pre: XdgTopLevel,
        opcode: int,
        payload: Seq<u8>,
        post: XdgTopLevel,
        r: Result<Vec<EventAction>, WaylandError>,
    ) -> bool {
        &&& post.id == pre.id
        &&& post.parent == pre.parent
        &&& post.title == pre.title
        &&& post.appid == pre.appid
        &&& pre.close_requested ==> post.close_requested
        &&& opcode == 0 ==> post.close_requested == pre.close_requested
        &&& opcode == 0 ==> match r {
                Ok(acts) => spec_parse_i32(payload, 0) matches Ok(w) && (spec_parse_i32(
                    payload,
                    4,
                ) matches Ok(h) && (spec_parse_u32_array(payload, 8) matches Ok(states) && (forall|
                    k: int,
                |
                    0 <= k < states.len() ==> 1 <= (#[trigger] states[k]) <= 13) && ((w != 0 && h != 0)
                    ==> acts@.len() == 2 && acts@[1] == EventAction::Resize(w, h, pre.parent))
                    && ((w == 0 || h == 0) ==> acts@.len() == 1) && (acts@[0]
                    matches EventAction::DebugMessage(_, _)))),
                Err(e) => (spec_parse_i32(payload, 0) matches Err(e2) && e == e2) || (
                spec_parse_i32(payload, 4) matches Err(e2) && e == e2) || (spec_parse_u32_array(
                    payload,
                    8,
                ) matches Err(e2) && e == e2) || (e matches WaylandError::InvalidEnumVariant
                    && spec_parse_u32_array(payload, 8) matches Ok(states) && (exists|k: int|
                    0 <= k < states.len() && ((#[trigger] states[k]) == 0 || states[k] > 13))),
            }
        &&& opcode == 1 ==> (r matches Ok(acts) && acts@.len() == 1 && (acts@[0]
                matches EventAction::DebugMessage(_, _)) && post.close_requested)
        &&& (opcode == 2 || opcode == 3) ==> (r matches Ok(acts) && acts@.len() == 1 && (acts@[0]
                matches EventAction::DebugMessage(_, _)) && post == pre)
        &&& opcode > 3 ==> (r matches Err(e) && e matches WaylandError::InvalidOpCode(op, _) && op
                == opcode && post == pre)
    }

    /// Handle one event for the toplevel.
    pub fn handle(&mut self, opcode: usize, payload: &[u8]) -> (r: Result<
        Vec<EventAction>,
        WaylandError,
    >)
        ensures
            XdgTopLevel::spec_handle(*old(self), opcode as int, payload@, *final(self), r),
    {
        match opcode {
            0 => {
                let w = match parse_i32(payload, 0) {
                    Ok(v) => v,
                    Err(e) => {
                        return Err(e);
                    },
                };
                let h = match parse_i32(payload, 4) {
                    Ok(v) => v,
                    Err(e) => {
                        return Err(e);
                    },
                };
                let states = match parse_u32_array(payload, 8) {
                    Ok(v) => v,
                    Err(e) => {
                        return Err(e);
                    },
                };
                let mut k: usize = 0;
                while k < states.len()
                    invariant
                        opcode == 0,
                        *self == *old(self),
                        k <= states@.len(),
                        spec_parse_i32(payload@, 0) == Ok::<i32, WaylandError>(w),
                        spec_parse_i32(payload@, 4) == Ok::<i32, WaylandError>(h),
                        spec_parse_u32_array(payload@, 8) == Ok::<Seq<u32>, WaylandError>(states@),
                        forall|j: int| 0 <= j < k ==> 1 <= (#[trigger] states@[j]) <= 13,
                    decreases states@.len() - k,
                {
                    let s = states[k];
                    match XdgTopLevelStates::from_u32(s) {
                        Ok(_) => {},
                        Err(_) => {
                            assert(s == 0 || s > 13);
                            proof {
                                let sts = spec_parse_u32_array(payload@, 8)->Ok_0;
                                assert(sts == states@);
                                assert(0 <= k < sts.len() && (sts[k as int] == 0 || sts[k as int]
                                    > 13));
                                assert(exists|j: int|
                                    0 <= j < sts.len() && ((#[trigger] sts[j]) == 0 || sts[j]
                                        > 13));
                            }
                            return Err(WaylandError::InvalidEnumVariant);
                        },
                    }
                    assert(1 <= states@[k as int] <= 13);
                    k = k + 1;
                }
                let mut acts: Vec<EventAction> = Vec::new();
                acts.push(
                    EventAction::DebugMessage(DebugLevel::Important, "xdg_toplevel: configure"),
                );
                if w != 0 && h != 0 {
                    acts.push(EventAction::Resize(w, h, self.parent));
                }
                Ok(acts)
            },
            1 => {
                self.close_requested = true;
                let mut acts: Vec<EventAction> = Vec::new();
                acts.push(
                    EventAction::DebugMessage(
                        DebugLevel::Important,
                        "xdg_toplevel: close requested",
                    ),
                );
                Ok(acts)
            },
            2 => {
                let mut acts: Vec<EventAction> = Vec::new();
                acts.push(
                    EventAction::DebugMessage(
                        DebugLevel::Trivial,
                        "xdg_toplevel: configure_bounds ignored",
                    ),
                );
                Ok(acts)
            },
            3 => {
                let mut acts: Vec<EventAction> = Vec::new();
                acts.push(
                    EventAction::DebugMessage(
                        DebugLevel::Trivial,
                        "xdg_toplevel: wm_capabilities ignored",
                    ),
                );
                Ok(acts)
            },
            inv => Err(WaylandError::InvalidOpCode(inv, "xdg_toplevel")),
        }
    }
}

} // verus!
