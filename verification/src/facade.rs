//! The top-level window façade: compose compositor, shared memory, XDG
//! shell and a buffer into a window lifecycle. One `work_step` decides what
//! the embedding application must do next — stop, wait for a configure,
//! attach a first buffer, or render a frame — and `present_frame` pushes a
//! rendered frame to the compositor; pixels travel through the pool's
//! modelled mapping.

use vstd::prelude::*;

use crate::buffer::{Buffer, BufferBackend};
use crate::callback::Callback;
use crate::compositor::Compositor;
use crate::errors::WaylandError;
use crate::god::God;
use crate::ids::{spec_lookup, spec_wf};
use crate::objects::WaylandObject;
use crate::shm::{PixelFormat, SharedMemory};
use crate::wire::{Id, QueueEntry, WireArgument};
use crate::xdgshell::{XdgTopLevel, XdgWmBase};
use crate::DebugLevel;

verus! {

/// What the render callback receives about the frame it is asked to paint.
#[derive(Clone, Copy, Debug, PartialEq, Eq, Structural)]
pub struct Snapshot {
    pub w: i32,
    pub h: i32,
    pub pf: PixelFormat,
    pub frame: usize,
    pub presenter_id: usize,
}

/// The ids that together make up one top-level window, and its frame
/// counter.
#[derive(Clone, Copy, Debug)]
pub struct TopLevelWindow {
    pub surface: Id,
    pub xdg_surface: Id,
    pub xdg_toplevel: Id,
    pub xdg_wm_base: Id,
    pub pool: Id,
    pub shm: Id,
    pub frame: usize,
}

/// What one pass of the window's work loop decided.
#[derive(Clone, Copy, Debug, PartialEq, Eq, Structural)]
pub enum WorkStep {
    /// The close flag is set: stop calling in.
    Finished,
    /// No configure has arrived yet: commit nothing.
    AwaitingConfigure,
    /// A first buffer was allocated, attached and committed.
    BufferAttached,
    /// A frame callback was requested: render now, then present.
    RenderFrame(Snapshot),
    /// The previous frame is still in flight.
    NotReady,
}

/// Whether the toplevel registered under `id` has its close flag set.
pub open spec fn spec_close_requested(v: crate::ids::ImView, id: Id) -> bool {
    spec_lookup(v, id) matches Some(o) && (o matches WaylandObject::XdgTopLevel(t)
        && t.close_requested)
}

/// Whether the `xdg_surface` registered under `id` has been configured.
pub open spec fn spec_configured(v: crate::ids::ImView, id: Id) -> bool {
    spec_lookup(v, id) matches Some(o) && (o matches WaylandObject::XdgSurface(x)
        && x.is_configured)
}

/// The surface value registered under `id`, when that id holds a surface.
pub open spec fn spec_surface_of(v: crate::ids::ImView, id: Id) -> Option<crate::surface::Surface> {
    match spec_lookup(v, id) {
        Some(o) => match o {
            WaylandObject::Surface(s) => Some(s),
            _ => None,
        },
        None => None,
    }
}

/// The buffer value registered under `id`, when that id holds a buffer.
pub open spec fn spec_buffer_of(v: crate::ids::ImView, id: Id) -> Option<Buffer> {
    match spec_lookup(v, id) {
        Some(o) => match o {
            WaylandObject::Buffer(b) => Some(b),
            _ => None,
        },
        None => None,
    }
}

/// Whether the surface's pending frame callback has completed; a surface
/// without a token, or whose token no longer names a callback, counts as
/// ready.
pub open spec fn spec_frame_ready(v: crate::ids::ImView, s: crate::surface::Surface) -> bool {
    match s.frame_cb {
        Some(c) => match spec_lookup(v, c) {
            Some(o) => match o {
                WaylandObject::Callback(cb) => cb.done,
                _ => true,
            },
            None => true,
        },
        None => true,
    }
}

/// A geometry a shared-memory frame can hold: positive on both sides, with
/// the byte count within `i32`.
pub open spec fn spec_usable_size(w: int, h: int) -> bool {
    0 < w && 0 < h && w * h * 4 <= i32::MAX
}

/// The pool value registered under `id`, when that id holds a pool.
pub open spec fn spec_pool_of(v: crate::ids::ImView, id: Id) -> Option<
    crate::shm::SharedMemoryPool,
> {
    match spec_lookup(v, id) {
        Some(o) => match o {
            WaylandObject::SharedMemoryPool(p) => Some(p),
            _ => None,
        },
        None => None,
    }
}

/// The `xdg_surface` value registered under `id`, when that id holds one.
pub open spec fn spec_xdg_surface_of(v: crate::ids::ImView, id: Id) -> Option<
    crate::xdgshell::XdgSurface,
> {
    match spec_lookup(v, id) {
        Some(o) => match o {
            WaylandObject::XdgSurface(x) => Some(x),
            _ => None,
        },
        None => None,
    }
}

/// The window objects one work pass must reach: the surface, and the
/// attached buffer when there is one.
pub open spec fn spec_window_mapped(v: crate::ids::ImView, win: TopLevelWindow) -> bool {
    match spec_surface_of(v, win.surface) {
        Some(s) => match s.attached_buf {
            Some(b) => spec_buffer_of(v, b) is Some,
            None => true,
        },
        None => false,
    }
}

/// What the first-buffer step leaves behind. With a usable surface size, a
/// buffer of exactly that size stands registered under the next free id,
/// the surface records it as attached, and three requests are queued in
/// order: `create_buffer` (offset 0, stride width times four, the surface's
/// format), `attach`, `commit`. With a degenerate or oversized size the
/// step only reports not-ready and changes no protocol state.
pub open spec fn spec_first_buffer_step(
    v0: crate::ids::ImView,
    win0: TopLevelWindow,
    s: crate::surface::Surface,
    g0: God,
    g1: God,
    win1: TopLevelWindow,
    step: WorkStep,
) -> bool {
    if !spec_usable_size(s.w as int, s.h as int) {
        &&& step is NotReady
        &&& win1 == win0
        &&& g1.wlmm == g0.wlmm
        &&& forall|id2: Id| #[trigger] spec_lookup(g1.wlim@, id2) == spec_lookup(v0, id2)
    } else {
        let bid = crate::ids::spec_next_id(v0);
        &&& step is BufferAttached
        &&& win1 == win0
        &&& spec_lookup(g1.wlim@, bid) == Some(
            WaylandObject::Buffer(
                Buffer {
                    id: bid,
                    offset: 0,
                    width: s.w,
                    height: s.h,
                    in_use: false,
                    backend: BufferBackend::SharedMemory(win0.pool),
                    master: s.id,
                },
            ),
        )
        &&& spec_lookup(g1.wlim@, win0.surface) == Some(
            WaylandObject::Surface(crate::surface::Surface { attached_buf: Some(bid), ..s }),
        )
        &&& (forall|id2: Id|
            id2 != bid && id2 != win0.surface ==> #[trigger] spec_lookup(g1.wlim@, id2)
                == spec_lookup(v0, id2))
        &&& g1.wlmm.outgoing@ == g0.wlmm.outgoing@
        &&& g1.wlmm.q@.len() == g0.wlmm.q@.len() + 3
        &&& g1.wlmm.q@.subrange(0, g0.wlmm.q@.len() as int) == g0.wlmm.q@
        &&& (g1.wlmm.q@[g0.wlmm.q@.len() as int] matches QueueEntry::Request(req, _)
            && req.sender_id == win0.pool && req.opcode == 0 && req.args@ == seq![
            WireArgument::NewId(bid),
            WireArgument::Int(0),
            WireArgument::Int(s.w),
            WireArgument::Int(s.h),
            WireArgument::Int((s.w * 4) as i32),
            WireArgument::UnInt(s.pf.spec_wire_code()),
        ])
        &&& (g1.wlmm.q@[g0.wlmm.q@.len() as int + 1] matches QueueEntry::Request(req, _)
            && req.sender_id == s.id && req.opcode == 1 && req.args@ == seq![
            WireArgument::Obj(bid),
            WireArgument::UnInt(0),
            WireArgument::UnInt(0),
        ])
        &&& (g1.wlmm.q@[g0.wlmm.q@.len() as int + 2] matches QueueEntry::Request(req, _)
            && req.sender_id == s.id && req.opcode == 6 && req.args@.len() == 0)
    }
}

/// What the render step leaves behind. While the previous frame's callback
/// is still pending the step only reports not-ready and changes no protocol
/// state. Otherwise a fresh unfired callback stands registered under the
/// next free id, the surface records it as its one pending token, exactly
/// the `frame` request naming it is queued, the frame counter advances (and
/// wraps), and the snapshot carries the attached buffer's geometry, the
/// surface's format and the new counter.
pub open spec fn spec_render_step(
    v0: crate::ids::ImView,
    win0: TopLevelWindow,
    s: crate::surface::Surface,
    bb: Buffer,
    g0: God,
    g1: God,
    win1: TopLevelWindow,
    step: WorkStep,
) -> bool {
    if !spec_frame_ready(v0, s) {
        &&& step is NotReady
        &&& win1 == win0
        &&& g1.wlmm == g0.wlmm
        &&& forall|id2: Id| #[trigger] spec_lookup(g1.wlim@, id2) == spec_lookup(v0, id2)
    } else {
        let cbid = crate::ids::spec_next_id(v0);
        &&& step == WorkStep::RenderFrame(
            Snapshot { w: bb.width, h: bb.height, pf: s.pf, frame: win1.frame, presenter_id: 0 },
        )
        &&& win1 == (TopLevelWindow {
            frame: if win0.frame == usize::MAX {
                0
            } else {
                (win0.frame + 1) as usize
            },
            ..win0
        })
        &&& (spec_lookup(g1.wlim@, cbid) matches Some(o) && (o matches WaylandObject::Callback(cb)
            && !cb.done && cb.data is None))
        &&& spec_lookup(g1.wlim@, win0.surface) == Some(
            WaylandObject::Surface(crate::surface::Surface { frame_cb: Some(cbid), ..s }),
        )
        &&& (forall|id2: Id|
            id2 != cbid && id2 != win0.surface ==> #[trigger] spec_lookup(g1.wlim@, id2)
                == spec_lookup(v0, id2))
        &&& g1.wlmm.outgoing@ == g0.wlmm.outgoing@
        &&& g1.wlmm.q@.len() == g0.wlmm.q@.len() + 1
        &&& g1.wlmm.q@.subrange(0, g0.wlmm.q@.len() as int) == g0.wlmm.q@
        &&& (g1.wlmm.q@.last() matches QueueEntry::Request(req, _) && req.sender_id == s.id
            && req.opcode == 3 && req.args@ == seq![WireArgument::NewId(cbid)])
    }
}

/// Compose a complete window: a surface (default format Xrgb8888), a pool
/// sized for its pixels over the descriptor the embedding application
/// opened, the XDG shell, its surface decoration and the toplevel role —
/// five registered objects whose five announcement requests are queued in
/// creation order. Succeeds exactly when the registry under `registry_id`
/// advertises `xdg_wm_base`.
pub fn spawn_window(
    god: &mut God,
    registry_id: Id,
    compositor_id: Id,
    shm_id: Id,
    width: i32,
    height: i32,
    pool_fd: i32,
    pool_name: String,
) -> (r: Result<TopLevelWindow, WaylandError>)
    requires
        spec_wf(old(god).wlim@),
        old(god).wlim.top_id as int + 8 < u32::MAX,
        0 < width,
        0 < height,
        width * height * 4 <= i32::MAX,
    ensures
        spec_wf(final(god).wlim@),
        r is Ok <==> match spec_lookup(old(god).wlim@, registry_id) {
            Some(o) => match o {
                WaylandObject::Registry(reg) => ({
                    let i = crate::registry::spec_find_interface(
                        reg.inner@,
                        vstd::utf8::encode_utf8(
                            crate::kind::WaylandObjectKind::XdgWmBase.spec_name(),
                        ),
                    );
                    i >= 0 && 1 <= reg.inner@[i].1.version
                }),
                _ => false,
            },
            None => false,
        },
        match r {
            Ok(win) => win.frame == 0 && win.shm == shm_id && (spec_surface_of(
                final(god).wlim@,
                win.surface,
            ) matches Some(s) && s.id == win.surface && s.attached_buf is None && s.frame_cb
                is None && s.pf == PixelFormat::Xrgb888) && (spec_lookup(
                final(god).wlim@,
                win.pool,
            ) matches Some(po) && (po matches WaylandObject::SharedMemoryPool(p) && p.id
                == win.pool && p.fd == pool_fd && p.size == width * height * 4 && p.wf()))
                && spec_lookup(final(god).wlim@, win.xdg_surface) == Some(
                WaylandObject::XdgSurface(
                    crate::xdgshell::XdgSurface {
                        id: win.xdg_surface,
                        is_configured: false,
                        wl_surface: win.surface,
                    },
                ),
            ) && (spec_lookup(final(god).wlim@, win.xdg_toplevel) matches Some(to) && (to
                matches WaylandObject::XdgTopLevel(t) && t.id == win.xdg_toplevel && t.parent
                == win.xdg_surface && t.title is None && t.appid is None && !t.close_requested))
                && spec_lookup(final(god).wlim@, win.xdg_wm_base) == Some(
                WaylandObject::XdgWmBase(XdgWmBase { id: win.xdg_wm_base }),
            ) && final(god).wlmm.outgoing@ == old(god).wlmm.outgoing@ && final(god).wlmm.q@.len()
                == old(god).wlmm.q@.len() + 5 && final(god).wlmm.q@.subrange(
                0,
                old(god).wlmm.q@.len() as int,
            ) == old(god).wlmm.q@,
            Err(e) => (e matches WaylandError::NotInRegistry
                || e matches WaylandError::ObjectNonExistent),
        },
{
    let ghost v0 = god.wlim@;
    let ghost q0 = god.wlmm.q@;
    let surface = Compositor::make_surface(god, compositor_id);
    let ghost va = god.wlim@;
    let ghost qa = god.wlmm.q@;
    proof {
        assert(height * 4 <= i32::MAX && width * (height * 4) <= i32::MAX && width * (height * 4)
            == width * height * 4) by (nonlinear_arith)
            requires
                0 < width && 0 < height && width * height * 4 <= i32::MAX,
        ;
    }
    let size = width * (height * 4);
    let pool = match SharedMemory::make_pool(god, shm_id, pool_fd, size, pool_name) {
        Ok(p) => p,
        Err(e) => {
            proof {
                assert(false);
            }
            return Err(WaylandError::ObjectNonExistent);
        },
    };
    let ghost vb = god.wlim@;
    let ghost qb = god.wlmm.q@;
    proof {
        if registry_id != surface && registry_id != pool {
            assert(spec_lookup(va, registry_id) == spec_lookup(v0, registry_id));
            assert(spec_lookup(vb, registry_id) == spec_lookup(va, registry_id));
        } else if registry_id == surface {
            assert(spec_lookup(v0, registry_id) is None);
            assert(spec_lookup(va, registry_id) matches Some(o) && o is Surface);
            assert(spec_lookup(va, pool) is None);
            assert(spec_lookup(vb, registry_id) == spec_lookup(va, registry_id));
        } else {
            assert(spec_lookup(va, registry_id) is None);
            assert(spec_lookup(va, surface) is Some);
            assert(registry_id != surface);
            assert(spec_lookup(v0, registry_id) == spec_lookup(va, registry_id));
            assert(spec_lookup(vb, registry_id) matches Some(o) && o is SharedMemoryPool);
        }
    }
    let base = match XdgWmBase::new_bound(god, registry_id) {
        Ok(b) => b,
        Err(e) => {
            return Err(e);
        },
    };
    let ghost vc = god.wlim@;
    let ghost qc = god.wlmm.q@;
    let xdg_surface = XdgWmBase::make_xdg_surface(god, base, surface);
    let ghost vd = god.wlim@;
    let ghost qd = god.wlmm.q@;
    let xdg_toplevel = XdgTopLevel::new_from_xdg_surface(god, xdg_surface);
    proof {
        let ve = god.wlim@;
        assert(spec_lookup(va, surface) is Some);
        assert(spec_lookup(vb, surface) == spec_lookup(va, surface));
        assert(spec_lookup(vc, surface) == spec_lookup(vb, surface));
        assert(spec_lookup(vd, surface) == spec_lookup(vc, surface));
        assert(spec_lookup(ve, surface) == spec_lookup(vd, surface));
        assert(spec_lookup(vb, pool) is Some);
        assert(spec_lookup(vc, pool) == spec_lookup(vb, pool));
        assert(spec_lookup(vd, pool) == spec_lookup(vc, pool));
        assert(spec_lookup(ve, pool) == spec_lookup(vd, pool));
        assert(spec_lookup(vc, base) is Some);
        assert(spec_lookup(vd, base) == spec_lookup(vc, base));
        assert(spec_lookup(ve, base) == spec_lookup(vd, base));
        assert(spec_lookup(vd, xdg_surface) is Some);
        assert(spec_lookup(ve, xdg_surface) == spec_lookup(vd, xdg_surface));
        let qe = god.wlmm.q@;
        assert forall|i: int| 0 <= i < q0.len() implies qe[i] == q0[i] by {
            assert(qe.subrange(0, qd.len() as int)[i] == qe[i]);
            assert(qd.subrange(0, qc.len() as int)[i] == qd[i]);
            assert(qc.subrange(0, qb.len() as int)[i] == qc[i]);
            assert(qb.subrange(0, qa.len() as int)[i] == qb[i]);
            assert(qa.subrange(0, q0.len() as int)[i] == qa[i]);
        }
        assert(qe.subrange(0, q0.len() as int) =~= q0);
    }
    Ok(
        TopLevelWindow {
            surface,
            xdg_surface,
            xdg_toplevel,
            xdg_wm_base: base,
            pool,
            shm: shm_id,
            frame: 0,
        },
    )
}

/// Record the window's title on its toplevel and queue the announcing
/// request; refused, with nothing changed, when the id does not hold a
/// toplevel.
pub fn window_set_title(god: &mut God, toplevel_id: Id, title: &str) -> (r: Result<
    (),
    WaylandError,
>)
    requires
        spec_wf(old(god).wlim@),
    ensures
        spec_wf(final(god).wlim@),
        r is Ok <==> (spec_lookup(old(god).wlim@, toplevel_id) matches Some(o)
            && o is XdgTopLevel),
        r is Err ==> final(god).wlmm == old(god).wlmm && (forall|id2: Id|
            #[trigger] spec_lookup(final(god).wlim@, id2) == spec_lookup(old(god).wlim@, id2)),
        r is Ok ==> match spec_lookup(old(god).wlim@, toplevel_id) {
            Some(o) => match o {
                WaylandObject::XdgTopLevel(t) => {
                    &&& (spec_lookup(final(god).wlim@, toplevel_id) matches Some(o2) && (o2
                        matches WaylandObject::XdgTopLevel(t2) && t2.id == t.id && t2.parent
                        == t.parent && t2.appid == t.appid && t2.close_requested
                        == t.close_requested && (t2.title matches Some(st) && st@ == title@)))
                    &&& (forall|id2: Id|
                        id2 != toplevel_id ==> #[trigger] spec_lookup(final(god).wlim@, id2)
                            == spec_lookup(old(god).wlim@, id2))
                    &&& final(god).wlmm.outgoing@ == old(god).wlmm.outgoing@
                    &&& final(god).wlmm.q@.len() == old(god).wlmm.q@.len() + 1
                    &&& final(god).wlmm.q@.subrange(0, old(god).wlmm.q@.len() as int) == old(
                        god,
                    ).wlmm.q@
                    &&& (final(god).wlmm.q@.last() matches QueueEntry::Request(req, _)
                        && req.sender_id == t.id && req.opcode == 2 && req.args@.len() == 1 && (
                    req.args@[0] matches WireArgument::Str(s2) && s2@ == title@))
                },
                _ => false,
            },
            None => false,
        },
{
    match god.wlim.take_obj(toplevel_id) {
        Some(o) => match o {
            WaylandObject::XdgTopLevel(mut t) => {
                t.set_title(&mut god.wlmm, title);
                god.wlim.register_at(toplevel_id, WaylandObject::XdgTopLevel(t));
                Ok(())
            },
            other => {
                let ghost og = other;
                god.wlim.register_at(toplevel_id, other);
                proof {
                    assert(spec_lookup(god.wlim@, toplevel_id) == Some(og));
                }
                Err(WaylandError::ObjectNonExistent)
            },
        },
        None => Err(WaylandError::ObjectNonExistent),
    }
}

/// Record the window's application id on its toplevel and queue the
/// announcing request; refused, with nothing changed, when the id does not
/// hold a toplevel.
pub fn window_set_app_id(god: &mut God, toplevel_id: Id, app_id: &str) -> (r: Result<
    (),
    WaylandError,
>)
    requires
        spec_wf(old(god).wlim@),
    ensures
        spec_wf(final(god).wlim@),
        r is Ok <==> (spec_lookup(old(god).wlim@, toplevel_id) matches Some(o)
            && o is XdgTopLevel),
        r is Err ==> final(god).wlmm == old(god).wlmm && (forall|id2: Id|
            #[trigger] spec_lookup(final(god).wlim@, id2) == spec_lookup(old(god).wlim@, id2)),
        r is Ok ==> match spec_lookup(old(god).wlim@, toplevel_id) {
            Some(o) => match o {
                WaylandObject::XdgTopLevel(t) => {
                    &&& (spec_lookup(final(god).wlim@, toplevel_id) matches Some(o2) && (o2
                        matches WaylandObject::XdgTopLevel(t2) && t2.id == t.id && t2.parent
                        == t.parent && t2.title == t.title && t2.close_requested
                        == t.close_requested && (t2.appid matches Some(st) && st@ == app_id@)))
                    &&& (forall|id2: Id|
                        id2 != toplevel_id ==> #[trigger] spec_lookup(final(god).wlim@, id2)
                            == spec_lookup(old(god).wlim@, id2))
                    &&& final(god).wlmm.outgoing@ == old(god).wlmm.outgoing@
                    &&& final(god).wlmm.q@.len() == old(god).wlmm.q@.len() + 1
                    &&& final(god).wlmm.q@.subrange(0, old(god).wlmm.q@.len() as int) == old(
                        god,
                    ).wlmm.q@
                    &&& (final(god).wlmm.q@.last() matches QueueEntry::Request(req, _)
                        && req.sender_id == t.id && req.opcode == 3 && req.args@.len() == 1 && (
                    req.args@[0] matches WireArgument::Str(s2) && s2@ == app_id@))
                },
                _ => false,
            },
            None => false,
        },
{
    match god.wlim.take_obj(toplevel_id) {
        Some(o) => match o {
            WaylandObject::XdgTopLevel(mut t) => {
                t.set_app_id(&mut god.wlmm, app_id);
                god.wlim.register_at(toplevel_id, WaylandObject::XdgTopLevel(t));
                Ok(())
            },
            other => {
                let ghost og = other;
                god.wlim.register_at(toplevel_id, other);
                proof {
                    assert(spec_lookup(god.wlim@, toplevel_id) == Some(og));
                }
                Err(WaylandError::ObjectNonExistent)
            },
        },
        None => Err(WaylandError::ObjectNonExistent),
    }
}

/// One pass of the window's work loop, after events have been handled.
///
/// A set close flag ends the window at once: the step is `Finished`, no
/// message is produced and nothing changes — and only a set close flag
/// yields `Finished`. Before the first configure nothing is committed.
/// Once configured, a window without a buffer allocates one at the
/// surface's current size (skipped as not ready while that size is
/// degenerate or past 16384 on a side), attaches and commits it. With a
/// buffer attached and no frame callback pending, a fresh callback is
/// registered as the surface's one pending token and a render is requested.
pub fn work_step(god: &mut God, win: &mut TopLevelWindow) -> (r: Result<WorkStep, WaylandError>)
    requires
        spec_wf(old(god).wlim@),
        old(god).wlim.top_id < u32::MAX,
    ensures
        spec_wf(final(god).wlim@),
        spec_window_mapped(old(god).wlim@, *old(win)) ==> r is Ok,
        match r {
            Ok(step) => ({
                let v0 = old(god).wlim@;
                let closed = spec_close_requested(v0, old(win).xdg_toplevel);
                let configured = spec_configured(v0, old(win).xdg_surface);
                &&& (step is Finished <==> closed)
                &&& (closed ==> *final(god) == *old(god) && *final(win) == *old(win))
                &&& (step is AwaitingConfigure <==> !closed && !configured)
                &&& (!closed && !configured ==> *final(god) == *old(god) && *final(win) == *old(
                    win,
                ))
                &&& (!closed && configured ==> match spec_surface_of(v0, old(win).surface) {
                    Some(s) => {
                        &&& (s.attached_buf is None ==> spec_first_buffer_step(
                            v0,
                            *old(win),
                            s,
                            *old(god),
                            *final(god),
                            *final(win),
                            step,
                        ))
                        &&& (s.attached_buf matches Some(b) ==> match spec_buffer_of(v0, b) {
                            Some(bb) => spec_render_step(
                                v0,
                                *old(win),
                                s,
                                bb,
                                *old(god),
                                *final(god),
                                *final(win),
                                step,
                            ),
                            None => true,
                        })
                    },
                    None => true,
                })
            }),
            Err(_) => !spec_window_mapped(old(god).wlim@, *old(win)),
        },
{
    let ghost v0 = god.wlim@;
    let closed = match god.wlim.find_obj_by_id(win.xdg_toplevel) {
        Ok(o) => match o {
            WaylandObject::XdgTopLevel(t) => t.close_requested,
            _ => false,
        },
        Err(_) => false,
    };
    if closed {
        return Ok(WorkStep::Finished);
    }
    let configured = match god.wlim.find_obj_by_id(win.xdg_surface) {
        Ok(o) => match o {
            WaylandObject::XdgSurface(x) => x.is_configured,
            _ => false,
        },
        Err(_) => false,
    };
    if !configured {
        return Ok(WorkStep::AwaitingConfigure);
    }
    let mut s = match god.wlim.take_obj(win.surface) {
        Some(o) => match o {
            WaylandObject::Surface(s) => s,
            other => {
                god.wlim.register_at(win.surface, other);
                return Err(WaylandError::ObjectNonExistentInWeak);
            },
        },
        None => {
            return Err(WaylandError::ObjectNonExistentInWeak);
        },
    };
    let ghost s0 = s;
    let ghost v1 = god.wlim@;
    if s.attached_buf.is_none() {
        let usable = if s.w <= 0 || s.h <= 0 {
            false
        } else {
            proof {
                assert((s.w as int) * (s.h as int) <= 0x7fffffff * 0x7fffffff
                    && ((s.w as int) * (s.h as int) <= 0x1fffffff <==> (s.w as int) * (
                s.h as int) * 4 <= i32::MAX)) by (nonlinear_arith)
                    requires
                        0 < s.w <= 0x7fffffff && 0 < s.h <= 0x7fffffff,
                ;
            }
            let wh = (s.w as i64) * (s.h as i64);
            wh <= 0x1fffffff
        };
        if !usable {
            god.log.push(
                (DebugLevel::Important, "no usable surface size yet, skipping first buffer"),
            );
            god.wlim.register_at(win.surface, WaylandObject::Surface(s));
            proof {
                assert forall|id2: Id| #[trigger] spec_lookup(god.wlim@, id2) == spec_lookup(
                    v0,
                    id2,
                ) by {
                    if id2 != old(win).surface {
                        assert(spec_lookup(v1, id2) == spec_lookup(v0, id2));
                        assert(spec_lookup(god.wlim@, id2) == spec_lookup(v1, id2));
                    } else {
                        assert(spec_lookup(v0, id2) == Some(WaylandObject::Surface(s0)));
                        assert(spec_lookup(god.wlim@, id2) == Some(WaylandObject::Surface(s0)));
                    }
                }
            }
            return Ok(WorkStep::NotReady);
        }
        if god.wlim.top_id == u32::MAX {
            god.wlim.register_at(win.surface, WaylandObject::Surface(s));
            return Err(WaylandError::RequiredValueNone);
        }
        let ghost free_before = god.wlim@.free;
        let buf_id = god.wlim.pick_id();
        proof {
            if free_before.len() > 0 {
                assert forall|i: int| 0 <= i < god.wlim@.free.len() implies (
                #[trigger] god.wlim@.free[i]) != old(win).surface by {
                    assert(god.wlim@.free[i] == free_before[i + 1]);
                }
            }
        }
        let b = Buffer::new(buf_id, 0, s.w, s.h, BufferBackend::SharedMemory(win.pool), s.id);
        god.wlim.register_at(buf_id, WaylandObject::Buffer(b));
        let ghost v2 = god.wlim@;
        proof {
            assert(s.w * 4 <= i32::MAX) by (nonlinear_arith)
                requires
                    0 < s.w && 0 < s.h && (s.w as int) * (s.h as int) * 4 <= i32::MAX,
            ;
        }
        let stride = s.w * 4;
        let pool_proxy = crate::shm::SharedMemoryPool {
            id: win.pool,
            fd: -1,
            size: 0,
            name: String::new(),
            data: Vec::new(),
        };
        let ghost q0 = god.wlmm.q@;
        let req = pool_proxy.wl_create_buffer(buf_id, 0, s.w, s.h, stride, s.pf);
        god.wlmm.queue_request(req, crate::kind::WaylandObjectKind::Buffer);
        let ghost q1 = god.wlmm.q@;
        s.attach_buffer_obj_and_att(&mut god.wlmm, buf_id);
        let ghost q2 = god.wlmm.q@;
        s.commit(&mut god.wlmm);
        proof {
            crate::ids::lemma_index_of_push_other(
                v1.entries,
                old(win).surface,
                buf_id,
                WaylandObject::Buffer(b),
            );
        }
        god.wlim.register_at(win.surface, WaylandObject::Surface(s));
        proof {
            let q3 = god.wlmm.q@;
            assert(q2.subrange(0, q1.len() as int)[q0.len() as int] == q2[q0.len() as int]);
            assert(q3.subrange(0, q2.len() as int)[q0.len() as int] == q3[q0.len() as int]);
            assert(q3.subrange(0, q2.len() as int)[q0.len() as int + 1] == q3[q0.len() as int + 1]);
            assert forall|i: int| 0 <= i < q0.len() implies q3[i] == q0[i] by {
                assert(q3.subrange(0, q2.len() as int)[i] == q3[i]);
                assert(q2.subrange(0, q1.len() as int)[i] == q2[i]);
                assert(q1[i] == q0[i]);
            }
            assert(q3.subrange(0, q0.len() as int) =~= q0);
            assert forall|id2: Id|
                id2 != buf_id && id2 != old(win).surface implies #[trigger] spec_lookup(
                god.wlim@,
                id2,
            ) == spec_lookup(v0, id2) by {
                assert(spec_lookup(v1, id2) == spec_lookup(v0, id2));
                assert(spec_lookup(v2, id2) == spec_lookup(v1, id2));
                assert(spec_lookup(god.wlim@, id2) == spec_lookup(v2, id2));
            }
        }
        return Ok(WorkStep::BufferAttached);
    }
    let buf_id = match s.attached_buf {
        Some(b) => b,
        None => {
            god.wlim.register_at(win.surface, WaylandObject::Surface(s));
            return Err(WaylandError::BufferObjectNotAttached);
        },
    };
    let ready = match s.frame_cb {
        Some(cb_id) => match god.wlim.find_obj_by_id(cb_id) {
            Ok(o) => match o {
                WaylandObject::Callback(cb) => cb.done,
                _ => true,
            },
            Err(_) => true,
        },
        None => true,
    };
    proof {
        match s0.frame_cb {
            Some(c) => {
                if c != old(win).surface {
                    assert(spec_lookup(v1, c) == spec_lookup(v0, c));
                }
            },
            None => {},
        }
        assert(ready == spec_frame_ready(v0, s0));
    }
    if !ready {
        god.wlim.register_at(win.surface, WaylandObject::Surface(s));
        proof {
            assert forall|id2: Id| #[trigger] spec_lookup(god.wlim@, id2) == spec_lookup(
                v0,
                id2,
            ) by {
                if id2 != old(win).surface {
                    assert(spec_lookup(god.wlim@, id2) == spec_lookup(v1, id2));
                } else {
                    assert(spec_lookup(v0, id2) == Some(WaylandObject::Surface(s0)));
                    assert(spec_lookup(god.wlim@, id2) == Some(WaylandObject::Surface(s0)));
                }
            }
        }
        return Ok(WorkStep::NotReady);
    }
    proof {
        if buf_id != old(win).surface {
            assert(spec_lookup(v1, buf_id) == spec_lookup(v0, buf_id));
        }
    }
    let (bw, bh) = match god.wlim.find_obj_by_id(buf_id) {
        Ok(o) => match o {
            WaylandObject::Buffer(b) => (b.width, b.height),
            _ => {
                god.wlim.register_at(win.surface, WaylandObject::Surface(s));
                return Err(WaylandError::BufferObjectNotAttached);
            },
        },
        Err(_) => {
            god.wlim.register_at(win.surface, WaylandObject::Surface(s));
            return Err(WaylandError::BufferObjectNotAttached);
        },
    };
    if god.wlim.top_id == u32::MAX {
        god.wlim.register_at(win.surface, WaylandObject::Surface(s));
        return Err(WaylandError::RequiredValueNone);
    }
    let ghost free_before = god.wlim@.free;
    let cb_id = god.wlim.pick_id();
    proof {
        if free_before.len() > 0 {
            assert forall|i: int| 0 <= i < god.wlim@.free.len() implies (
            #[trigger] god.wlim@.free[i]) != old(win).surface by {
                assert(god.wlim@.free[i] == free_before[i + 1]);
            }
        }
    }
    let cb = Callback::new();
    god.wlim.register_at(cb_id, WaylandObject::Callback(cb));
    let ghost v2 = god.wlim@;
    let ghost q0 = god.wlmm.q@;
    s.frame(&mut god.wlmm, cb_id);
    win.frame = if win.frame == usize::MAX {
        0
    } else {
        win.frame + 1
    };
    let snapshot = Snapshot { w: bw, h: bh, pf: s.pf, frame: win.frame, presenter_id: 0 };
    proof {
        crate::ids::lemma_index_of_push_other(
            v1.entries,
            old(win).surface,
            cb_id,
            WaylandObject::Callback(cb),
        );
    }
    god.wlim.register_at(win.surface, WaylandObject::Surface(s));
    proof {
        assert forall|id2: Id|
            id2 != cb_id && id2 != old(win).surface implies #[trigger] spec_lookup(god.wlim@, id2)
            == spec_lookup(v0, id2) by {
            assert(spec_lookup(v1, id2) == spec_lookup(v0, id2));
            assert(spec_lookup(v2, id2) == spec_lookup(v1, id2));
            assert(spec_lookup(god.wlim@, id2) == spec_lookup(v2, id2));
        }
    }
    Ok(WorkStep::RenderFrame(snapshot))
}

/// Push the rendered frame: attach the buffer, damage it whole and commit,
/// queueing exactly those three requests in that order. Refused, with
/// nothing changed, when the window's surface or its attached buffer is not
/// mapped, or no buffer is attached.
pub fn present_frame(god: &mut God, win: &TopLevelWindow) -> (r: Result<(), WaylandError>)
    requires
        spec_wf(old(god).wlim@),
    ensures
        spec_wf(final(god).wlim@),
        r is Ok <==> match spec_surface_of(old(god).wlim@, win.surface) {
            Some(s) => s.attached_buf matches Some(b) && spec_buffer_of(old(god).wlim@, b)
                is Some,
            None => false,
        },
        forall|id2: Id|
            #[trigger] spec_lookup(final(god).wlim@, id2) == spec_lookup(old(god).wlim@, id2),
        r is Err ==> final(god).wlmm == old(god).wlmm,
        r is Ok ==> match spec_surface_of(old(god).wlim@, win.surface) {
            Some(s) => match s.attached_buf {
                Some(b) => match spec_buffer_of(old(god).wlim@, b) {
                    Some(bb) => {
                        &&& final(god).wlmm.outgoing@ == old(god).wlmm.outgoing@
                        &&& final(god).wlmm.q@.len() == old(god).wlmm.q@.len() + 3
                        &&& final(god).wlmm.q@.subrange(0, old(god).wlmm.q@.len() as int) == old(
                            god,
                        ).wlmm.q@
                        &&& (final(god).wlmm.q@[old(god).wlmm.q@.len() as int]
                            matches QueueEntry::Request(req, _) && req.sender_id == s.id
                            && req.opcode == 1 && req.args@ == seq![
                            WireArgument::Obj(b),
                            WireArgument::UnInt(0),
                            WireArgument::UnInt(0),
                        ])
                        &&& (final(god).wlmm.q@[old(god).wlmm.q@.len() as int + 1]
                            matches QueueEntry::Request(req, _) && req.sender_id == s.id
                            && req.opcode == 9 && req.args@ == seq![
                            WireArgument::Int(0),
                            WireArgument::Int(0),
                            WireArgument::Int(bb.width),
                            WireArgument::Int(bb.height),
                        ])
                        &&& (final(god).wlmm.q@[old(god).wlmm.q@.len() as int + 2]
                            matches QueueEntry::Request(req, _) && req.sender_id == s.id
                            && req.opcode == 6 && req.args@.len() == 0)
                    },
                    None => false,
                },
                None => false,
            },
            None => false,
        },
{
    let ghost v0 = god.wlim@;
    let s = match god.wlim.take_obj(win.surface) {
        Some(o) => match o {
            WaylandObject::Surface(s) => s,
            other => {
                let ghost og = other;
                god.wlim.register_at(win.surface, other);
                proof {
                    assert(spec_lookup(god.wlim@, win.surface) == Some(og));
                }
                return Err(WaylandError::ObjectNonExistentInWeak);
            },
        },
        None => {
            return Err(WaylandError::ObjectNonExistentInWeak);
        },
    };
    let ghost s0 = s;
    let ghost v1 = god.wlim@;
    let buf_id = match s.attached_buf {
        Some(b) => b,
        None => {
            god.wlim.register_at(win.surface, WaylandObject::Surface(s));
            proof {
                assert forall|id2: Id| #[trigger] spec_lookup(god.wlim@, id2) == spec_lookup(
                    v0,
                    id2,
                ) by {
                    if id2 != win.surface {
                        assert(spec_lookup(v1, id2) == spec_lookup(v0, id2));
                        assert(spec_lookup(god.wlim@, id2) == spec_lookup(v1, id2));
                    } else {
                        assert(spec_lookup(v0, id2) == Some(WaylandObject::Surface(s0)));
                        assert(spec_lookup(god.wlim@, id2) == Some(WaylandObject::Surface(s0)));
                    }
                }
            }
            return Err(WaylandError::BufferObjectNotAttached);
        },
    };
    proof {
        if buf_id != win.surface {
            assert(spec_lookup(v1, buf_id) == spec_lookup(v0, buf_id));
        }
    }
    let dims = match god.wlim.find_obj_by_id(buf_id) {
        Ok(o) => match o {
            WaylandObject::Buffer(b) => Some((b.width, b.height)),
            _ => None,
        },
        Err(_) => None,
    };
    let (bw, bh) = match dims {
        Some(d) => d,
        None => {
            god.wlim.register_at(win.surface, WaylandObject::Surface(s));
            proof {
                assert forall|id2: Id| #[trigger] spec_lookup(god.wlim@, id2) == spec_lookup(
                    v0,
                    id2,
                ) by {
                    if id2 != win.surface {
                        assert(spec_lookup(v1, id2) == spec_lookup(v0, id2));
                        assert(spec_lookup(god.wlim@, id2) == spec_lookup(v1, id2));
                    } else {
                        assert(spec_lookup(v0, id2) == Some(WaylandObject::Surface(s0)));
                        assert(spec_lookup(god.wlim@, id2) == Some(WaylandObject::Surface(s0)));
                    }
                }
            }
            return Err(WaylandError::BufferObjectNotAttached);
        },
    };
    let ghost q0 = god.wlmm.q@;
    let res = s.attach_buffer(&mut god.wlmm);
    proof {
        assert(res is Ok);
    }
    let ghost q1 = god.wlmm.q@;
    let res2 = s.repaint(&mut god.wlmm, bw, bh);
    proof {
        assert(res2 is Ok);
    }
    let ghost q2 = god.wlmm.q@;
    s.commit(&mut god.wlmm);
    god.wlim.register_at(win.surface, WaylandObject::Surface(s));
    proof {
        let q3 = god.wlmm.q@;
        assert(q2.subrange(0, q1.len() as int)[q0.len() as int] == q2[q0.len() as int]);
        assert(q3.subrange(0, q2.len() as int)[q0.len() as int] == q3[q0.len() as int]);
        assert(q3.subrange(0, q2.len() as int)[q0.len() as int + 1] == q3[q0.len() as int + 1]);
        assert forall|i: int| 0 <= i < q0.len() implies q3[i] == q0[i] by {
            assert(q3.subrange(0, q2.len() as int)[i] == q3[i]);
            assert(q2.subrange(0, q1.len() as int)[i] == q2[i]);
            assert(q1.subrange(0, q0.len() as int)[i] == q1[i]);
        }
        assert(q3.subrange(0, q0.len() as int) =~= q0);
        assert forall|id2: Id| #[trigger] spec_lookup(god.wlim@, id2) == spec_lookup(
            v0,
            id2,
        ) by {
            if id2 != win.surface {
                assert(spec_lookup(v1, id2) == spec_lookup(v0, id2));
                assert(spec_lookup(god.wlim@, id2) == spec_lookup(v1, id2));
            } else {
                assert(spec_lookup(v0, id2) == Some(WaylandObject::Surface(s0)));
                assert(spec_lookup(god.wlim@, id2) == Some(WaylandObject::Surface(s0)));
            }
        }
    }
    Ok(())
}

/// A copy of the pool's modelled pixel bytes, for the render callback to
/// paint over; refused when the id does not hold a pool.
pub fn read_pool_data(god: &God, pool_id: Id) -> (r: Result<Vec<u8>, WaylandError>)
    ensures
        r is Ok <==> (spec_lookup(god.wlim@, pool_id) matches Some(o)
            && o is SharedMemoryPool),
        match r {
            Ok(v) => spec_lookup(god.wlim@, pool_id) matches Some(o) && (o
                matches WaylandObject::SharedMemoryPool(p) && v@ == p.data@),
            Err(e) => e matches WaylandError::ObjectNonExistent,
        },
{
    match god.wlim.find_obj_by_id(pool_id) {
        Ok(o) => match o {
            WaylandObject::SharedMemoryPool(p) => Ok(vstd::slice::slice_to_vec(p.data.as_slice())),
            _ => Err(WaylandError::ObjectNonExistent),
        },
        Err(_) => Err(WaylandError::ObjectNonExistent),
    }
}

/// Replace the pool's modelled pixel bytes with a rendered frame of exactly
/// the pool's size; the embedding application mirrors the same bytes into
/// the real mapping. Refused when the id does not hold a pool or the frame
/// has the wrong length.
pub fn write_pool_data(god: &mut God, pool_id: Id, data: &[u8]) -> (r: Result<(), WaylandError>)
    requires
        spec_wf(old(god).wlim@),
    ensures
        spec_wf(final(god).wlim@),
        final(god).wlmm == old(god).wlmm,
        r is Ok <==> (spec_lookup(old(god).wlim@, pool_id) matches Some(o) && (o
            matches WaylandObject::SharedMemoryPool(p) && p.size >= 0 && data@.len() == p.size)),
        r is Ok ==> (spec_lookup(final(god).wlim@, pool_id) matches Some(o) && (o
            matches WaylandObject::SharedMemoryPool(p) && p.data@ == data@ && p.wf())),
        forall|id2: Id|
            id2 != pool_id ==> #[trigger] spec_lookup(final(god).wlim@, id2) == spec_lookup(
                old(god).wlim@,
                id2,
            ),
        r is Err ==> (forall|id2: Id|
            #[trigger] spec_lookup(final(god).wlim@, id2) == spec_lookup(old(god).wlim@, id2)),
{
    let ghost v0 = god.wlim@;
    match god.wlim.take_obj(pool_id) {
        Some(o) => match o {
            WaylandObject::SharedMemoryPool(mut p) => {
                let ghost p0 = p;
                let ghost v1 = god.wlim@;
                if p.size < 0 || data.len() != p.size as usize {
                    god.wlim.register_at(pool_id, WaylandObject::SharedMemoryPool(p));
                    proof {
                        assert forall|id2: Id| #[trigger] spec_lookup(god.wlim@, id2)
                            == spec_lookup(v0, id2) by {
                            if id2 != pool_id {
                                assert(spec_lookup(v1, id2) == spec_lookup(v0, id2));
                                assert(spec_lookup(god.wlim@, id2) == spec_lookup(v1, id2));
                            } else {
                                assert(spec_lookup(v0, id2) == Some(
                                    WaylandObject::SharedMemoryPool(p0),
                                ));
                                assert(spec_lookup(god.wlim@, id2) == Some(
                                    WaylandObject::SharedMemoryPool(p0),
                                ));
                            }
                        }
                    }
                    return Err(WaylandError::RequiredValueNone);
                }
                p.data = vstd::slice::slice_to_vec(data);
                god.wlim.register_at(pool_id, WaylandObject::SharedMemoryPool(p));
                Ok(())
            },
            other => {
                let ghost og = other;
                god.wlim.register_at(pool_id, other);
                proof {
                    assert(spec_lookup(god.wlim@, pool_id) == Some(og));
                }
                Err(WaylandError::ObjectNonExistent)
            },
        },
        None => Err(WaylandError::ObjectNonExistent),
    }
}

} // verus!
