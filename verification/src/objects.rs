//! What a protocol object's event handler hands back to the event loop: a
//! list of actions, collected while the handler runs and applied by the loop
//! afterwards, so that no handler ever re-enters the loop.

use vstd::prelude::*;

use crate::buffer::Buffer;
use crate::callback::Callback;
use crate::compositor::Compositor;
use crate::display::Display;
use crate::dmabuf::{DmaBuf, DmaFeedback};
use crate::errors::{RecvError, WaylandError};
use crate::kind::WaylandObjectKind;
use crate::registry::Registry;
use crate::shm::{SharedMemory, SharedMemoryPool};
use crate::surface::Surface;
use crate::wire::{Id, WireRequest};
use crate::xdgshell::{XdgSurface, XdgTopLevel, XdgWmBase};
use crate::DebugLevel;

verus! {

/// One intent produced by an event handler.
pub enum EventAction {
    /// Enqueue this outbound request.
    Request(WireRequest),
    /// Free this id in the identifier manager.
    IdDeletion(Id),
    /// A protocol-level error was reported by the compositor.
    Error(RecvError),
    /// Emit a log line.
    DebugMessage(DebugLevel, &'static str),
    /// Apply new geometry to the surface under the given `xdg_surface` id.
    Resize(i32, i32, Id),
    /// The callback object with this id has fired, carrying this datum.
    CallbackDone(Id, u32),
    /// Remove this id from the id-map without recycling it.
    DropObject(Id),
}

/// A live protocol object: the per-interface state behind one id of the
/// id-map.
#[derive(Debug)]
pub enum WaylandObject {
    Display(Display),
    Registry(Registry),
    Callback(Callback),
    Compositor(Compositor),
    Surface(Surface),
    SharedMemory(SharedMemory),
    SharedMemoryPool(SharedMemoryPool),
    Buffer(Buffer),
    XdgWmBase(XdgWmBase),
    XdgSurface(XdgSurface),
    XdgTopLevel(XdgTopLevel),
    DmaBuf(DmaBuf),
    DmaFeedback(DmaFeedback),
}

impl WaylandObject {
    /// The interface this object speaks.
    pub open spec fn spec_kind(&self) -> WaylandObjectKind {
        match self {
            WaylandObject::Display(_) => WaylandObjectKind::Display,
            WaylandObject::Registry(_) => WaylandObjectKind::Registry,
            WaylandObject::Callback(_) => WaylandObjectKind::Callback,
            WaylandObject::Compositor(_) => WaylandObjectKind::Compositor,
            WaylandObject::Surface(_) => WaylandObjectKind::Surface,
            WaylandObject::SharedMemory(_) => WaylandObjectKind::SharedMemory,
            WaylandObject::SharedMemoryPool(_) => WaylandObjectKind::SharedMemoryPool,
            WaylandObject::Buffer(_) => WaylandObjectKind::Buffer,
            WaylandObject::XdgWmBase(_) => WaylandObjectKind::XdgWmBase,
            WaylandObject::XdgSurface(_) => WaylandObjectKind::XdgSurface,
            WaylandObject::XdgTopLevel(_) => WaylandObjectKind::XdgTopLevel,
            WaylandObject::DmaBuf(_) => WaylandObjectKind::DmaBuf,
            WaylandObject::DmaFeedback(_) => WaylandObjectKind::DmaFeedback,
        }
    }

    pub fn kind(&self) -> (r: WaylandObjectKind)
        ensures
            r == self.spec_kind(),
    {
        match self {
            WaylandObject::Display(_) => WaylandObjectKind::Display,
            WaylandObject::Registry(_) => WaylandObjectKind::Registry,
            WaylandObject::Callback(_) => WaylandObjectKind::Callback,
            WaylandObject::Compositor(_) => WaylandObjectKind::Compositor,
            WaylandObject::Surface(_) => WaylandObjectKind::Surface,
            WaylandObject::SharedMemory(_) => WaylandObjectKind::SharedMemory,
            WaylandObject::SharedMemoryPool(_) => WaylandObjectKind::SharedMemoryPool,
            WaylandObject::Buffer(_) => WaylandObjectKind::Buffer,
            WaylandObject::XdgWmBase(_) => WaylandObjectKind::XdgWmBase,
            WaylandObject::XdgSurface(_) => WaylandObjectKind::XdgSurface,
            WaylandObject::XdgTopLevel(_) => WaylandObjectKind::XdgTopLevel,
            WaylandObject::DmaBuf(_) => WaylandObjectKind::DmaBuf,
            WaylandObject::DmaFeedback(_) => WaylandObjectKind::DmaFeedback,
        }
    }

    /// Dispatch one event to the object's own handler. The object never
    /// changes interface, and for each interface the result and the final
    /// state satisfy that interface's own handler relation.
    pub fn handle(&mut self, id: Id, opcode: usize, payload: &[u8], fds: &[i32]) -> (r: Result<
        Vec<EventAction>,
        WaylandError,
    >)
        ensures
            final(self).spec_kind() == old(self).spec_kind(),
            *old(self) matches WaylandObject::Display(_) ==> (*final(self) == *old(self)
                && Display::spec_handle(opcode as int, payload@, r)),
            *old(self) matches WaylandObject::Registry(g0) ==> (*final(self)
                matches WaylandObject::Registry(g1) && Registry::spec_handle(
                g0,
                opcode as int,
                payload@,
                g1,
                r,
            )),
            *old(self) matches WaylandObject::Callback(c0) ==> (*final(self)
                matches WaylandObject::Callback(c1) && Callback::spec_handle(
                c0,
                id,
                opcode as int,
                payload@,
                c1,
                r,
            )),
            *old(self) matches WaylandObject::Compositor(_) ==> (*final(self) == *old(self)
                && Compositor::spec_handle(opcode as int, r)),
            *old(self) matches WaylandObject::Surface(s0) ==> (*final(self)
                matches WaylandObject::Surface(s1) && Surface::spec_handle(
                s0,
                opcode as int,
                s1,
                r,
            )),
            *old(self) matches WaylandObject::SharedMemory(m0) ==> (*final(self)
                matches WaylandObject::SharedMemory(m1) && SharedMemory::spec_handle(
                m0,
                opcode as int,
                payload@,
                m1,
                r,
            )),
            *old(self) matches WaylandObject::SharedMemoryPool(_) ==> (*final(self) == *old(self)
                && (r matches Err(e) && e matches WaylandError::InvalidOpCode(op, _) && op
                == opcode)),
            *old(self) matches WaylandObject::Buffer(b0) ==> (*final(self)
                matches WaylandObject::Buffer(b1) && Buffer::spec_handle(
                b0,
                opcode as int,
                b1,
                r,
            )),
            *old(self) matches WaylandObject::XdgWmBase(w0) ==> (*final(self) == *old(self)
                && XdgWmBase::spec_handle(w0, opcode as int, payload@, r)),
            *old(self) matches WaylandObject::XdgSurface(x0) ==> (*final(self)
                matches WaylandObject::XdgSurface(x1) && XdgSurface::spec_handle(
                x0,
                opcode as int,
                payload@,
                x1,
                r,
            )),
            *old(self) matches WaylandObject::XdgTopLevel(t0) ==> (*final(self)
                matches WaylandObject::XdgTopLevel(t1) && XdgTopLevel::spec_handle(
                t0,
                opcode as int,
                payload@,
                t1,
                r,
            )),
            *old(self) matches WaylandObject::DmaBuf(_) ==> (*final(self) == *old(self)
                && DmaBuf::spec_handle(opcode as int, r)),
            *old(self) matches WaylandObject::DmaFeedback(f0) ==> (*final(self)
                matches WaylandObject::DmaFeedback(f1) && DmaFeedback::spec_handle(
                f0,
                opcode as int,
                payload@,
                fds@,
                f1,
                r,
            )),
    {
        match self {
            WaylandObject::Display(o) => o.handle(opcode, payload),
            WaylandObject::Registry(o) => o.handle(opcode, payload),
            WaylandObject::Callback(o) => o.handle(id, opcode, payload),
            WaylandObject::Compositor(o) => o.handle(opcode, payload),
            WaylandObject::Surface(o) => o.handle(opcode, payload),
            WaylandObject::SharedMemory(o) => o.handle(opcode, payload),
            WaylandObject::SharedMemoryPool(_) => Err(
                WaylandError::InvalidOpCode(opcode, "wl_shm_pool"),
            ),
            WaylandObject::Buffer(o) => o.handle(opcode, payload),
            WaylandObject::XdgWmBase(o) => o.handle(opcode, payload),
            WaylandObject::XdgSurface(o) => o.handle(opcode, payload),
            WaylandObject::XdgTopLevel(o) => o.handle(opcode, payload),
            WaylandObject::DmaBuf(o) => o.handle(opcode, payload),
            WaylandObject::DmaFeedback(o) => o.handle(opcode, payload, fds),
        }
    }
}

} // verus!
