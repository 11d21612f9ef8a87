//! The catalog of interfaces this client speaks, and their wire names.

use vstd::prelude::*;

verus! {

/// Every interface a live object can belong to.
#[derive(Clone, Copy, Debug, PartialEq, Eq, Structural)]
pub enum WaylandObjectKind {
    Display,
    Registry,
    Callback,
    Compositor,
    Surface,
    SharedMemory,
    SharedMemoryPool,
    Buffer,
    XdgWmBase,
    XdgSurface,
    XdgTopLevel,
    DmaBuf,
    DmaFeedback,
    DmaBufferParams,
}

impl WaylandObjectKind {
    /// The interface's name as it appears on the wire (in `wl_registry.global`
    /// events and `wl_registry.bind` requests).
    pub open spec fn spec_name(self) -> Seq<char> {
        match self {
            WaylandObjectKind::Display => "wl_display"@,
            WaylandObjectKind::Registry => "wl_registry"@,
            WaylandObjectKind::Callback => "wl_callback"@,
            WaylandObjectKind::Compositor => "wl_compositor"@,
            WaylandObjectKind::Surface => "wl_surface"@,
            WaylandObjectKind::SharedMemory => "wl_shm"@,
            WaylandObjectKind::SharedMemoryPool => "wl_shm_pool"@,
            WaylandObjectKind::Buffer => "wl_buffer"@,
            WaylandObjectKind::XdgWmBase => "xdg_wm_base"@,
            WaylandObjectKind::XdgSurface => "xdg_surface"@,
            WaylandObjectKind::XdgTopLevel => "xdg_toplevel"@,
            WaylandObjectKind::DmaBuf => "zwp_linux_dmabuf_v1"@,
            WaylandObjectKind::DmaFeedback => "zwp_linux_dmabuf_feedback_v1"@,
            WaylandObjectKind::DmaBufferParams => "zwp_linux_buffer_params_v1"@,
        }
    }

    pub fn as_str(&self) -> (r: &'static str)
        ensures
            r@ == self.spec_name(),
    {
        match self {
            WaylandObjectKind::Display => "wl_display",
            WaylandObjectKind::Registry => "wl_registry",
            WaylandObjectKind::Callback => "wl_callback",
            WaylandObjectKind::Compositor => "wl_compositor",
            WaylandObjectKind::Surface => "wl_surface",
            WaylandObjectKind::SharedMemory => "wl_shm",
            WaylandObjectKind::SharedMemoryPool => "wl_shm_pool",
            WaylandObjectKind::Buffer => "wl_buffer",
            WaylandObjectKind::XdgWmBase => "xdg_wm_base",
            WaylandObjectKind::XdgSurface => "xdg_surface",
            WaylandObjectKind::XdgTopLevel => "xdg_toplevel",
            WaylandObjectKind::DmaBuf => "zwp_linux_dmabuf_v1",
            WaylandObjectKind::DmaFeedback => "zwp_linux_dmabuf_feedback_v1",
            WaylandObjectKind::DmaBufferParams => "zwp_linux_buffer_params_v1",
        }
    }
}

} // verus!
