//! `wl_surface`: the unit of presentation. The surface remembers its
//! attached buffer, its committed dimensions, its pixel format and its
//! pending frame callback; its requests attach, damage and commit content
//! and ask for frame-done notifications.

use vstd::prelude::*;

use crate::errors::WaylandError;
use crate::kind::WaylandObjectKind;
use crate::objects::EventAction;
use crate::shm::PixelFormat;
use crate::wire::{Id, MessageManager, QueueEntry, WireArgument, WireRequest};

verus! {

/// The state of one surface.
#[derive(Debug)]
pub struct Surface {
    pub id: Id,
    pub attached_buf: Option<Id>,
    pub pf: PixelFormat,
    pub w: i32,
    pub h: i32,
    pub frame_cb: Option<Id>,
}

impl Surface {
    /// A fresh surface: nothing attached, no committed size, no pending
    /// frame callback.
    pub fn new(id: Id, pf: PixelFormat) -> (r: Surface)
        ensures
            r.id == id,
            r.pf == pf,
            r.attached_buf is None,
            r.frame_cb is None,
            r.w == 0 && r.h == 0,
    {
        Surface { id, attached_buf: None, pf, w: 0, h: 0, frame_cb: None }
    }

    /// The surface's destroy request.
    pub fn wl_destroy(&self) -> (r: WireRequest)
        ensures
            r.sender_id == self.id && r.opcode == 0 && r.args@ == Seq::<WireArgument>::empty(),
    {
        let args: Vec<WireArgument> = Vec::new();
        assert(args@ =~= Seq::<WireArgument>::empty());
        WireRequest { sender_id: self.id, opcode: 0, args }
    }

    /// The attach request: the buffer to show, at offset (0, 0).
    pub fn wl_attach(&self, buf_id: Id) -> (r: WireRequest)
        ensures
            r.sender_id == self.id && r.opcode == 1 && r.args@ == seq![
                WireArgument::Obj(buf_id),
                WireArgument::UnInt(0),
                WireArgument::UnInt(0),
            ],
    {
        let mut args: Vec<WireArgument> = Vec::new();
        args.push(WireArgument::Obj(buf_id));
        args.push(WireArgument::UnInt(0));
        args.push(WireArgument::UnInt(0));
        assert(args@ =~= seq![
            WireArgument::Obj(buf_id),
            WireArgument::UnInt(0),
            WireArgument::UnInt(0),
        ]);
        WireRequest { sender_id: self.id, opcode: 1, args }
    }

    /// The commit request.
    pub fn wl_commit(&self) -> (r: WireRequest)
        ensures
            r.sender_id == self.id && r.opcode == 6 && r.args@ == Seq::<WireArgument>::empty(),
    {
        let args: Vec<WireArgument> = Vec::new();
        assert(args@ =~= Seq::<WireArgument>::empty());
        WireRequest { sender_id: self.id, opcode: 6, args }
    }

    /// The damage request for a rectangle in buffer coordinates.
    pub fn wl_damage_buffer(&self, x: i32, y: i32, w: i32, h: i32) -> (r: WireRequest)
        ensures
            r.sender_id == self.id && r.opcode == 9 && r.args@ == seq![
                WireArgument::Int(x),
                WireArgument::Int(y),
                WireArgument::Int(w),
                WireArgument::Int(h),
            ],
    {
        let mut args: Vec<WireArgument> = Vec::new();
        args.push(WireArgument::Int(x));
        args.push(WireArgument::Int(y));
        args.push(WireArgument::Int(w));
        args.push(WireArgument::Int(h));
        assert(args@ =~= seq![
            WireArgument::Int(x),
            WireArgument::Int(y),
            WireArgument::Int(w),
            WireArgument::Int(h),
        ]);
        WireRequest { sender_id: self.id, opcode: 9, args }
    }

    /// The frame request, naming the callback object that will fire when
    /// the compositor wants the next frame.
    pub fn wl_frame(&self, id: Id) -> (r: WireRequest)
        ensures
            r.sender_id == self.id && r.opcode == 3 && r.args@ == seq![WireArgument::NewId(id)],
    {
        let mut args: Vec<WireArgument> = Vec::new();
        args.push(WireArgument::NewId(id));
        assert(args@ =~= seq![WireArgument::NewId(id)]);
        WireRequest { sender_id: self.id, opcode: 3, args }
    }

    /// Queue the surface's destroy request.
    pub fn destroy(&self, wlmm: &mut MessageManager)
        ensures
            final(wlmm).outgoing@ == old(wlmm).outgoing@,
            final(wlmm).q@.len() == old(wlmm).q@.len() + 1,
            final(wlmm).q@.subrange(0, old(wlmm).q@.len() as int) == old(wlmm).q@,
            final(wlmm).q@.last() matches QueueEntry::Request(req, k)
                && k == WaylandObjectKind::Surface && req.sender_id == self.id && req.opcode == 0,
    {
        let req = self.wl_destroy();
        wlmm.queue_request(req, WaylandObjectKind::Surface);
        assert(final(wlmm).q@.subrange(0, old(wlmm).q@.len() as int) =~= old(wlmm).q@);
    }

    /// Remember `buf_id` as the attached buffer and queue the attach
    /// request for it.
    pub fn attach_buffer_obj_and_att(&mut self, wlmm: &mut MessageManager, buf_id: Id)
        ensures
            *final(self) == (Surface { attached_buf: Some(buf_id), ..*old(self) }),
            final(wlmm).outgoing@ == old(wlmm).outgoing@,
            final(wlmm).q@.len() == old(wlmm).q@.len() + 1,
            final(wlmm).q@.subrange(0, old(wlmm).q@.len() as int) == old(wlmm).q@,
            final(wlmm).q@.last() matches QueueEntry::Request(req, k)
                && k == WaylandObjectKind::Surface && req.sender_id == old(self).id && req.opcode
                == 1 && req.args@ == seq![
                WireArgument::Obj(buf_id),
                WireArgument::UnInt(0),
                WireArgument::UnInt(0),
            ],
    {
        self.attached_buf = Some(buf_id);
        let r = self.attach_buffer(wlmm);
        proof {
            assert(r matches Ok(_));
        }
    }

    /// Queue the attach request for the currently attached buffer; without
    /// one there is nothing to attach and the call reports it.
    pub fn attach_buffer(&self, wlmm: &mut MessageManager) -> (r: Result<(), WaylandError>)
        ensures
            match self.attached_buf {
                Some(buf_id) => r matches Ok(_) && final(wlmm).outgoing@ == old(wlmm).outgoing@
                    && final(wlmm).q@.len() == old(wlmm).q@.len() + 1 && final(wlmm).q@.subrange(
                    0,
                    old(wlmm).q@.len() as int,
                ) == old(wlmm).q@ && (final(wlmm).q@.last() matches QueueEntry::Request(req, k)
                    && k == WaylandObjectKind::Surface && req.sender_id == self.id && req.opcode
                    == 1 && req.args@ == seq![
                    WireArgument::Obj(buf_id),
                    WireArgument::UnInt(0),
                    WireArgument::UnInt(0),
                ]),
                None => (r matches Err(e) && e matches WaylandError::BufferObjectNotAttached)
                    && *final(wlmm) == *old(wlmm),
            },
    {
        match self.attached_buf {
            Some(buf_id) => {
                let req = self.wl_attach(buf_id);
                wlmm.queue_request(req, WaylandObjectKind::Surface);
                assert(final(wlmm).q@.subrange(0, old(wlmm).q@.len() as int) =~= old(wlmm).q@);
                Ok(())
            },
            None => Err(WaylandError::BufferObjectNotAttached),
        }
    }

    /// Queue the commit request.
    pub fn commit(&self, wlmm: &mut MessageManager)
        ensures
            final(wlmm).outgoing@ == old(wlmm).outgoing@,
            final(wlmm).q@.len() == old(wlmm).q@.len() + 1,
            final(wlmm).q@.subrange(0, old(wlmm).q@.len() as int) == old(wlmm).q@,
            final(wlmm).q@.last() matches QueueEntry::Request(req, k)
                && k == WaylandObjectKind::Surface && req.sender_id == self.id && req.opcode == 6
                && req.args@.len() == 0,
    {
        let req = self.wl_commit();
        wlmm.queue_request(req, WaylandObjectKind::Surface);
        assert(final(wlmm).q@.subrange(0, old(wlmm).q@.len() as int) =~= old(wlmm).q@);
    }

    /// Queue a damage request for the given rectangle.
    pub fn damage_buffer(&self, wlmm: &mut MessageManager, x: i32, y: i32, w: i32, h: i32)
        ensures
            final(wlmm).outgoing@ == old(wlmm).outgoing@,
            final(wlmm).q@.len() == old(wlmm).q@.len() + 1,
            final(wlmm).q@.subrange(0, old(wlmm).q@.len() as int) == old(wlmm).q@,
            final(wlmm).q@.last() matches QueueEntry::Request(req, k)
                && k == WaylandObjectKind::Surface && req.sender_id == self.id && req.opcode == 9
                && req.args@ == seq![
                WireArgument::Int(x),
                WireArgument::Int(y),
                WireArgument::Int(w),
                WireArgument::Int(h),
            ],
    {
        let req = self.wl_damage_buffer(x, y, w, h);
        wlmm.queue_request(req, WaylandObjectKind::Surface);
        assert(final(wlmm).q@.subrange(0, old(wlmm).q@.len() as int) =~= old(wlmm).q@);
    }

    /// Damage the whole attached buffer, whose dimensions the caller reads
    /// from the buffer object; without an attached buffer there is nothing
    /// to repaint.
    pub fn repaint(&self, wlmm: &mut MessageManager, buf_w: i32, buf_h: i32) -> (r: Result<
        (),
        WaylandError,
    >)
        ensures
            self.attached_buf is Some ==> (r matches Ok(_) && final(wlmm).outgoing@ == old(wlmm).outgoing@ && final(wlmm).q@.len() == old(wlmm).q@.len() + 1 && final(wlmm).q@.subrange(
                0,
                old(wlmm).q@.len() as int,
            ) == old(wlmm).q@ && (final(wlmm).q@.last() matches QueueEntry::Request(req, _) && req.sender_id == self.id
                && req.opcode == 9 && req.args@ == seq![
                WireArgument::Int(0),
                WireArgument::Int(0),
                WireArgument::Int(buf_w),
                WireArgument::Int(buf_h),
            ])),
            self.attached_buf is None ==> (r matches Err(e)
                && e matches WaylandError::BufferObjectNotAttached) && *final(wlmm) == *old(wlmm),
    {
        if self.attached_buf.is_some() {
            self.damage_buffer(wlmm, 0, 0, buf_w, buf_h);
            Ok(())
        } else {
            Err(WaylandError::BufferObjectNotAttached)
        }
    }

    /// Record `cb_id` as the surface's one pending frame callback and queue
    /// the frame request that names it. Between two calls of this function
    /// the surface holds exactly this one callback token.
    pub fn frame(&mut self, wlmm: &mut MessageManager, cb_id: Id)
        ensures
            *final(self) == (Surface { frame_cb: Some(cb_id), ..*old(self) }),
            final(wlmm).outgoing@ == old(wlmm).outgoing@,
            final(wlmm).q@.len() == old(wlmm).q@.len() + 1,
            final(wlmm).q@.subrange(0, old(wlmm).q@.len() as int) == old(wlmm).q@,
            final(wlmm).q@.last() matches QueueEntry::Request(req, k)
                && k == WaylandObjectKind::Surface && req.sender_id == old(self).id && req.opcode
                == 3 && req.args@ == seq![WireArgument::NewId(cb_id)],
    {
        self.frame_cb = Some(cb_id);
        let req = self.wl_frame(cb_id);
        wlmm.queue_request(req, WaylandObjectKind::Surface);
        assert(final(wlmm).q@.subrange(0, old(wlmm).q@.len() as int) =~= old(wlmm).q@);
    }

    /// Everything `handle` promises, as a relation: the surface receives no
    /// events that this client handles, so every opcode is refused and the
    /// state kept.
    pub open spec fn spec_handle(
        pre: Surface,
        opcode: int,
        post: Surface,
        r: Result<Vec<EventAction>, WaylandError>,
    ) -> bool {
        &&& post == pre
        &&& r matches Err(e) && e matches WaylandError::InvalidOpCode(op, _) && op == opcode
    }

    /// Handle one event for the surface.
    pub fn handle(&mut self, opcode: usize, _payload: &[u8]) -> (r: Result<
        Vec<EventAction>,
        WaylandError,
    >)
        ensures
            Surface::spec_handle(*old(self), opcode as int, *final(self), r),
    {
        Err(WaylandError::InvalidOpCode(opcode, "wl_surface"))
    }
}

} // verus!
