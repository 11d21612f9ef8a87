//! `wl_callback`: a one-shot notification. Its single event, `done`, marks
//! the callback finished and carries a 32-bit datum.

use vstd::prelude::*;

use crate::errors::WaylandError;
use crate::objects::EventAction;
use crate::wire::{spec_parse_u32, parse_u32, Id};

verus! {

/// The state of one callback object: whether it has fired, and the datum it
/// fired with.
#[derive(Debug)]
pub struct Callback {
    pub done: bool,
    pub data: Option<u32>,
}

impl Callback {
    /// A callback that has not fired.
    pub fn new() -> (r: Callback)
        ensures
            !r.done,
            r.data is None,
    {
        Callback { done: false, data: None }
    }

    /// Everything `handle` promises, as a relation between the state before
    /// (`pre`) and after (`post`) and the result: `done` marks the callback
    /// finished, records its datum and surfaces it to the event loop; any
    /// other opcode is unknown on this interface and changes nothing.
    pub open spec fn spec_handle(
        pre: Callback,
        id: Id,
        opcode: int,
        payload: Seq<u8>,
        post: Callback,
        r: Result<Vec<EventAction>, WaylandError>,
    ) -> bool {
        &&& opcode == 0 ==> match spec_parse_u32(payload, 0) {
            Ok(d) => r matches Ok(acts) && post.done && post.data == Some(d) && acts@ == seq![
                EventAction::CallbackDone(id, d),
            ],
            Err(e) => r matches Err(e2) && e2 == e && post == pre,
        }
        &&& opcode != 0 ==> (r matches Err(e) && e matches WaylandError::InvalidOpCode(op, _)
            && op == opcode && post == pre)
    }

    /// Handle one event for the callback object registered under `id`.
    pub fn handle(&mut self, id: Id, opcode: usize, payload: &[u8]) -> (r: Result<
        Vec<EventAction>,
        WaylandError,
    >)
        ensures
            Callback::spec_handle(*old(self), id, opcode as int, payload@, *final(self), r),
    {
        match opcode {
            0 => {
                let data = match parse_u32(payload, 0) {
                    Ok(d) => d,
                    Err(e) => {
                        return Err(e);
                    },
                };
                self.done = true;
                self.data = Some(data);
                let mut acts: Vec<EventAction> = Vec::new();
                acts.push(EventAction::CallbackDone(id, data));
                assert(acts@ =~= seq![EventAction::CallbackDone(id, data)]);
                Ok(acts)
            },
            inv => Err(WaylandError::InvalidOpCode(inv, "wl_callback")),
        }
    }
}

} // verus!
