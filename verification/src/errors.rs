//! The library's error taxonomy, and the protocol-error record that a
//! `wl_display.error` event carries.

use vstd::prelude::*;

verus! {

/// Index of a request or event within its interface.
pub type OpCode = usize;

/// Everything that can go wrong inside the protocol core.
#[derive(Debug, PartialEq, Eq)]
pub enum WaylandError {
    ParseError,
    RecvLenBad,
    NotInRegistry,
    IdMapRemovalFail,
    ObjectNonExistent,
    InvalidPixelFormat,
    InvalidOpCode(OpCode, &'static str),
    NoSerial,
    InvalidEnumVariant,
    BufferObjectNotAttached,
    ObjectNonExistentInWeak,
    RequiredValueNone,
    NoWaylandDisplay,
    EmptyFromWirePayload,
    FdExpected,
}

impl WaylandError {
    pub fn boxed(self) -> (r: Box<WaylandError>)
        ensures
            *r == self,
    {
        Box::new(self)
    }

    /// A human-readable account of the error, one fixed phrase per variant.
    pub fn describe(&self) -> (r: &'static str)
        ensures
            r@ == self.spec_describe(),
    {
        match self {
            WaylandError::ParseError => "parse error",
            WaylandError::RecvLenBad => "received len is bad",
            WaylandError::NotInRegistry => "given name was not found in the registry",
            WaylandError::IdMapRemovalFail => "failed to remove from id man map",
            WaylandError::ObjectNonExistent => "object non existent",
            WaylandError::InvalidPixelFormat => "an invalid pixel format has been received",
            WaylandError::InvalidOpCode(_, _) => "an invalid opcode has been received",
            WaylandError::NoSerial => "no serial has been found",
            WaylandError::InvalidEnumVariant => "an invalid enum variant has been received",
            WaylandError::BufferObjectNotAttached => "no buffer object attached to the surface",
            WaylandError::ObjectNonExistentInWeak => "no object was found behind a reference",
            WaylandError::RequiredValueNone => "an option with a required value was None",
            WaylandError::NoWaylandDisplay => "WAYLAND_DISPLAY is not set",
            WaylandError::EmptyFromWirePayload => "a wire payload was empty",
            WaylandError::FdExpected => "a file descriptor was expected but none came",
        }
    }

    pub open spec fn spec_describe(&self) -> Seq<char> {
        match self {
            WaylandError::ParseError => "parse error"@,
            WaylandError::RecvLenBad => "received len is bad"@,
            WaylandError::NotInRegistry => "given name was not found in the registry"@,
            WaylandError::IdMapRemovalFail => "failed to remove from id man map"@,
            WaylandError::ObjectNonExistent => "object non existent"@,
            WaylandError::InvalidPixelFormat => "an invalid pixel format has been received"@,
            WaylandError::InvalidOpCode(_, _) => "an invalid opcode has been received"@,
            WaylandError::NoSerial => "no serial has been found"@,
            WaylandError::InvalidEnumVariant => "an invalid enum variant has been received"@,
            WaylandError::BufferObjectNotAttached => "no buffer object attached to the surface"@,
            WaylandError::ObjectNonExistentInWeak => "no object was found behind a reference"@,
            WaylandError::RequiredValueNone => "an option with a required value was None"@,
            WaylandError::NoWaylandDisplay => "WAYLAND_DISPLAY is not set"@,
            WaylandError::EmptyFromWirePayload => "a wire payload was empty"@,
            WaylandError::FdExpected => "a file descriptor was expected but none came"@,
        }
    }
}

/// A protocol error reported by the compositor via `wl_display.error`:
/// the offending object, an interface-specific code, and a message.
#[derive(Debug)]
pub struct RecvError {
    pub id: u32,
    pub code: u32,
    pub msg: String,
}

impl RecvError {
    pub fn boxed(self) -> (r: Box<RecvError>)
        ensures
            *r == self,
    {
        Box::new(self)
    }
}

/// Unwrapping of optional values into the library's error taxonomy: a
/// missing value becomes `ObjectNonExistentInWeak`.
pub trait ExpectRc<T>: Sized {
    spec fn spec_value(&self) -> Option<T>;

    fn to_wl_err(self) -> (r: Result<T, WaylandError>)
        ensures
            match self.spec_value() {
                Option::Some(v) => r matches Ok(rv) && rv == v,
                Option::None => r matches Err(e) && e matches WaylandError::ObjectNonExistentInWeak,
            },
    ;
}

impl<T> ExpectRc<T> for Option<T> {
    open spec fn spec_value(&self) -> Option<T> {
        *self
    }

    fn to_wl_err(self) -> (r: Result<T, WaylandError>) {
        match self {
            Option::Some(x) => Ok(x),
            Option::None => Err(WaylandError::ObjectNonExistentInWeak),
        }
    }
}

} // verus!
