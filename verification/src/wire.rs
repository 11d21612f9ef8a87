//! The wire codec: typed request arguments, their binary encoding, the
//! eight-byte frame header, and the parsers for inbound event payloads.
//!
//! Every message starts with a header of two 32-bit words: the object id, then
//! `size << 16 | opcode`, where `size` counts the whole message including the
//! header. Scalar arguments occupy four bytes; strings and arrays carry a
//! 32-bit length prefix and are zero-padded to a four-byte boundary; file
//! descriptors contribute no payload bytes at all (they travel as ancillary
//! data, which the embedding application attaches to the frame's single send).

use vstd::prelude::*;

use crate::bytes::{
    lemma_pad4, lemma_u32_le_roundtrip, read_u16_le, read_u32_le, spec_pad4, spec_u16_of,
    spec_u32_bytes, spec_u32_of, spec_zeros, push_u32_le,
};
use crate::errors::{OpCode, WaylandError};
use crate::kind::WaylandObjectKind;
use vstd::utf8::encode_utf8;

verus! {

/// A protocol object identifier.
pub type Id = u32;

/// The UTF-8 bytes of a string, as they appear on the wire before the
/// terminating NUL.
pub open spec fn spec_string_bytes(s: String) -> Seq<u8> {
    encode_utf8(s@)
}

/// The wire form of a length-prefixed, NUL-terminated, padded string whose
/// content bytes are `bs`.
pub open spec fn spec_wire_string(bs: Seq<u8>) -> Seq<u8> {
    spec_u32_bytes((bs.len() + 1) as u32) + bs + seq![0u8] + spec_zeros(
        spec_pad4(bs.len() + 1 as int) - (bs.len() + 1 as int),
    )
}

/// The wire form of a length-prefixed, padded byte array.
pub open spec fn spec_wire_array(bs: Seq<u8>) -> Seq<u8> {
    spec_u32_bytes(bs.len() as u32) + bs + spec_zeros(spec_pad4(bs.len() as int) - bs.len())
}

/// One typed argument of an outbound request.
#[derive(Debug)]
pub enum WireArgument {
    Int(i32),
    UnInt(u32),
    FixedPrecision(u32),
    Str(String),
    Obj(u32),
    NewId(u32),
    NewIdSpecific(String, u32, u32),
    Arr(Vec<u8>),
    FileDescriptor(i32),
}

/// The kinds of wire argument, without their values.
#[derive(Debug)]
pub enum WireArgumentKind {
    Int,
    UnInt,
    FixedPrecision,
    Str,
    Obj,
    NewId,
    NewIdSpecific,
    Arr,
    FileDescriptor,
}

/// The payload bytes an argument contributes to its message.
pub open spec fn spec_arg_payload(a: WireArgument) -> Seq<u8> {
    match a {
        WireArgument::Int(x) => spec_u32_bytes(x as u32),
        WireArgument::UnInt(x) => spec_u32_bytes(x),
        WireArgument::FixedPrecision(x) => spec_u32_bytes(x),
        WireArgument::Str(s) => spec_wire_string(spec_string_bytes(s)),
        WireArgument::Obj(x) => spec_u32_bytes(x),
        WireArgument::NewId(x) => spec_u32_bytes(x),
        WireArgument::NewIdSpecific(n, ver, id) => spec_wire_string(spec_string_bytes(n))
            + spec_u32_bytes(ver) + spec_u32_bytes(id),
        WireArgument::Arr(v) => spec_wire_array(v@),
        WireArgument::FileDescriptor(_) => Seq::empty(),
    }
}

/// The file descriptors an argument carries out of band.
pub open spec fn spec_arg_fds(a: WireArgument) -> Seq<i32> {
    match a {
        WireArgument::FileDescriptor(fd) => seq![fd],
        _ => Seq::empty(),
    }
}

/// An argument is encodable when its payload fits the 16-bit size field of
/// the frame header.
pub open spec fn wire_arg_wf(a: WireArgument) -> bool {
    spec_arg_payload(a).len() <= 0xFFFF
}

impl WireArgument {
    /// How many payload bytes this argument encodes to.
    pub fn size(&self) -> (r: usize)
        requires
            wire_arg_wf(*self),
        ensures
            r == spec_arg_payload(*self).len(),
    {
        match self {
            WireArgument::Int(_) => 4,
            WireArgument::UnInt(_) => 4,
            WireArgument::FixedPrecision(_) => 4,
            WireArgument::Str(s) => {
                let l = s.as_str().as_bytes().len();
                proof {
                    lemma_pad4(l + 1);
                }
                4 + pad4_len(l + 1)
            },
            WireArgument::Obj(_) => 4,
            WireArgument::NewId(_) => 4,
            WireArgument::NewIdSpecific(n, _, _) => {
                let l = n.as_str().as_bytes().len();
                proof {
                    lemma_pad4(l + 1);
                }
                12 + pad4_len(l + 1)
            },
            WireArgument::Arr(v) => {
                let l = v.len();
                proof {
                    lemma_pad4(l as int);
                }
                4 + pad4_len(l)
            },
            WireArgument::FileDescriptor(_) => 0,
        }
    }

    /// The payload bytes of this argument; a file descriptor encodes to
    /// nothing.
    pub fn as_vec_u8(&self) -> (r: Vec<u8>)
        requires
            wire_arg_wf(*self),
        ensures
            r@ == spec_arg_payload(*self),
    {
        let mut out: Vec<u8> = Vec::new();
        match self {
            WireArgument::Int(x) => {
                push_u32_le(&mut out, #[verifier::truncate] (*x as u32));
            },
            WireArgument::UnInt(x) => {
                push_u32_le(&mut out, *x);
            },
            WireArgument::FixedPrecision(x) => {
                push_u32_le(&mut out, *x);
            },
            WireArgument::Str(s) => {
                push_wire_string(&mut out, s.as_str().as_bytes());
            },
            WireArgument::Obj(x) => {
                push_u32_le(&mut out, *x);
            },
            WireArgument::NewId(x) => {
                push_u32_le(&mut out, *x);
            },
            WireArgument::NewIdSpecific(n, ver, id) => {
                push_wire_string(&mut out, n.as_str().as_bytes());
                push_u32_le(&mut out, *ver);
                push_u32_le(&mut out, *id);
                assert(out@ =~= spec_arg_payload(*self));
            },
            WireArgument::Arr(v) => {
                proof {
                    lemma_pad4(v@.len() as int);
                }
                push_u32_le(&mut out, v.len() as u32);
                push_bytes(&mut out, v.as_slice());
                crate::bytes::pad_to_4(&mut out);
                assert(out@ =~= spec_wire_array(v@));
            },
            WireArgument::FileDescriptor(_) => {},
        }
        assert(out@ =~= spec_arg_payload(*self));
        out
    }
}

/// Round `n` up to the next multiple of four.
pub fn pad4_len(n: usize) -> (r: usize)
    requires
        n + 3 <= usize::MAX,
    ensures
        r == spec_pad4(n as int),
{
    ((n + 3) / 4) * 4
}

/// Append every byte of `bs` to `buf`.
pub fn push_bytes(buf: &mut Vec<u8>, bs: &[u8])
    ensures
        final(buf)@ == old(buf)@ + bs@,
{
    let mut i: usize = 0;
    while i < bs.len()
        invariant
            i <= bs@.len(),
            buf@ == old(buf)@ + bs@.subrange(0, i as int),
        decreases bs@.len() - i,
    {
        buf.push(bs[i]);
        i = i + 1;
        assert(buf@ =~= old(buf)@ + bs@.subrange(0, i as int));
    }
    assert(buf@ =~= old(buf)@ + bs@);
}

/// Append the wire form of a string with content bytes `bs`: 32-bit length
/// (including the NUL), the bytes, the NUL, zero padding to a four-byte
/// boundary.
pub fn push_wire_string(buf: &mut Vec<u8>, bs: &[u8])
    requires
        bs@.len() + 5 <= 0x10000,
        old(buf)@.len() % 4 == 0,
    ensures
        final(buf)@ == old(buf)@ + spec_wire_string(bs@),
{
    let ghost start = buf@;
    push_u32_le(buf, (bs.len() + 1) as u32);
    push_bytes(buf, bs);
    buf.push(0);
    let ghost before_pad = buf@;
    proof {
        lemma_pad4(bs@.len() + 1 as int);
        assert(before_pad.len() == start.len() + 4 + bs@.len() + 1);
    }
    pad_to_4_from(buf, Ghost(start.len() as int + 4));
    assert(final(buf)@ =~= start + spec_wire_string(bs@));
}

/// An outbound request: sender object, opcode, typed arguments.
#[derive(Debug)]
pub struct WireRequest {
    pub sender_id: Id,
    pub opcode: OpCode,
    pub args: Vec<WireArgument>,
}

/// An inbound event as it came off the wire: receiver object, opcode, raw
/// payload bytes.
#[derive(Debug)]
pub struct WireEventRaw {
    pub recv_id: Id,
    pub opcode: OpCode,
    pub payload: Vec<u8>,
}

/// The concatenated payload of a whole argument list.
pub open spec fn spec_args_payload(args: Seq<WireArgument>) -> Seq<u8>
    decreases args.len(),
{
    if args.len() == 0 {
        Seq::empty()
    } else {
        spec_args_payload(args.drop_last()) + spec_arg_payload(args.last())
    }
}

/// The file descriptors of a whole argument list, in argument order.
pub open spec fn spec_args_fds(args: Seq<WireArgument>) -> Seq<i32>
    decreases args.len(),
{
    if args.len() == 0 {
        Seq::empty()
    } else {
        spec_args_fds(args.drop_last()) + spec_arg_fds(args.last())
    }
}

/// A request is encodable when each argument is, the whole message fits the
/// 16-bit size field, and the opcode fits its 16 bits.
pub open spec fn spec_request_wf(r: WireRequest) -> bool {
    &&& forall|i: int| 0 <= i < r.args@.len() ==> wire_arg_wf(#[trigger] r.args@[i])
    &&& 8 + spec_args_payload(r.args@).len() <= 0xFFFF
    &&& r.opcode <= 0xFFFF
}

/// The second header word: message size in the high half, opcode in the low.
pub open spec fn spec_header_word(size: u32, op: u32) -> u32
    recommends
        size <= 0xFFFF,
{
    (size << 16) | (op & 0xFFFF)
}

/// The full encoded frame of a request: the two header words, then the
/// payload. The size field counts the header itself.
pub open spec fn spec_encode_request(r: WireRequest) -> Seq<u8> {
    spec_u32_bytes(r.sender_id) + spec_u32_bytes(
        spec_header_word((8 + spec_args_payload(r.args@).len()) as u32, r.opcode as u32),
    ) + spec_args_payload(r.args@)
}

/// Extending an argument list appends that argument's payload and file
/// descriptors.
pub proof fn lemma_args_step(args: Seq<WireArgument>, i: int)
    requires
        0 <= i < args.len(),
    ensures
        spec_args_payload(args.take(i + 1)) == spec_args_payload(args.take(i)) + spec_arg_payload(
            args[i],
        ),
        spec_args_fds(args.take(i + 1)) == spec_args_fds(args.take(i)) + spec_arg_fds(args[i]),
{
    assert(args.take(i + 1).drop_last() =~= args.take(i));
    assert(args.take(i + 1).last() == args[i]);
}

/// Each argument's payload is a segment of the whole payload, so a prefix of
/// the argument list never encodes to more bytes than the full list.
pub proof fn lemma_args_payload_prefix_len(args: Seq<WireArgument>, i: int)
    requires
        0 <= i <= args.len(),
    ensures
        spec_args_payload(args.take(i)).len() <= spec_args_payload(args).len(),
    decreases args.len() - i,
{
    if i == args.len() {
        assert(args.take(i) =~= args);
    } else {
        lemma_args_step(args, i);
        lemma_args_payload_prefix_len(args, i + 1);
    }
}

/// Encode a request into its frame bytes and its out-of-band descriptors.
/// The size field of the produced header equals the length of the produced
/// byte buffer, and the opcode field equals the request's opcode.
pub fn encode_request(req: &WireRequest) -> (r: (Vec<u8>, Vec<i32>))
    requires
        spec_request_wf(*req),
    ensures
        r.0@ == spec_encode_request(*req),
        r.1@ == spec_args_fds(req.args@),
        r.0@.len() == 8 + spec_args_payload(req.args@).len(),
{
    let mut payload: Vec<u8> = Vec::new();
    let mut fds: Vec<i32> = Vec::new();
    let mut i: usize = 0;
    while i < req.args.len()
        invariant
            i <= req.args@.len(),
            payload@ == spec_args_payload(req.args@.take(i as int)),
            fds@ == spec_args_fds(req.args@.take(i as int)),
            spec_request_wf(*req),
        decreases req.args@.len() - i,
    {
        let a = &req.args[i];
        if let WireArgument::FileDescriptor(fd) = a {
            fds.push(*fd);
        }
        let mut part = a.as_vec_u8();
        payload.append(&mut part);
        proof {
            lemma_args_step(req.args@, i as int);
            if !(req.args@[i as int] is FileDescriptor) {
                assert(spec_arg_fds(req.args@[i as int]) =~= Seq::<i32>::empty());
                assert(fds@ =~= spec_args_fds(req.args@.take(i + 1)));
            }
            if req.args@[i as int] is FileDescriptor {
                assert(spec_arg_payload(req.args@[i as int]) =~= Seq::<u8>::empty());
                assert(payload@ =~= spec_args_payload(req.args@.take(i + 1)));
            }
        }
        i = i + 1;
    }
    proof {
        assert(req.args@.take(req.args@.len() as int) =~= req.args@);
    }
    let total: usize = 8 + payload.len();
    let word2: u32 = ((total as u32) << 16) | ((req.opcode as u32) & 0xFFFF);
    let mut buf: Vec<u8> = Vec::new();
    push_u32_le(&mut buf, req.sender_id);
    push_u32_le(&mut buf, word2);
    let mut p = payload;
    buf.append(&mut p);
    assert(buf@ =~= spec_encode_request(*req));
    (buf, fds)
}

/// The header of every encoded request reports the buffer's own length and
/// the request's opcode, and both survive the byte-level round trip.
pub proof fn lemma_frame_header(req: WireRequest)
    requires
        spec_request_wf(req),
    ensures
        ({
            let buf = spec_encode_request(req);
            let w2 = spec_u32_of(buf.subrange(4, 8));
            &&& spec_u32_of(buf.subrange(0, 4)) == req.sender_id
            &&& (w2 >> 16) == buf.len()
            &&& (w2 & 0xFFFF) == req.opcode
        }),
{
    let buf = spec_encode_request(req);
    let size = (8 + spec_args_payload(req.args@).len()) as u32;
    let op = req.opcode as u32;
    let w = spec_header_word(size, op);
    assert(buf.subrange(0, 4) =~= spec_u32_bytes(req.sender_id));
    assert(buf.subrange(4, 8) =~= spec_u32_bytes(w));
    lemma_u32_le_roundtrip(req.sender_id);
    lemma_u32_le_roundtrip(w);
    assert((((size << 16) | (op & 0xFFFF)) >> 16) == size && (((size << 16) | (op & 0xFFFF))
        & 0xFFFF) == op) by (bit_vector)
        requires
            size <= 0xFFFF && op <= 0xFFFF,
    ;
}

/// Success of the parse of a four-byte scalar at `at`: an empty remainder
/// is reported as such, a short one as a parse error.
pub open spec fn spec_parse_u32(p: Seq<u8>, at: int) -> Result<u32, WaylandError> {
    if p.len() <= at {
        Err(WaylandError::EmptyFromWirePayload)
    } else if p.len() < at + 4 {
        Err(WaylandError::ParseError)
    } else {
        Ok(spec_u32_of(p.subrange(at, at + 4)))
    }
}

/// The same parse read as a signed 32-bit value.
pub open spec fn spec_parse_i32(p: Seq<u8>, at: int) -> Result<i32, WaylandError> {
    match spec_parse_u32(p, at) {
        Ok(v) => Ok(v as i32),
        Err(e) => Err(e),
    }
}

/// Read the unsigned 32-bit argument at byte offset `at` of a payload.
pub fn parse_u32(p: &[u8], at: usize) -> (r: Result<u32, WaylandError>)
    ensures
        r == spec_parse_u32(p@, at as int),
{
    if p.len() <= at {
        Err(WaylandError::EmptyFromWirePayload)
    } else if p.len() < 4 || p.len() - 4 < at {
        Err(WaylandError::ParseError)
    } else {
        Ok(read_u32_le(p, at))
    }
}

/// Read the signed 32-bit argument at byte offset `at` of a payload.
pub fn parse_i32(p: &[u8], at: usize) -> (r: Result<i32, WaylandError>)
    ensures
        r == spec_parse_i32(p@, at as int),
{
    match parse_u32(p, at) {
        Ok(v) => Ok(#[verifier::truncate] (v as i32)),
        Err(e) => Err(e),
    }
}

/// Index of the first NUL byte of `bs`, or a negative value when there is
/// none.
pub open spec fn spec_first_nul(bs: Seq<u8>) -> int
    decreases bs.len(),
{
    if bs.len() == 0 {
        -1
    } else if bs[0] == 0 {
        0
    } else {
        let r = spec_first_nul(bs.drop_first());
        if r < 0 {
            -1
        } else {
            r + 1
        }
    }
}

/// The bytes before the first NUL of `bs`; empty when `bs` has no NUL.
pub open spec fn spec_until_nul(bs: Seq<u8>) -> Seq<u8> {
    if spec_first_nul(bs) < 0 {
        Seq::empty()
    } else {
        bs.subrange(0, spec_first_nul(bs))
    }
}

/// When position `k` holds the first zero of `s`, the cut at the first NUL is
/// exactly the prefix before `k`.
pub proof fn lemma_until_nul_at(s: Seq<u8>, k: int)
    requires
        0 <= k < s.len(),
        s[k] == 0,
        forall|j: int| 0 <= j < k ==> s[j] != 0,
    ensures
        spec_first_nul(s) == k,
        spec_until_nul(s) == s.subrange(0, k),
    decreases k,
{
    if k == 0 {
    } else {
        assert(s[0] != 0);
        lemma_until_nul_at(s.drop_first(), k - 1);
    }
}

/// A zero-free sequence has no first NUL, and the cut is empty.
pub proof fn lemma_until_nul_none(s: Seq<u8>)
    requires
        forall|j: int| 0 <= j < s.len() ==> s[j] != 0,
    ensures
        spec_first_nul(s) < 0,
        spec_until_nul(s) == Seq::<u8>::empty(),
    decreases s.len(),
{
    if s.len() > 0 {
        lemma_until_nul_none(s.drop_first());
    }
}

/// Outcome of parsing a string argument at offset `at`: its length prefix,
/// then that many bytes of which everything before the first NUL is the
/// content.
pub open spec fn spec_parse_string_bytes(p: Seq<u8>, at: int) -> Result<Seq<u8>, WaylandError> {
    if p.len() <= at {
        Err(WaylandError::EmptyFromWirePayload)
    } else if p.len() < at + 4 {
        Err(WaylandError::ParseError)
    } else {
        let l = spec_u32_of(p.subrange(at, at + 4)) as int;
        if p.len() < at + 4 + l {
            Err(WaylandError::ParseError)
        } else {
            Ok(spec_until_nul(p.subrange(at + 4, at + 4 + l)))
        }
    }
}

/// Read the string argument at byte offset `at` of a payload, as its raw
/// content bytes (everything before the terminating NUL).
pub fn parse_string_bytes(p: &[u8], at: usize) -> (r: Result<Vec<u8>, WaylandError>)
    ensures
        match r {
            Ok(v) => spec_parse_string_bytes(p@, at as int) matches Ok(s) && v@ == s,
            Err(e) => spec_parse_string_bytes(p@, at as int) matches Err(e2) && e == e2,
        },
{
    if p.len() <= at {
        return Err(WaylandError::EmptyFromWirePayload);
    }
    if p.len() < 4 || p.len() - 4 < at {
        return Err(WaylandError::ParseError);
    }
    let l32 = read_u32_le(p, at);
    let l = l32 as usize;
    if p.len() - at - 4 < l {
        return Err(WaylandError::ParseError);
    }
    let ghost content = p@.subrange(at + 4, at + 4 + l);
    let mut out: Vec<u8> = Vec::new();
    let mut i: usize = 0;
    while i < l
        invariant
            i <= l,
            at + 4 + l <= p@.len(),
            at + 4 + l <= usize::MAX,
            l == spec_u32_of(p@.subrange(at as int, at + 4)) as usize,
            content == p@.subrange(at + 4, at + 4 + l),
            out@ == content.subrange(0, i as int),
            forall|j: int| 0 <= j < i ==> content[j] != 0,
        decreases l - i,
    {
        let b = p[at + 4 + i];
        assert(b == content[i as int]);
        if b == 0 {
            proof {
                lemma_until_nul_at(content, i as int);
            }
            return Ok(out);
        }
        out.push(b);
        i = i + 1;
        assert(out@ =~= content.subrange(0, i as int));
    }
    proof {
        lemma_until_nul_none(content);
    }
    Ok(Vec::new())
}

/// Outcome of parsing an array of 32-bit values at offset `at`: a length
/// prefix that must be a multiple of four, then that many bytes.
pub open spec fn spec_parse_u32_array(p: Seq<u8>, at: int) -> Result<Seq<u32>, WaylandError> {
    if p.len() <= at {
        Err(WaylandError::EmptyFromWirePayload)
    } else if p.len() < at + 4 {
        Err(WaylandError::ParseError)
    } else {
        let l = spec_u32_of(p.subrange(at, at + 4)) as int;
        if p.len() < at + 4 + l || l % 4 != 0 {
            Err(WaylandError::ParseError)
        } else {
            Ok(
                Seq::new(
                    (l / 4) as nat,
                    |k: int| spec_u32_of(p.subrange(at + 4 + 4 * k, at + 4 + 4 * k + 4)),
                ),
            )
        }
    }
}

/// Outcome of parsing an array of 16-bit values at offset `at`.
pub open spec fn spec_parse_u16_array(p: Seq<u8>, at: int) -> Result<Seq<u16>, WaylandError> {
    if p.len() <= at {
        Err(WaylandError::EmptyFromWirePayload)
    } else if p.len() < at + 4 {
        Err(WaylandError::ParseError)
    } else {
        let l = spec_u32_of(p.subrange(at, at + 4)) as int;
        if p.len() < at + 4 + l || l % 2 != 0 {
            Err(WaylandError::ParseError)
        } else {
            Ok(
                Seq::new(
                    (l / 2) as nat,
                    |k: int| spec_u16_of(p.subrange(at + 4 + 2 * k, at + 4 + 2 * k + 2)),
                ),
            )
        }
    }
}

/// Read the array of unsigned 32-bit values at byte offset `at` of a payload.
pub fn parse_u32_array(p: &[u8], at: usize) -> (r: Result<Vec<u32>, WaylandError>)
    ensures
        match r {
            Ok(v) => spec_parse_u32_array(p@, at as int) matches Ok(s) && v@ == s,
            Err(e) => spec_parse_u32_array(p@, at as int) matches Err(e2) && e == e2,
        },
{
    if p.len() <= at {
        return Err(WaylandError::EmptyFromWirePayload);
    }
    if p.len() < 4 || p.len() - 4 < at {
        return Err(WaylandError::ParseError);
    }
    let l = read_u32_le(p, at) as usize;
    if p.len() - at - 4 < l || l % 4 != 0 {
        return Err(WaylandError::ParseError);
    }
    let count = l / 4;
    let mut out: Vec<u32> = Vec::new();
    let mut k: usize = 0;
    while k < count
        invariant
            k <= count,
            count == l / 4,
            l % 4 == 0,
            at + 4 + l <= p@.len(),
            at + 4 + l <= usize::MAX,
            out@.len() == k,
            forall|j: int|
                0 <= j < k ==> out@[j] == spec_u32_of(
                    p@.subrange(at + 4 + 4 * j, at + 4 + 4 * j + 4),
                ),
        decreases count - k,
    {
        assert(4 * (k as int) + 4 <= l) by (nonlinear_arith)
            requires
                0 <= k < count,
                count == l / 4,
                l % 4 == 0,
        ;
        out.push(read_u32_le(p, at + 4 + 4 * k));
        k = k + 1;
    }
    proof {
        let s = spec_parse_u32_array(p@, at as int)->Ok_0;
        assert(out@ =~= s);
    }
    Ok(out)
}

/// Read the array of unsigned 16-bit values at byte offset `at` of a payload.
pub fn parse_u16_array(p: &[u8], at: usize) -> (r: Result<Vec<u16>, WaylandError>)
    ensures
        match r {
            Ok(v) => spec_parse_u16_array(p@, at as int) matches Ok(s) && v@ == s,
            Err(e) => spec_parse_u16_array(p@, at as int) matches Err(e2) && e == e2,
        },
{
    if p.len() <= at {
        return Err(WaylandError::EmptyFromWirePayload);
    }
    if p.len() < 4 || p.len() - 4 < at {
        return Err(WaylandError::ParseError);
    }
    let l = read_u32_le(p, at) as usize;
    if p.len() - at - 4 < l || l % 2 != 0 {
        return Err(WaylandError::ParseError);
    }
    let count = l / 2;
    let mut out: Vec<u16> = Vec::new();
    let mut k: usize = 0;
    while k < count
        invariant
            k <= count,
            count == l / 2,
            l % 2 == 0,
            at + 4 + l <= p@.len(),
            at + 4 + l <= usize::MAX,
            out@.len() == k,
            forall|j: int|
                0 <= j < k ==> out@[j] == spec_u16_of(
                    p@.subrange(at + 4 + 2 * j, at + 4 + 2 * j + 2),
                ),
        decreases count - k,
    {
        assert(2 * (k as int) + 2 <= l) by (nonlinear_arith)
            requires
                0 <= k < count,
                count == l / 2,
                l % 2 == 0,
        ;
        out.push(read_u16_le(p, at + 4 + 2 * k));
        k = k + 1;
    }
    proof {
        let s = spec_parse_u16_array(p@, at as int)->Ok_0;
        assert(out@ =~= s);
    }
    Ok(out)
}

/// The guard every payload parse starts from: an empty one is reported
/// before any element is read.
pub fn is_payload_empty(payload: &[u8]) -> (r: Result<(), WaylandError>)
    ensures
        payload@.len() == 0 ==> (r matches Err(e)
            && e matches WaylandError::EmptyFromWirePayload),
        payload@.len() > 0 ==> r matches Ok(_),
{
    if payload.len() == 0 {
        Err(WaylandError::EmptyFromWirePayload)
    } else {
        Ok(())
    }
}

/// Relies on `String::from_utf8`: it succeeds exactly when the bytes are
/// valid UTF-8 (vstd's model of that notion), the returned string then
/// consists of exactly the given bytes, and ASCII input (every byte below
/// 0x80) is always accepted, ASCII being valid UTF-8.
#[verifier::external_body]
pub fn string_from_utf8(b: Vec<u8>) -> (r: Option<String>)
    ensures
        r matches Some(s) ==> spec_string_bytes(s) == b@,
        r is Some <==> vstd::utf8::valid_utf8(b@),
        (forall|i: int| 0 <= i < b@.len() ==> b@[i] < 0x80) ==> r is Some,
{
    match String::from_utf8(b) {
        Ok(s) => Some(s),
        Err(_) => None,
    }
}

/// A nonnegative first-NUL index points at a zero byte.
pub proof fn lemma_first_nul_hits(s: Seq<u8>)
    requires
        spec_first_nul(s) >= 0,
    ensures
        0 <= spec_first_nul(s) < s.len(),
        s[spec_first_nul(s)] == 0,
    decreases s.len(),
{
    if s.len() > 0 && s[0] != 0 {
        lemma_first_nul_hits(s.drop_first());
    }
}

/// Append zero bytes until the length of `buf` minus `base` is a multiple of
/// four; `base` must itself sit at a four-byte boundary from the start of the
/// message, which every caller arranges by only appending whole words before
/// the tail it pads.
fn pad_to_4_from(buf: &mut Vec<u8>, base: Ghost<int>)
    requires
        0 <= base@ <= old(buf)@.len(),
        base@ % 4 == 0,
    ensures
        final(buf)@ == old(buf)@ + spec_zeros(
            spec_pad4(old(buf)@.len() - base@) - (old(buf)@.len() - base@),
        ),
{
    proof {
        lemma_pad4(old(buf)@.len() - base@);
    }
    crate::bytes::pad_to_4(buf);
    proof {
        let n = old(buf)@.len() as int;
        let b = base@;
        lemma_pad4(n);
        lemma_pad4(n - b);
        assert(spec_pad4(n) - n == spec_pad4(n - b) - (n - b)) by (nonlinear_arith)
            requires
                0 <= b <= n,
                b % 4 == 0,
                spec_pad4(n) == ((n + 3) / 4) * 4,
                spec_pad4(n - b) == ((n - b + 3) / 4) * 4,
        ;
    }
}

/// The identity of one inbound frame: receiver, opcode, payload bytes.
pub open spec fn frame_view(f: WireEventRaw) -> (u32, int, Seq<u8>) {
    (f.recv_id, f.opcode as int, f.payload@)
}

/// Split a byte stream into frames. Each frame's header gives its receiver
/// and `size << 16 | opcode`; a size below eight is rejected as such, and a
/// size past the end of the stream, or a trailing fragment shorter than a
/// header, is a parse error.
pub open spec fn spec_frames(b: Seq<u8>) -> Result<Seq<(u32, int, Seq<u8>)>, WaylandError>
    decreases b.len(),
{
    if b.len() == 0 {
        Ok(Seq::empty())
    } else if b.len() < 8 {
        Err(WaylandError::ParseError)
    } else {
        let id = spec_u32_of(b.subrange(0, 4));
        let w2 = spec_u32_of(b.subrange(4, 8));
        let size = (w2 >> 16) as int;
        let op = (w2 & 0xFFFF) as int;
        if size < 8 {
            Err(WaylandError::RecvLenBad)
        } else if b.len() < size {
            Err(WaylandError::ParseError)
        } else {
            match spec_frames(b.skip(size)) {
                Ok(rest) => Ok(seq![(id, op, b.subrange(8, size))] + rest),
                Err(e) => Err(e),
            }
        }
    }
}

/// Prepend already-parsed frames to the outcome of parsing the rest.
pub open spec fn spec_frames_compose(
    prefix: Seq<(u32, int, Seq<u8>)>,
    r: Result<Seq<(u32, int, Seq<u8>)>, WaylandError>,
) -> Result<Seq<(u32, int, Seq<u8>)>, WaylandError> {
    match r {
        Ok(rest) => Ok(prefix + rest),
        Err(e) => Err(e),
    }
}

/// An entry of the transport queue: an inbound event waiting for dispatch, an
/// outbound request waiting to be sent, or a synchronisation point.
#[derive(Debug)]
pub enum QueueEntry {
    EventResponse(WireEventRaw),
    Request(WireRequest, WaylandObjectKind),
    Sync(Id),
}

/// One encoded request ready for the socket: its frame bytes and the file
/// descriptors that must ride along in the very same send.
#[derive(Debug)]
pub struct OutboundFrame {
    pub bytes: Vec<u8>,
    pub fds: Vec<i32>,
}

/// The message queues: inbound events and queued requests on `q`, encoded
/// frames on `outgoing`. The embedding application owns the socket; it feeds
/// received bytes into `get_events` and writes each `outgoing` frame with one
/// vectored send.
#[derive(Debug)]
pub struct MessageManager {
    pub q: Vec<QueueEntry>,
    pub outgoing: Vec<OutboundFrame>,
}

impl MessageManager {
    /// A manager with empty queues.
    pub fn new() -> (r: MessageManager)
        ensures
            r.q@.len() == 0,
            r.outgoing@.len() == 0,
    {
        MessageManager { q: Vec::new(), outgoing: Vec::new() }
    }

    /// Put a request at the back of the dispatch queue.
    pub fn queue_request(&mut self, req: WireRequest, kind: WaylandObjectKind)
        ensures
            final(self).q@ == old(self).q@.push(QueueEntry::Request(req, kind)),
            final(self).outgoing@ == old(self).outgoing@,
    {
        self.q.push(QueueEntry::Request(req, kind));
    }

    /// Put a synchronisation point at the back of the dispatch queue: when
    /// the loop reaches it, the callback with this id becomes the current
    /// sync barrier.
    pub fn queue_sync(&mut self, id: Id)
        ensures
            final(self).q@ == old(self).q@.push(QueueEntry::Sync(id)),
            final(self).outgoing@ == old(self).outgoing@,
    {
        self.q.push(QueueEntry::Sync(id));
    }

    /// Encode a request and stage its frame for transmission. The staged
    /// bytes carry the request's own header and payload; its descriptors
    /// ride beside them.
    pub fn send_request(&mut self, msg: &WireRequest)
        requires
            spec_request_wf(*msg),
        ensures
            final(self).q@ == old(self).q@,
            final(self).outgoing@.len() == old(self).outgoing@.len() + 1,
            final(self).outgoing@.subrange(0, old(self).outgoing@.len() as int) == old(
                self,
            ).outgoing@,
            final(self).outgoing@.last().bytes@ == spec_encode_request(*msg),
            final(self).outgoing@.last().fds@ == spec_args_fds(msg.args@),
    {
        let (bytes, fds) = encode_request(msg);
        self.outgoing.push(OutboundFrame { bytes, fds });
        assert(final(self).outgoing@.subrange(0, old(self).outgoing@.len() as int) =~= old(
            self,
        ).outgoing@);
    }

    /// Split `len` received bytes into frames and append each one to the
    /// dispatch queue, in arrival order; the result counts them. A malformed
    /// stream leaves the already-split frames queued and reports why the
    /// rest could not be split.
    pub fn get_events(&mut self, buf: &[u8], len: usize) -> (r: Result<usize, WaylandError>)
        requires
            len <= buf@.len(),
        ensures
            final(self).outgoing@ == old(self).outgoing@,
            final(self).q@.len() >= old(self).q@.len(),
            final(self).q@.subrange(0, old(self).q@.len() as int) == old(self).q@,
            forall|j: int|
                old(self).q@.len() <= j < final(self).q@.len()
                    ==> (#[trigger] final(self).q@[j]) matches QueueEntry::EventResponse(_),
            match r {
                Ok(n) => spec_frames(buf@.take(len as int)) matches Ok(s) && n == s.len()
                    && final(self).q@.len() == old(self).q@.len() + s.len() && (forall|j: int|
                    0 <= j < s.len()
                        ==> ((#[trigger] final(self).q@[old(self).q@.len() + j]) matches QueueEntry::EventResponse(f)
                        && frame_view(f) == s[j])),
                Err(e) => spec_frames(buf@.take(len as int)) matches Err(e2) && e == e2,
            },
    {
        let ghost whole = buf@.take(len as int);
        let ghost q0 = self.q@;
        let mut cursor: usize = 0;
        let mut ctr: usize = 0;
        proof {
            assert(whole.skip(0) =~= whole);
        }
        while cursor < len
        invariant
            cursor <= len <= buf@.len(),
            whole == buf@.take(len as int),
            ctr == self.q@.len() - q0.len(),
            ctr <= cursor,
            self.q@.len() >= q0.len(),
            self.q@.subrange(0, q0.len() as int) == q0,
            self.outgoing@ == old(self).outgoing@,
            q0 == old(self).q@,
            forall|j: int|
                q0.len() <= j < self.q@.len() ==> (#[trigger] self.q@[j]) matches QueueEntry::EventResponse(_),
            spec_frames(whole) == spec_frames_compose(
                Seq::new(
                    (self.q@.len() - q0.len()) as nat,
                    |j: int| frame_view(self.q@[q0.len() + j]->EventResponse_0),
                ),
                spec_frames(whole.skip(cursor as int)),
            ),
        decreases len - cursor,
        {
            let ghost rem = whole.skip(cursor as int);
            let ghost prefix = Seq::new(
                (self.q@.len() - q0.len()) as nat,
                |j: int| frame_view(self.q@[q0.len() + j]->EventResponse_0),
            );
            if len - cursor < 8 {
                proof {
                    assert(rem.len() == len - cursor);
                }
                return Err(WaylandError::ParseError);
            }
            let sender_id = read_u32_le(buf, cursor);
            let w2 = read_u32_le(buf, cursor + 4);
            proof {
                assert(rem.subrange(0, 4) =~= buf@.subrange(cursor as int, cursor + 4));
                assert(rem.subrange(4, 8) =~= buf@.subrange(cursor + 4, cursor + 8));
            }
            let recv_len = (w2 >> 16) as usize;
            let opcode = (w2 & 0xFFFF) as usize;
            proof {
                assert((w2 >> 16) <= 0xFFFF && (w2 & 0xFFFF) <= 0xFFFF) by (bit_vector);
            }
            if recv_len < 8 {
                return Err(WaylandError::RecvLenBad);
            }
            if len - cursor < recv_len {
                return Err(WaylandError::ParseError);
            }
            let payload = vstd::slice::slice_to_vec(
                vstd::slice::slice_subrange(buf, cursor + 8, cursor + recv_len),
            );
            let event = WireEventRaw { recv_id: sender_id, opcode, payload };
            proof {
                assert(rem.subrange(8, recv_len as int) =~= buf@.subrange(
                    cursor + 8,
                    cursor + recv_len,
                ));
                assert(rem.skip(recv_len as int) =~= whole.skip(cursor + recv_len));
                assert(frame_view(event) == (sender_id, opcode as int, rem.subrange(
                    8,
                    recv_len as int,
                )));
            }
            self.q.push(QueueEntry::EventResponse(event));
            ctr = ctr + 1;
            cursor = cursor + recv_len;
            proof {
                let prefix2 = Seq::new(
                    (self.q@.len() - q0.len()) as nat,
                    |j: int| frame_view(self.q@[q0.len() + j]->EventResponse_0),
                );
                assert(prefix2 =~= prefix + seq![frame_view(event)]);
                assert(self.q@.subrange(0, q0.len() as int) =~= q0);
                match spec_frames(whole.skip(cursor as int)) {
                    Ok(rest) => {
                        assert(prefix + (seq![frame_view(event)] + rest) =~= prefix2 + rest);
                    },
                    Err(_) => {},
                }
            }
        }
        proof {
            assert(whole.skip(len as int) =~= Seq::<u8>::empty());
            let prefix = Seq::new(
                (self.q@.len() - q0.len()) as nat,
                |j: int| frame_view(self.q@[q0.len() + j]->EventResponse_0),
            );
            assert(prefix + Seq::<(u32, int, Seq<u8>)>::empty() =~= prefix);
        }
        Ok(ctr)
    }
}

/// Decide whether one argument fits the wire format's size field.
pub fn arg_wf_check(a: &WireArgument) -> (b: bool)
    ensures
        b == wire_arg_wf(*a),
{
    match a {
        WireArgument::Str(s) => {
            let l = s.as_str().as_bytes().len();
            if l > 0xFFFF {
                proof {
                    lemma_pad4(l + 1 as int);
                }
                false
            } else {
                proof {
                    lemma_pad4(l + 1 as int);
                }
                4 + pad4_len(l + 1) <= 0xFFFF
            }
        },
        WireArgument::NewIdSpecific(n, _, _) => {
            let l = n.as_str().as_bytes().len();
            if l > 0xFFFF {
                proof {
                    lemma_pad4(l + 1 as int);
                }
                false
            } else {
                proof {
                    lemma_pad4(l + 1 as int);
                }
                12 + pad4_len(l + 1) <= 0xFFFF
            }
        },
        WireArgument::Arr(v) => {
            let l = v.len();
            if l > 0xFFFF {
                proof {
                    lemma_pad4(l as int);
                }
                false
            } else {
                proof {
                    lemma_pad4(l as int);
                }
                4 + pad4_len(l) <= 0xFFFF
            }
        },
        _ => true,
    }
}

/// Decide whether a whole request is encodable: every argument fits, the
/// opcode fits sixteen bits, and the message including its header fits the
/// size field.
pub fn request_wf_check(req: &WireRequest) -> (b: bool)
    ensures
        b == spec_request_wf(*req),
{
    if req.opcode > 0xFFFF {
        return false;
    }
    let mut total: usize = 8;
    let mut i: usize = 0;
    while i < req.args.len()
        invariant
            i <= req.args@.len(),
            total == 8 + spec_args_payload(req.args@.take(i as int)).len(),
            total <= 0xFFFF,
            req.opcode <= 0xFFFF,
            forall|j: int| 0 <= j < i ==> wire_arg_wf(#[trigger] req.args@[j]),
        decreases req.args@.len() - i,
    {
        let a = &req.args[i];
        if !arg_wf_check(a) {
            proof {
                lemma_args_payload_prefix_len(req.args@, i as int);
            }
            return false;
        }
        let s = a.size();
        proof {
            lemma_args_step(req.args@, i as int);
        }
        if s > 0xFFFF - total {
            proof {
                lemma_args_payload_prefix_len(req.args@, i + 1 as int);
            }
            return false;
        }
        total = total + s;
        i = i + 1;
    }
    proof {
        assert(req.args@.take(req.args@.len() as int) =~= req.args@);
    }
    true
}

/// Whether an argument is one of the four-byte scalars or a file
/// descriptor, whose encoded size never depends on a value.
pub open spec fn arg_is_scalar(a: WireArgument) -> bool {
    ||| a is Int
    ||| a is UnInt
    ||| a is FixedPrecision
    ||| a is Obj
    ||| a is NewId
    ||| a is FileDescriptor
}

/// A list of scalar arguments encodes to at most four bytes each.
pub proof fn lemma_scalar_args_len(args: Seq<WireArgument>)
    requires
        forall|i: int| 0 <= i < args.len() ==> arg_is_scalar(#[trigger] args[i]),
    ensures
        spec_args_payload(args).len() <= 4 * args.len(),
    decreases args.len(),
{
    if args.len() > 0 {
        assert(forall|i: int|
            0 <= i < args.drop_last().len() ==> arg_is_scalar(#[trigger] args.drop_last()[i]));
        lemma_scalar_args_len(args.drop_last());
        assert(arg_is_scalar(args.last()));
    }
}

/// A request of at most a hundred scalar arguments and a sixteen-bit opcode
/// is always encodable.
pub proof fn lemma_scalar_request_wf(r: WireRequest)
    requires
        forall|i: int| 0 <= i < r.args@.len() ==> arg_is_scalar(#[trigger] r.args@[i]),
        r.args@.len() <= 100,
        r.opcode <= 0xFFFF,
    ensures
        spec_request_wf(r),
{
    lemma_scalar_args_len(r.args@);
    assert forall|i: int| 0 <= i < r.args@.len() implies wire_arg_wf(#[trigger] r.args@[i]) by {
        assert(arg_is_scalar(r.args@[i]));
    }
}

/// Decoding the encoding of any scalar argument gives the value back:
/// unsigned, fixed-point, object and new-id arguments parse as themselves,
/// and a signed argument survives the unsigned byte trip.
pub proof fn lemma_scalar_arg_roundtrip(a: WireArgument)
    ensures
        a matches WireArgument::UnInt(x) ==> spec_parse_u32(spec_arg_payload(a), 0) == Ok::<
            u32,
            WaylandError,
        >(x),
        a matches WireArgument::FixedPrecision(x) ==> spec_parse_u32(spec_arg_payload(a), 0)
            == Ok::<u32, WaylandError>(x),
        a matches WireArgument::Obj(x) ==> spec_parse_u32(spec_arg_payload(a), 0) == Ok::<
            u32,
            WaylandError,
        >(x),
        a matches WireArgument::NewId(x) ==> spec_parse_u32(spec_arg_payload(a), 0) == Ok::<
            u32,
            WaylandError,
        >(x),
        a matches WireArgument::Int(x) ==> spec_parse_i32(spec_arg_payload(a), 0) == Ok::<
            i32,
            WaylandError,
        >(x),
{
    match a {
        WireArgument::UnInt(x) => {
            lemma_u32_le_roundtrip(x);
            assert(spec_arg_payload(a).subrange(0, 4) =~= spec_u32_bytes(x));
        },
        WireArgument::FixedPrecision(x) => {
            lemma_u32_le_roundtrip(x);
            assert(spec_arg_payload(a).subrange(0, 4) =~= spec_u32_bytes(x));
        },
        WireArgument::Obj(x) => {
            lemma_u32_le_roundtrip(x);
            assert(spec_arg_payload(a).subrange(0, 4) =~= spec_u32_bytes(x));
        },
        WireArgument::NewId(x) => {
            lemma_u32_le_roundtrip(x);
            assert(spec_arg_payload(a).subrange(0, 4) =~= spec_u32_bytes(x));
        },
        WireArgument::Int(x) => {
            lemma_u32_le_roundtrip(x as u32);
            assert(spec_arg_payload(a).subrange(0, 4) =~= spec_u32_bytes(x as u32));
            assert(((x as u32) as i32) == x) by (bit_vector);
        },
        _ => {},
    }
}

/// Decoding the encoding of a new-id-with-interface argument gives back the
/// interface name (without interior NULs), the version and the id, each at
/// its place after the padded name.
pub proof fn lemma_new_id_specific_roundtrip(nb: Seq<u8>, ver: u32, id: u32, s: String)
    requires
        spec_string_bytes(s) == nb,
        nb.len() + 1 <= 0xFFFF,
        forall|j: int| 0 <= j < nb.len() ==> nb[j] != 0,
    ensures
        ({
            let p = spec_arg_payload(WireArgument::NewIdSpecific(s, ver, id));
            let name_len = 4 + spec_pad4(nb.len() + 1 as int);
            &&& spec_parse_string_bytes(p, 0) == Ok::<Seq<u8>, WaylandError>(nb)
            &&& spec_parse_u32(p, name_len) == Ok::<u32, WaylandError>(ver)
            &&& spec_parse_u32(p, name_len + 4) == Ok::<u32, WaylandError>(id)
        }),
{
    let p = spec_arg_payload(WireArgument::NewIdSpecific(s, ver, id));
    let ws = spec_wire_string(nb);
    let l = nb.len() + 1 as int;
    lemma_pad4(l);
    lemma_u32_le_roundtrip(l as u32);
    lemma_u32_le_roundtrip(ver);
    lemma_u32_le_roundtrip(id);
    assert(ws.len() == 4 + spec_pad4(l));
    assert(p.len() == ws.len() + 8);
    assert(p.subrange(0, 4) =~= spec_u32_bytes(l as u32));
    let content = p.subrange(4, 4 + l);
    assert(content =~= nb + seq![0u8]);
    lemma_until_nul_at(content, nb.len() as int);
    assert(content.subrange(0, nb.len() as int) =~= nb);
    let wl = ws.len() as int;
    assert(p.subrange(wl, wl + 4) =~= spec_u32_bytes(ver));
    assert(p.subrange(wl + 4, wl + 8) =~= spec_u32_bytes(id));
}

/// The encoded form of a string argument is four-byte aligned, and its
/// length prefix is the content length plus one for the NUL.
pub proof fn lemma_string_encoding_shape(bs: Seq<u8>)
    requires
        bs.len() + 1 <= 0xFFFF,
    ensures
        spec_wire_string(bs).len() % 4 == 0,
        spec_u32_of(spec_wire_string(bs).subrange(0, 4)) == bs.len() + 1,
{
    lemma_pad4(bs.len() + 1 as int);
    lemma_u32_le_roundtrip((bs.len() + 1) as u32);
    assert(spec_wire_string(bs).subrange(0, 4) =~= spec_u32_bytes((bs.len() + 1) as u32));
    assert(spec_wire_string(bs).len() == 4 + spec_pad4(bs.len() + 1 as int));
}

/// Decoding the encoding of a string argument gives the content bytes back,
/// for every content without an interior NUL.
pub proof fn lemma_string_roundtrip(bs: Seq<u8>)
    requires
        bs.len() + 1 <= 0xFFFF,
        forall|j: int| 0 <= j < bs.len() ==> bs[j] != 0,
    ensures
        spec_parse_string_bytes(spec_wire_string(bs), 0) == Ok::<Seq<u8>, WaylandError>(bs),
{
    let enc = spec_wire_string(bs);
    let l = bs.len() + 1 as int;
    lemma_pad4(l);
    lemma_u32_le_roundtrip(l as u32);
    assert(enc.subrange(0, 4) =~= spec_u32_bytes(l as u32));
    assert(enc.len() == 4 + spec_pad4(l));
    let content = enc.subrange(4, 4 + l);
    assert(content =~= bs + seq![0u8]);
    lemma_until_nul_at(content, bs.len() as int);
    assert(content.subrange(0, bs.len() as int) =~= bs);
}

/// Decoding the encoding of an array argument gives the bytes back, read as
/// 32-bit values, whenever the byte count is a whole number of values.
pub proof fn lemma_array_roundtrip(vs: Seq<u8>)
    requires
        vs.len() <= 0xFFFF,
        vs.len() % 4 == 0,
    ensures
        spec_parse_u32_array(spec_wire_array(vs), 0) matches Ok(s) && s.len() == vs.len() / 4
            && forall|k: int| 0 <= k < s.len() ==> s[k] == spec_u32_of(vs.subrange(4 * k, 4 * k + 4)),
{
    let enc = spec_wire_array(vs);
    lemma_pad4(vs.len() as int);
    lemma_u32_le_roundtrip(vs.len() as u32);
    assert(enc.subrange(0, 4) =~= spec_u32_bytes(vs.len() as u32));
    assert(enc.len() == 4 + spec_pad4(vs.len() as int));
    let s = spec_parse_u32_array(enc, 0)->Ok_0;
    assert forall|k: int| 0 <= k < s.len() implies s[k] == spec_u32_of(
        vs.subrange(4 * k, 4 * k + 4),
    ) by {
        assert(4 * k + 4 <= vs.len()) by (nonlinear_arith)
            requires
                0 <= k < vs.len() / 4,
                vs.len() % 4 == 0,
        ;
        assert(enc.subrange(4 + 4 * k, 4 + 4 * k + 4) =~= vs.subrange(4 * k, 4 * k + 4));
    }
}

} // verus!
