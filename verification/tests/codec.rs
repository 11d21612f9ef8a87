use waytinier::bytes::{bytes_eq, pad_to_4, push_u32_le, read_u16_le, read_u32_le, read_u64_le};
use waytinier::errors::WaylandError;
use waytinier::wire::{
    arg_wf_check, encode_request, is_payload_empty, parse_i32, parse_string_bytes, parse_u16_array,
    parse_u32, parse_u32_array, request_wf_check, string_from_utf8, MessageManager, WireArgument,
    WireRequest,
};

#[test]
fn le_primitives_round_trip() {
    let mut v: Vec<u8> = Vec::new();
    push_u32_le(&mut v, 0xDEADBEEF);
    assert_eq!(v, vec![0xEF, 0xBE, 0xAD, 0xDE]);
    assert_eq!(read_u32_le(&v, 0), 0xDEADBEEF);
    let w = vec![0x34, 0x12, 0x88, 0x77, 0x66, 0x55, 0x44, 0x33, 0x22, 0x11];
    assert_eq!(read_u16_le(&w, 0), 0x1234);
    assert_eq!(read_u64_le(&w, 2), 0x1122334455667788);
}

#[test]
fn padding_reaches_boundary() {
    let mut v = vec![1u8, 2, 3];
    pad_to_4(&mut v);
    assert_eq!(v, vec![1, 2, 3, 0]);
    let mut w = vec![1u8, 2, 3, 4];
    pad_to_4(&mut w);
    assert_eq!(w, vec![1, 2, 3, 4]);
}

#[test]
fn uint_argument_round_trip() {
    let a = WireArgument::UnInt(77);
    let enc = a.as_vec_u8();
    assert_eq!(a.size(), 4);
    assert_eq!(parse_u32(&enc, 0), Ok(77));
}

#[test]
fn int_argument_round_trip() {
    let a = WireArgument::Int(-1024);
    let enc = a.as_vec_u8();
    assert_eq!(parse_i32(&enc, 0), Ok(-1024));
}

#[test]
fn string_argument_is_aligned_and_counts_the_nul() {
    let a = WireArgument::Str(String::from("wl_compositor"));
    let enc = a.as_vec_u8();
    assert_eq!(enc.len() % 4, 0);
    // The length prefix counts the content bytes plus one for the NUL.
    assert_eq!(parse_u32(&enc, 0), Ok(14));
    let back = parse_string_bytes(&enc, 0).unwrap();
    assert_eq!(back, b"wl_compositor".to_vec());
    assert_eq!(a.size(), enc.len());
}

#[test]
fn empty_string_argument_round_trip() {
    let a = WireArgument::Str(String::new());
    let enc = a.as_vec_u8();
    assert_eq!(enc.len(), 8);
    assert_eq!(parse_u32(&enc, 0), Ok(1));
    assert_eq!(parse_string_bytes(&enc, 0).unwrap(), Vec::<u8>::new());
}

#[test]
fn array_argument_round_trip() {
    let a = WireArgument::Arr(vec![1, 0, 0, 0, 2, 0, 0, 0]);
    let enc = a.as_vec_u8();
    assert_eq!(enc.len() % 4, 0);
    assert_eq!(parse_u32_array(&enc, 0), Ok(vec![1, 2]));
}

#[test]
fn u16_array_round_trip() {
    // length prefix 4, then two 16-bit values
    let payload = vec![4u8, 0, 0, 0, 7, 0, 9, 0];
    assert_eq!(parse_u16_array(&payload, 0), Ok(vec![7, 9]));
}

#[test]
fn frame_header_reports_buffer_length_and_opcode() {
    let req = WireRequest {
        sender_id: 3,
        opcode: 9,
        args: vec![WireArgument::Int(5), WireArgument::UnInt(6)],
    };
    let (buf, fds) = encode_request(&req);
    assert_eq!(buf.len(), 16);
    assert!(fds.is_empty());
    assert_eq!(read_u32_le(&buf, 0), 3);
    let word2 = read_u32_le(&buf, 4);
    assert_eq!((word2 >> 16) as usize, buf.len());
    assert_eq!(word2 & 0xFFFF, 9);
}

#[test]
fn file_descriptors_leave_no_payload_bytes() {
    let req = WireRequest {
        sender_id: 2,
        opcode: 0,
        args: vec![
            WireArgument::NewId(4),
            WireArgument::FileDescriptor(5),
            WireArgument::Int(64),
        ],
    };
    let (buf, fds) = encode_request(&req);
    assert_eq!(buf.len(), 16);
    assert_eq!(fds, vec![5]);
    assert_eq!(WireArgument::FileDescriptor(5).size(), 0);
}

#[test]
fn new_id_specific_encodes_name_version_id() {
    let a = WireArgument::NewIdSpecific(String::from("wl_shm"), 1, 9);
    let enc = a.as_vec_u8();
    assert_eq!(enc.len() % 4, 0);
    assert_eq!(parse_u32(&enc, 0), Ok(7));
    assert_eq!(parse_string_bytes(&enc, 0).unwrap(), b"wl_shm".to_vec());
    // name occupies 4 + 8 padded bytes; version and id follow
    assert_eq!(parse_u32(&enc, 12), Ok(1));
    assert_eq!(parse_u32(&enc, 16), Ok(9));
}

#[test]
fn parse_errors_name_the_failure() {
    assert!(matches!(parse_u32(&[], 0), Err(WaylandError::EmptyFromWirePayload)));
    assert!(matches!(parse_u32(&[1, 2], 0), Err(WaylandError::ParseError)));
    assert!(matches!(is_payload_empty(&[]), Err(WaylandError::EmptyFromWirePayload)));
    assert!(is_payload_empty(&[1]).is_ok());
    // declared length runs past the payload
    let bad = vec![10u8, 0, 0, 0, b'a'];
    assert!(matches!(parse_string_bytes(&bad, 0), Err(WaylandError::ParseError)));
    // array length not a multiple of the element size
    let badarr = vec![3u8, 0, 0, 0, 1, 2, 3];
    assert!(matches!(parse_u32_array(&badarr, 0), Err(WaylandError::ParseError)));
}

#[test]
fn event_splitter_queues_frames_in_order() {
    let mut mm = MessageManager::new();
    let mut stream: Vec<u8> = Vec::new();
    for (id, op, payload) in [(1u32, 7u16, vec![9u8, 0, 0, 0]), (2, 1, vec![])] {
        let size = (8 + payload.len()) as u32;
        stream.extend(id.to_le_bytes());
        stream.extend(((size << 16) | op as u32).to_le_bytes());
        stream.extend(&payload);
    }
    let n = mm.get_events(&stream, stream.len()).unwrap();
    assert_eq!(n, 2);
    assert_eq!(mm.q.len(), 2);
}

#[test]
fn event_splitter_rejects_short_sizes() {
    let mut mm = MessageManager::new();
    let mut stream: Vec<u8> = Vec::new();
    stream.extend(1u32.to_le_bytes());
    stream.extend(((4u32 << 16) | 0).to_le_bytes());
    assert!(matches!(
        mm.get_events(&stream, stream.len()),
        Err(WaylandError::RecvLenBad)
    ));
}

#[test]
fn staged_request_carries_its_frame() {
    let mut mm = MessageManager::new();
    let req = WireRequest { sender_id: 1, opcode: 1, args: vec![WireArgument::NewId(2)] };
    assert!(request_wf_check(&req));
    mm.send_request(&req);
    assert_eq!(mm.outgoing.len(), 1);
    let frame = &mm.outgoing[0];
    assert_eq!(read_u32_le(&frame.bytes, 0), 1);
    assert_eq!(read_u32_le(&frame.bytes, 4) >> 16, 12);
}

#[test]
fn oversized_arguments_are_detected() {
    let big = WireArgument::Arr(vec![0u8; 0x10000]);
    assert!(!arg_wf_check(&big));
    let ok = WireArgument::Arr(vec![0u8; 16]);
    assert!(arg_wf_check(&ok));
}

#[test]
fn utf8_bytes_become_the_same_string() {
    let s = string_from_utf8(b"hello".to_vec()).unwrap();
    assert_eq!(s, "hello");
    assert!(string_from_utf8(vec![0xFF, 0xFE]).is_none());
}

#[test]
fn byte_comparison_is_exact() {
    assert!(bytes_eq(b"abc", b"abc"));
    assert!(!bytes_eq(b"abc", b"abd"));
    assert!(!bytes_eq(b"abc", b"ab"));
}
