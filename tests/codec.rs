use utracy_server::capture::{
    EventFrameMark, EventType, EventZoneBegin, EventZoneColor, EventZoneEnd, Event, UTracyEvent,
    UTracyHeader, U32SizeString, SourceLocation,
};
use utracy_server::codec::{DecodeError, push_u16, push_u32, push_u64, get_u64};
use utracy_server::wire::{
    NetworkFrameMark, NetworkHeader, NetworkMessageSourceLocation, NetworkMessageString,
    NetworkQuery, NetworkSourceCode, NetworkThreadContext, NetworkZoneBegin, NetworkZoneColor,
    NetworkZoneEnd, QueryResponseType, ServerQueryType, U16SizeString, HandshakeStatus,
};

fn sample_header() -> UTracyHeader {
    let mut program_name = [0u8; 64];
    program_name[..4].copy_from_slice(b"demo");
    let mut host_info = [0u8; 1024];
    host_info[..5].copy_from_slice(b"host1");
    UTracyHeader {
        signature: 0x6D64796361727475,
        version: 2,
        padding0: 0,
        multiplier_bits: 1.0f64.to_bits(),
        init_begin: 11,
        init_end: 12,
        delay: 13,
        resolution: 14,
        epoch: 15,
        exec_time: 16,
        process_id: 17,
        sampling_period: 18,
        flags: 1,
        cpu_arch: 2,
        cpu_manufacturer: *b"GenuineIntel",
        padding1: [0, 0],
        cpu_id: 0x1234,
        program_name,
        host_info,
        padding2: [0; 4],
    }
}

#[test]
fn integers_are_little_endian() {
    let mut out = Vec::new();
    push_u16(&mut out, 0x0102);
    push_u32(&mut out, 0x03040506);
    push_u64(&mut out, 0x0708090a0b0c0d0e);
    assert_eq!(out, vec![2, 1, 6, 5, 4, 3, 0x0e, 0x0d, 0x0c, 0x0b, 0x0a, 9, 8, 7]);
    assert_eq!(get_u64(&out, 6), 0x0708090a0b0c0d0e);
}

#[test]
fn header_round_trip() {
    let h = sample_header();
    let mut out = Vec::new();
    h.encode(&mut out);
    assert_eq!(out.len(), 1200);
    assert_eq!(&out[0..8], &0x6D64796361727475u64.to_le_bytes());
    assert_eq!(&out[108..112], b"demo");
    out.extend_from_slice(&[9, 9, 9]);
    assert_eq!(UTracyHeader::decode(&out, 0), Ok(h));
}

#[test]
fn header_truncated() {
    let mut out = Vec::new();
    sample_header().encode(&mut out);
    out.truncate(1199);
    assert_eq!(
        UTracyHeader::decode(&out, 0),
        Err(DecodeError::UnexpectedEnd { record: "UTracyHeader" })
    );
}

#[test]
fn network_header_copies_fields() {
    let h = sample_header();
    let n = NetworkHeader::from_header(&h);
    assert_eq!(n.init_begin, 11);
    assert_eq!(n.delay, 13);
    assert_eq!(n.program_name, h.program_name);
    let mut out = Vec::new();
    n.encode(&mut out);
    assert_eq!(out.len(), 1178);
    assert_eq!(NetworkHeader::decode(&out, 0), Ok(n));
}

#[test]
fn event_round_trip_each_kind() {
    let events = [
        Event::Begin(EventZoneBegin { thread_id: 3, source_location: 4, timestamp: 500 }),
        Event::End(EventZoneEnd { thread_id: 3, padding: 0, timestamp: 600 }),
        Event::Color(EventZoneColor { thread_id: 3, color: [1, 2, 3, 4], padding: 0 }),
        Event::Mark(EventFrameMark { name: 0, padding: 0, timestamp: 700 }),
    ];
    let codes = [15u8, 17, 62, 64];
    for (event, code) in events.iter().zip(codes.iter()) {
        let ev = UTracyEvent { padding: [0; 7], event: *event };
        let mut out = Vec::new();
        ev.encode(&mut out);
        assert_eq!(out.len(), 24);
        assert_eq!(out[0], *code);
        assert_eq!(UTracyEvent::decode(&out, 0), Ok(ev));
    }
}

#[test]
fn event_begin_layout() {
    let ev = UTracyEvent {
        padding: [0; 7],
        event: Event::Begin(EventZoneBegin { thread_id: 1, source_location: 2, timestamp: 3 }),
    };
    let mut out = Vec::new();
    ev.encode(&mut out);
    let mut expected = vec![15u8, 0, 0, 0, 0, 0, 0, 0, 1, 0, 0, 0, 2, 0, 0, 0, 3];
    expected.extend_from_slice(&[0; 7]);
    assert_eq!(out, expected);
    assert_eq!(ev.event_type(), EventType::Begin);
}

#[test]
fn event_unexpected_variant() {
    let mut bytes = vec![16u8];
    bytes.extend_from_slice(&[0; 23]);
    assert_eq!(
        UTracyEvent::decode(&bytes, 0),
        Err(DecodeError::UnexpectedVariant { record: "EventType", found: 16 })
    );
}

#[test]
fn event_truncated() {
    let bytes = vec![64u8, 0, 0];
    assert_eq!(
        UTracyEvent::decode(&bytes, 0),
        Err(DecodeError::UnexpectedEnd { record: "UTracyEvent" })
    );
    assert_eq!(
        UTracyEvent::decode(&bytes, 3),
        Err(DecodeError::UnexpectedEnd { record: "UTracyEvent" })
    );
}

#[test]
fn query_round_trip_and_layout() {
    let q = NetworkQuery { query_type: ServerQueryType::ServerQueryString, pointer: 0x55, extra: 7 };
    let mut out = Vec::new();
    q.encode(&mut out);
    assert_eq!(out, vec![1, 0x55, 0, 0, 0, 0, 0, 0, 0, 7, 0, 0, 0]);
    assert_eq!(NetworkQuery::decode(&out, 0), Ok(q));
}

#[test]
fn query_unknown_kind() {
    let bytes = vec![16u8, 0, 0, 0, 0, 0, 0, 0, 0, 0, 0, 0, 0];
    assert_eq!(
        NetworkQuery::decode(&bytes, 0),
        Err(DecodeError::UnexpectedVariant { record: "ServerQueryType", found: 16 })
    );
}

#[test]
fn responses_round_trip() {
    let zb = NetworkZoneBegin { query_type: QueryResponseType::ZoneBegin, timestamp: 10, source_location: 2 };
    let mut out = Vec::new();
    zb.encode(&mut out);
    assert_eq!(out, vec![15, 10, 0, 0, 0, 0, 0, 0, 0, 2, 0, 0, 0, 0, 0, 0, 0]);
    assert_eq!(NetworkZoneBegin::decode(&out, 0), Ok(zb));

    let ze = NetworkZoneEnd { query_type: QueryResponseType::ZoneEnd, timestamp: 5 };
    let mut out = Vec::new();
    ze.encode(&mut out);
    assert_eq!(out, vec![17, 5, 0, 0, 0, 0, 0, 0, 0]);
    assert_eq!(NetworkZoneEnd::decode(&out, 0), Ok(ze));

    let zc = NetworkZoneColor { query_type: QueryResponseType::ZoneColor, color_r: 1, color_g: 2, color_b: 3 };
    let mut out = Vec::new();
    zc.encode(&mut out);
    assert_eq!(out, vec![64, 1, 2, 3]);
    assert_eq!(NetworkZoneColor::decode(&out, 0), Ok(zc));

    let fm = NetworkFrameMark { query_type: QueryResponseType::FrameMarkMsg, timestamp: 9, name: 0 };
    let mut out = Vec::new();
    fm.encode(&mut out);
    assert_eq!(out[0], 66);
    assert_eq!(NetworkFrameMark::decode(&out, 0), Ok(fm));

    let tc = NetworkThreadContext { query_type: QueryResponseType::ThreadContext, thread_id: 8 };
    let mut out = Vec::new();
    tc.encode(&mut out);
    assert_eq!(out, vec![59, 8, 0, 0, 0]);
    assert_eq!(NetworkThreadContext::decode(&out, 0), Ok(tc));

    let sc = NetworkSourceCode { query_type: QueryResponseType::AckSourceCodeNotAvailable, id: 4 };
    let mut out = Vec::new();
    sc.encode(&mut out);
    assert_eq!(out, vec![92, 4, 0, 0, 0]);
    assert_eq!(NetworkSourceCode::decode(&out, 0), Ok(sc));

    let loc = SourceLocation { name: 1, function: 2, file: 3, line: 4, color_r: 5, color_g: 6, color_b: 7 };
    let sl = NetworkMessageSourceLocation { query_type: QueryResponseType::SourceLocation, location: loc };
    let mut out = Vec::new();
    sl.encode(&mut out);
    assert_eq!(out.len(), 32);
    assert_eq!(out[0], 70);
    assert_eq!(NetworkMessageSourceLocation::decode(&out, 0), Ok(sl));
}

#[test]
fn string_message_round_trip() {
    let m = NetworkMessageString {
        query_type: QueryResponseType::StringData,
        pointer: 3,
        string: U16SizeString(b"abc".to_vec()),
    };
    let mut out = Vec::new();
    m.encode(&mut out);
    assert_eq!(out, vec![98, 3, 0, 0, 0, 0, 0, 0, 0, 3, 0, b'a', b'b', b'c']);
    let (back, next) = NetworkMessageString::decode(&out, 0).unwrap();
    assert_eq!(next, out.len());
    assert_eq!(back.pointer, 3);
    assert_eq!(back.query_type, QueryResponseType::StringData);
    assert_eq!(back.string.0, b"abc".to_vec());
}

#[test]
fn u32_string_decode() {
    let s = U32SizeString(b"main.cpp".to_vec());
    let mut out = Vec::new();
    s.encode(&mut out);
    assert_eq!(&out[0..4], &[8, 0, 0, 0]);
    let (back, next) = U32SizeString::decode(&out, 0).unwrap();
    assert_eq!(back.0, b"main.cpp".to_vec());
    assert_eq!(next, 12);
    assert_eq!(
        U32SizeString::decode(&out[..10], 0).unwrap_err(),
        DecodeError::UnexpectedEnd { record: "U32SizeString" }
    );
    let bad = vec![2u8, 0, 0, 0, 0xff, 0xfe];
    assert_eq!(U32SizeString::decode(&bad, 0).unwrap_err(), DecodeError::Utf8 { record: "U32SizeString" });
}

#[test]
fn enum_codes() {
    assert_eq!(HandshakeStatus::HandshakeWelcome.to_u8(), 1);
    assert_eq!(HandshakeStatus::HandshakeProtocolMismatch.to_u8(), 2);
    assert_eq!(QueryResponseType::NumTypes.to_u8(), 111);
    assert_eq!(QueryResponseType::from_u8(98), Some(QueryResponseType::StringData));
    assert_eq!(QueryResponseType::from_u8(112), None);
    assert_eq!(ServerQueryType::from_u8(15), Some(ServerQueryType::ServerQueryDataTransferPart));
    assert_eq!(EventType::from_u8(62), Some(EventType::Color));
    assert_eq!(EventType::from_u8(63), None);
}
