use utracy_server::capture::{
    Event, EventFrameMark, EventZoneBegin, EventZoneColor, EventZoneEnd, UTracyEvent, UTracyHeader,
    U32SizeString,
};
use utracy_server::codec::{push_u32, DecodeError};
use utracy_server::loader::{load_capture, LoadError, FILE_SIGNATURE};
use utracy_server::server::{
    check_client_name, frame_block, handshake_response, ServerContext, ServerError, StreamAction,
    StreamState,
};
use utracy_server::wire::{NetworkHeader, NetworkQuery, ServerQueryType};

fn header(signature: u64, version: u32) -> UTracyHeader {
    UTracyHeader {
        signature,
        version,
        padding0: 0,
        multiplier_bits: 1.0f64.to_bits(),
        init_begin: 1,
        init_end: 2,
        delay: 3,
        resolution: 4,
        epoch: 5,
        exec_time: 6,
        process_id: 7,
        sampling_period: 8,
        flags: 0,
        cpu_arch: 0,
        cpu_manufacturer: [0; 12],
        padding1: [0; 2],
        cpu_id: 0,
        program_name: [0; 64],
        host_info: [0; 1024],
        padding2: [0; 4],
    }
}

fn capture(signature: u64, version: u32, locations: &[(&str, &str, &str, u32)], events: &[Event]) -> Vec<u8> {
    let mut out = Vec::new();
    header(signature, version).encode(&mut out);
    push_u32(&mut out, locations.len() as u32);
    for (name, function, file, line) in locations {
        U32SizeString(name.as_bytes().to_vec()).encode(&mut out);
        U32SizeString(function.as_bytes().to_vec()).encode(&mut out);
        U32SizeString(file.as_bytes().to_vec()).encode(&mut out);
        push_u32(&mut out, *line);
        out.extend_from_slice(&[10, 20, 30, 255]);
    }
    for e in events {
        UTracyEvent { padding: [0; 7], event: *e }.encode(&mut out);
    }
    out
}

fn begin(t: u32, ts: u64) -> Event {
    Event::Begin(EventZoneBegin { thread_id: t, source_location: 0, timestamp: ts })
}
fn end(t: u32, ts: u64) -> Event {
    Event::End(EventZoneEnd { thread_id: t, padding: 0, timestamp: ts })
}
fn color(t: u32) -> Event {
    Event::Color(EventZoneColor { thread_id: t, color: [1, 2, 3, 0], padding: 0 })
}
fn mark(ts: u64) -> Event {
    Event::Mark(EventFrameMark { name: 0, padding: 0, timestamp: ts })
}

/// Streams everything and returns the uncompressed records that were sent.
fn replay(data: &[u8], start: usize, skip: u32, limit: u32) -> (Vec<u8>, ServerContext) {
    let mut ctx = ServerContext::new(skip, limit, start);
    loop {
        match ctx.stream_step(data).unwrap() {
            StreamAction::Finished => break,
            _ => {}
        }
    }
    let pending = ctx.encoder.clone();
    ctx.flush_buffer().unwrap();
    let framed = ctx.take_output();
    (decompress_frames(&framed, pending.len()), ctx)
}

fn decompress_frames(framed: &[u8], last_len: usize) -> Vec<u8> {
    let mut raw = Vec::new();
    let mut pos = 0;
    while pos < framed.len() {
        let n = u32::from_le_bytes(framed[pos..pos + 4].try_into().unwrap()) as usize;
        let block = &framed[pos + 4..pos + 4 + n];
        raw.extend(lz4::block::decompress(block, Some(last_len as i32)).unwrap());
        pos += 4 + n;
    }
    raw
}

#[test]
fn load_reads_locations() {
    let data = capture(FILE_SIGNATURE, 2, &[("zone", "fn", "a.cpp", 7), ("zone2", "fn", "a.cpp", 9)], &[mark(1)]);
    let c = load_capture(&data).unwrap();
    assert_eq!(c.locations.len(), 2);
    assert_eq!(c.locations[0].line, 7);
    assert_eq!(c.locations[1].line, 9);
    assert_eq!((c.locations[0].color_r, c.locations[0].color_g, c.locations[0].color_b), (10, 20, 30));
    assert_eq!(c.strings.lookup(c.locations[0].name).unwrap(), &b"zone".to_vec());
    assert_eq!(c.strings.lookup(c.locations[0].file).unwrap(), &b"a.cpp".to_vec());
    assert_eq!(c.locations[0].function, c.locations[1].function);
    assert_eq!(c.locations[0].file, c.locations[1].file);
    assert_ne!(c.locations[0].name, c.locations[1].name);
    assert_eq!(c.strings.len(), 5);
    assert_eq!(c.events_position, data.len() - 24);
}

#[test]
fn load_rejects_signature() {
    let data = capture(0x1122, 2, &[], &[]);
    assert_eq!(load_capture(&data).err(), Some(LoadError::WrongSignature { signature: 0x1122 }));
}

#[test]
fn load_rejects_version() {
    let data = capture(FILE_SIGNATURE, 3, &[], &[]);
    assert_eq!(load_capture(&data).err(), Some(LoadError::WrongVersion { version: 3 }));
}

#[test]
fn load_truncated_table() {
    let mut data = capture(FILE_SIGNATURE, 2, &[("zone", "fn", "a.cpp", 7)], &[]);
    data.truncate(data.len() - 2);
    assert_eq!(
        load_capture(&data).err(),
        Some(LoadError::Decode(DecodeError::UnexpectedEnd { record: "UTracySourceLocation" }))
    );
    let short = capture(FILE_SIGNATURE, 2, &[], &[]);
    assert_eq!(
        load_capture(&short[..1202]).err(),
        Some(LoadError::Decode(DecodeError::UnexpectedEnd { record: "LocationCount" }))
    );
}

#[test]
fn wrong_client_token() {
    assert_eq!(check_client_name(b"TracyPrf"), Ok(()));
    assert_eq!(check_client_name(b"NotTracy"), Err(ServerError::InvalidClient));
    assert_eq!(check_client_name(b"Tracy"), Err(ServerError::InvalidClient));
}

#[test]
fn handshake_welcome_and_mismatch() {
    let h = header(FILE_SIGNATURE, 2);
    let (bytes, ok) = handshake_response(76, &h);
    assert_eq!(ok, Ok(()));
    let mut expected = vec![1u8];
    NetworkHeader::from_header(&h).encode(&mut expected);
    assert_eq!(bytes, expected);
    let (bytes, err) = handshake_response(75, &h);
    assert_eq!(bytes, vec![2u8]);
    assert_eq!(err, Err(ServerError::InvalidVersion { version: 75 }));
}

#[test]
fn full_replay_in_order() {
    let events = [mark(100), begin(0, 110), end(0, 130), mark(200), begin(0, 210), color(0), end(0, 250), mark(300)];
    let data = capture(FILE_SIGNATURE, 2, &[("z", "f", "x.cpp", 1)], &events);
    let c = load_capture(&data).unwrap();
    let (raw, ctx) = replay(&data, c.events_position, 0, u32::MAX);
    let mut expected = vec![66u8];
    expected.extend_from_slice(&100u64.to_le_bytes());
    expected.extend_from_slice(&0u64.to_le_bytes());
    expected.push(15);
    expected.extend_from_slice(&110u64.to_le_bytes());
    expected.extend_from_slice(&0u64.to_le_bytes());
    expected.push(17);
    expected.extend_from_slice(&20u64.to_le_bytes());
    expected.push(66);
    expected.extend_from_slice(&200u64.to_le_bytes());
    expected.extend_from_slice(&0u64.to_le_bytes());
    expected.push(15);
    expected.extend_from_slice(&80u64.to_le_bytes());
    expected.extend_from_slice(&0u64.to_le_bytes());
    expected.extend_from_slice(&[64, 1, 2, 3]);
    expected.push(17);
    expected.extend_from_slice(&40u64.to_le_bytes());
    expected.push(66);
    expected.extend_from_slice(&300u64.to_le_bytes());
    expected.extend_from_slice(&0u64.to_le_bytes());
    assert_eq!(raw, expected);
    assert_eq!(ctx.state.frame, 3);
    assert!(ctx.finished);
}

#[test]
fn skip_frames_hold_back_events() {
    let events = [begin(0, 5), mark(100), begin(0, 110), mark(200), end(0, 220)];
    let data = capture(FILE_SIGNATURE, 2, &[], &events);
    let c = load_capture(&data).unwrap();
    let (raw, _) = replay(&data, c.events_position, 1, u32::MAX);
    let mut expected = vec![66u8];
    expected.extend_from_slice(&200u64.to_le_bytes());
    expected.extend_from_slice(&0u64.to_le_bytes());
    expected.push(17);
    expected.extend_from_slice(&220u64.to_le_bytes());
    assert_eq!(raw, expected);
}

#[test]
fn limit_frames_stop_streaming() {
    let events = [mark(1), begin(0, 2), mark(3), begin(0, 4), mark(5), begin(0, 6)];
    let data = capture(FILE_SIGNATURE, 2, &[], &events);
    let c = load_capture(&data).unwrap();
    let (raw, ctx) = replay(&data, c.events_position, 0, 1);
    assert_eq!(ctx.state.frame, 2);
    assert_eq!(ctx.cursor, c.events_position + 3 * 24);
    assert_eq!(raw.len(), 17 + 17 + 17);
    assert_eq!(raw[34], 66);
}

#[test]
fn thread_switch_once_per_run() {
    let events = [mark(1), begin(5, 10), end(5, 15), begin(6, 20), begin(6, 30), end(5, 40)];
    let data = capture(FILE_SIGNATURE, 2, &[], &events);
    let c = load_capture(&data).unwrap();
    let (raw, _) = replay(&data, c.events_position, 0, u32::MAX);
    let mut expected = vec![66u8];
    expected.extend_from_slice(&1u64.to_le_bytes());
    expected.extend_from_slice(&0u64.to_le_bytes());
    expected.extend_from_slice(&[59, 5, 0, 0, 0]);
    expected.push(15);
    expected.extend_from_slice(&10u64.to_le_bytes());
    expected.extend_from_slice(&0u64.to_le_bytes());
    expected.push(17);
    expected.extend_from_slice(&5u64.to_le_bytes());
    expected.extend_from_slice(&[59, 6, 0, 0, 0]);
    expected.push(15);
    expected.extend_from_slice(&20u64.to_le_bytes());
    expected.extend_from_slice(&0u64.to_le_bytes());
    expected.push(15);
    expected.extend_from_slice(&10u64.to_le_bytes());
    expected.extend_from_slice(&0u64.to_le_bytes());
    expected.extend_from_slice(&[59, 5, 0, 0, 0]);
    expected.push(17);
    expected.extend_from_slice(&40u64.to_le_bytes());
    assert_eq!(raw, expected);
}

#[test]
fn advance_resets_baseline_on_switch() {
    let mut st = StreamState { last_thread_id: 1, timestamp: 50, frame: 1, skip_frames: 0, limit_frames: 10 };
    let out = st.advance(&begin(2, 70));
    assert_eq!(out.len(), 5 + 17);
    assert_eq!(&out[6..14], &70u64.to_le_bytes());
    assert_eq!(st.last_thread_id, 2);
    assert_eq!(st.timestamp, 70);
    let out = st.advance(&end(2, 65));
    assert_eq!(&out[1..9], &65u64.wrapping_sub(70).to_le_bytes());
}

#[test]
fn bad_event_is_an_error() {
    let mut data = capture(FILE_SIGNATURE, 2, &[], &[mark(1)]);
    let start = data.len() - 24;
    data[start] = 3;
    let mut ctx = ServerContext::new(0, u32::MAX, start);
    assert_eq!(
        ctx.stream_step(&data),
        Err(ServerError::Decode(DecodeError::UnexpectedVariant { record: "EventType", found: 3 }))
    );
}

#[test]
fn flush_of_empty_buffer_writes_nothing() {
    let mut ctx = ServerContext::new(0, 0, 0);
    assert_eq!(ctx.flush_buffer(), Ok(()));
    assert!(ctx.output.is_empty());
    assert!(ctx.take_output().is_empty());
}

#[test]
fn flush_frames_compressed_block() {
    let mut ctx = ServerContext::new(0, 0, 0);
    let payload: Vec<u8> = (0..200u32).map(|i| (i % 7) as u8).collect();
    ctx.send_message(&payload).unwrap();
    assert_eq!(ctx.encoder, payload);
    ctx.flush_buffer().unwrap();
    assert!(ctx.encoder.is_empty());
    let out = ctx.take_output();
    assert_ne!(out[4..].to_vec(), payload);
    assert_eq!(decompress_frames(&out, payload.len()), payload);
}

#[test]
fn frame_prefix_is_length() {
    assert_eq!(frame_block(&[7, 8, 9]), Some(vec![3, 0, 0, 0, 7, 8, 9]));
    assert_eq!(frame_block(&[]), Some(vec![0, 0, 0, 0]));
}

fn query(kind: ServerQueryType, pointer: u64) -> Vec<u8> {
    let mut out = Vec::new();
    NetworkQuery { query_type: kind, pointer, extra: 0 }.encode(&mut out);
    out
}

#[test]
fn unknown_string_query_answers_unkn() {
    let data = capture(FILE_SIGNATURE, 2, &[("z", "f", "x.cpp", 1)], &[]);
    let c = load_capture(&data).unwrap();
    let mut ctx = ServerContext::new(0, 0, c.events_position);
    assert_eq!(ctx.process_query(&query(ServerQueryType::ServerQueryString, 42), &c.locations, &c.strings), Ok(true));
    let mut expected = vec![98u8];
    expected.extend_from_slice(&42u64.to_le_bytes());
    expected.extend_from_slice(&[4, 0]);
    expected.extend_from_slice(b"Unkn");
    assert_eq!(ctx.encoder, expected);
}

#[test]
fn known_string_query_answers_string() {
    let data = capture(FILE_SIGNATURE, 2, &[("zone", "f", "x.cpp", 1)], &[]);
    let c = load_capture(&data).unwrap();
    let id = c.locations[0].name;
    let mut ctx = ServerContext::new(0, 0, c.events_position);
    ctx.process_query(&query(ServerQueryType::ServerQueryString, id), &c.locations, &c.strings).unwrap();
    assert_eq!(&ctx.encoder[9..], &[4, 0, b'z', b'o', b'n', b'e']);
}

#[test]
fn other_queries() {
    let data = capture(FILE_SIGNATURE, 2, &[("zone", "f", "x.cpp", 1)], &[]);
    let c = load_capture(&data).unwrap();
    let mut ctx = ServerContext::new(0, 0, c.events_position);
    ctx.process_query(&query(ServerQueryType::ServerQueryThreadString, 9), &c.locations, &c.strings).unwrap();
    assert_eq!(&ctx.encoder[11..], b"Main");
    assert_eq!(ctx.encoder[0], 99);
    ctx.encoder.clear();
    ctx.process_query(&query(ServerQueryType::ServerQuerySourceLocation, 0), &c.locations, &c.strings).unwrap();
    assert_eq!(ctx.encoder.len(), 32);
    assert_eq!(ctx.encoder[0], 70);
    assert_eq!(&ctx.encoder[25..29], &[1, 0, 0, 0]);
    ctx.encoder.clear();
    assert_eq!(
        ctx.process_query(&query(ServerQueryType::ServerQuerySourceLocation, 1), &c.locations, &c.strings),
        Err(ServerError::UnknownLocation { index: 1 })
    );
    ctx.process_query(&query(ServerQueryType::ServerQuerySymbolCode, 0), &c.locations, &c.strings).unwrap();
    assert_eq!(ctx.encoder, vec![93]);
    ctx.encoder.clear();
    ctx.process_query(&query(ServerQueryType::ServerQuerySourceCode, 0x1_0000_0005), &c.locations, &c.strings).unwrap();
    assert_eq!(ctx.encoder, vec![92, 5, 0, 0, 0]);
    ctx.encoder.clear();
    ctx.process_query(&query(ServerQueryType::ServerQueryDataTransfer, 0), &c.locations, &c.strings).unwrap();
    ctx.process_query(&query(ServerQueryType::ServerQueryDataTransferPart, 0), &c.locations, &c.strings).unwrap();
    assert_eq!(ctx.encoder, vec![91, 91]);
    ctx.encoder.clear();
    assert_eq!(ctx.process_query(&query(ServerQueryType::ServerQuerySymbol, 0), &c.locations, &c.strings), Ok(true));
    assert!(ctx.encoder.is_empty());
    assert_eq!(ctx.process_query(&query(ServerQueryType::ServerQueryTerminate, 0), &c.locations, &c.strings), Ok(false));
    assert_eq!(
        ctx.process_query(&[3, 0, 0], &c.locations, &c.strings),
        Err(ServerError::Decode(DecodeError::UnexpectedEnd { record: "NetworkQuery" }))
    );
}

#[test]
fn empty_string_query_answers_empty() {
    let data = capture(FILE_SIGNATURE, 2, &[("z", "f", "x.cpp", 1)], &[]);
    let c = load_capture(&data).unwrap();
    let mut ctx = ServerContext::new(0, 0, c.events_position);
    assert_eq!(ctx.process_query(&query(ServerQueryType::ServerQueryString, 0), &c.locations, &c.strings), Ok(true));
    let mut expected = vec![98u8];
    expected.extend_from_slice(&0u64.to_le_bytes());
    expected.extend_from_slice(&[0, 0]);
    assert_eq!(ctx.encoder, expected);
}

#[test]
fn failed_query_queues_nothing() {
    let data = capture(FILE_SIGNATURE, 2, &[("z", "f", "x.cpp", 1)], &[]);
    let c = load_capture(&data).unwrap();
    let mut ctx = ServerContext::new(0, 0, c.events_position);
    ctx.send_message(&vec![1, 2, 3]).unwrap();
    assert!(ctx.process_query(&query(ServerQueryType::ServerQuerySourceLocation, 5), &c.locations, &c.strings).is_err());
    let mut bad = query(ServerQueryType::ServerQueryString, 0);
    bad[0] = 200;
    assert!(ctx.process_query(&bad, &c.locations, &c.strings).is_err());
    assert_eq!(ctx.encoder, vec![1, 2, 3]);
    assert!(ctx.output.is_empty());
}

#[test]
fn forced_flush_before_append() {
    let mut ctx = ServerContext::new(0, 0, 0);
    let big = vec![7u8; 250 * 1024 + 1];
    ctx.send_message(&big).unwrap();
    assert!(ctx.output.is_empty());
    ctx.send_message(&vec![9, 9]).unwrap();
    assert_eq!(ctx.encoder, vec![9, 9]);
    let out = ctx.take_output();
    let n = u32::from_le_bytes(out[0..4].try_into().unwrap()) as usize;
    assert_eq!(out.len(), 4 + n);
    assert_eq!(decompress_frames(&out, big.len()), big);
}

#[test]
fn poll_after_ten_thousand_and_one_events() {
    let mut events = vec![mark(1)];
    for i in 0..10001u64 {
        events.push(begin(0, i));
    }
    let data = capture(FILE_SIGNATURE, 2, &[], &events);
    let c = load_capture(&data).unwrap();
    let mut ctx = ServerContext::new(0, u32::MAX, c.events_position);
    let mut steps = 0;
    loop {
        steps += 1;
        match ctx.stream_step(&data).unwrap() {
            StreamAction::Poll => break,
            StreamAction::Finished => panic!("finished before polling"),
            StreamAction::Continue => {}
        }
    }
    assert_eq!(steps, 10001);
    assert_eq!(ctx.read_event, 0);
    assert!(ctx.encoder.is_empty());
    assert!(!ctx.output.is_empty());
}
