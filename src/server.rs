//! The per-connection replay: handshake decisions, event streaming with
//! skip/limit windowing and thread switches, query answers, and the
//! compressed framing of everything sent. The socket itself is driven by the
//! caller, which writes out `output` and hands over the bytes it reads.

use vstd::prelude::*;
use crate::codec::{DecodeError, tail, le_u16, le_u32, le_u64, push_u32, push_bytes, get_bytes};
use crate::capture::{UTracyHeader, UTracyEvent, Event, SourceLocation};
use crate::wire::{
    HandshakeStatus, NetworkHeader, NetworkQuery, ServerQueryType, QueryResponseType,
    NetworkZoneBegin, NetworkZoneEnd, NetworkZoneColor, NetworkFrameMark, NetworkThreadContext,
    NetworkSourceCode, NetworkMessageSourceLocation, NetworkMessageString, U16SizeString,
};
use crate::strings::StringTable;

verus! {

/// The protocol version a client must announce.
pub const PROTOCOL_VERSION: u32 = 76;

/// Above this many pending bytes, the buffer is flushed before more is added.
pub const FLUSH_THRESHOLD: usize = 250 * 1024;

/// After this many events, pending output is flushed and queries are served.
pub const EVENTS_PER_POLL: u64 = 10000;

/// The size of a query record.
pub const QUERY_SIZE: usize = 13;

/// Why a connection ends in failure. None of them concerns other connections.
#[derive(Debug, PartialEq, Eq)]
pub enum ServerError {
    /// The client did not identify itself with the expected token.
    InvalidClient,
    /// The client speaks another protocol version.
    InvalidVersion { version: u32 },
    /// An event or a query could not be decoded.
    Decode(DecodeError),
    /// A query asked for a source location that does not exist.
    UnknownLocation { index: u64 },
    /// A string is too long for the 2-byte length prefix of the wire.
    StringTooLong { id: u64 },
    /// The compressor refused the pending output.
    Compression,
    /// A compressed frame is too long for its 4-byte length prefix.
    FrameTooLarge,
}

/// The 8-byte token a client opens with.
pub open spec fn client_token() -> Seq<u8> {
    seq![84u8, 114u8, 97u8, 99u8, 121u8, 80u8, 114u8, 102u8]
}

/// Checks the client's identification token.
pub fn check_client_name(name: &[u8]) -> (r: Result<(), ServerError>)
    ensures
        r is Ok <==> name@ == client_token(),
        r is Err ==> r == Err::<(), ServerError>(ServerError::InvalidClient),
{
    if name.len() == 8 && name[0] == 84u8 && name[1] == 114u8 && name[2] == 97u8 && name[3]
        == 99u8 && name[4] == 121u8 && name[5] == 80u8 && name[6] == 114u8 && name[7] == 102u8 {
        assert(name@ =~= client_token());
        Ok(())
    } else {
        Err(ServerError::InvalidClient)
    }
}

/// The bytes that answer the client's protocol version: a welcome status and
/// the header in wire layout, or a mismatch status alone and an error.
pub fn handshake_response(version: u32, header: &UTracyHeader) -> (r: (
    Vec<u8>,
    Result<(), ServerError>,
))
    ensures
        version == PROTOCOL_VERSION ==> r.1 is Ok && r.0@ == seq![
            HandshakeStatus::HandshakeWelcome.spec_code(),
        ] + NetworkHeader::spec_from_header(*header).spec_bytes(),
        version != PROTOCOL_VERSION ==> r.1 == Err::<(), ServerError>(
            ServerError::InvalidVersion { version },
        ) && r.0@ == seq![HandshakeStatus::HandshakeProtocolMismatch.spec_code()],
{
    let mut out: Vec<u8> = Vec::new();
    if version != PROTOCOL_VERSION {
        HandshakeStatus::HandshakeProtocolMismatch.encode(&mut out);
        assert(out@ =~= seq![HandshakeStatus::HandshakeProtocolMismatch.spec_code()]);
        return (out, Err(ServerError::InvalidVersion { version }));
    }
    HandshakeStatus::HandshakeWelcome.encode(&mut out);
    NetworkHeader::from_header(header).encode(&mut out);
    assert(out@ =~= seq![HandshakeStatus::HandshakeWelcome.spec_code()]
        + NetworkHeader::spec_from_header(*header).spec_bytes());
    (out, Ok(()))
}

/// The block that the compressor makes of the given bytes.
pub uninterp spec fn lz4_block(b: Seq<u8>) -> Seq<u8>;

/// Relies on `lz4::block::compress` in its default mode and without a size
/// prefix: the block depends on the input bytes alone. Its buffer is sized by
/// `LZ4_compressBound`, so for inputs up to `LZ4_MAX_INPUT_SIZE` (0x7E000000
/// bytes) compression succeeds, and the block is never longer than
/// `n + n / 255 + 16` bytes.
#[verifier::external_body]
fn compress_block(b: &[u8]) -> (r: Option<Vec<u8>>)
    ensures
        r matches Some(v) ==> v@ == lz4_block(b@),
        r matches Some(v) ==> v@.len() <= b@.len() + b@.len() / 255 + 16,
        b@.len() <= 0x7E00_0000 ==> r is Some,
{
    lz4::block::compress(b, None, false).ok()
}

/// A frame of the stream: the block's length as 4 little-endian bytes, then
/// the block.
pub open spec fn spec_frame(block: Seq<u8>) -> Seq<u8> {
    le_u32(block.len() as u32) + block
}

/// Frames a compressed block, unless it is too long for the length prefix.
pub fn frame_block(block: &[u8]) -> (r: Option<Vec<u8>>)
    ensures
        block@.len() <= u32::MAX ==> (r matches Some(v) && v@ == spec_frame(block@)),
        block@.len() > u32::MAX ==> r is None,
{
    if block.len() > 0xffff_ffffusize {
        return None;
    }
    let mut out: Vec<u8> = Vec::new();
    push_u32(&mut out, block.len() as u32);
    push_bytes(&mut out, block);
    assert(out@ =~= spec_frame(block@));
    Some(out)
}

/// What the streaming decisions remember between events: the thread of the
/// last zone record sent, the timestamp baseline deltas are taken from, the
/// number of frame marks counted, and the window of frames to send.
#[derive(Clone, Copy, Debug, PartialEq, Eq)]
pub struct StreamState {
    pub last_thread_id: u32,
    pub timestamp: u64,
    pub frame: u64,
    pub skip_frames: u64,
    pub limit_frames: u64,
}

impl StreamState {
    /// The window fits its 32-bit options and streaming has not ended.
    pub open spec fn wf(self) -> bool {
        &&& self.skip_frames <= u32::MAX
        &&& self.limit_frames <= u32::MAX
        &&& self.frame <= self.skip_frames + self.limit_frames
    }

    /// More frames have been counted than the window allows.
    pub open spec fn spec_done(self) -> bool {
        self.frame > self.skip_frames + self.limit_frames
    }

    /// The thread a zone event belongs to; frame marks have none.
    pub open spec fn thread_of(ev: Event) -> Option<u32> {
        match ev {
            Event::Begin(b) => Some(b.thread_id),
            Event::End(e) => Some(e.thread_id),
            Event::Color(c) => Some(c.thread_id),
            Event::Mark(_) => None,
        }
    }

    /// The frame count once `ev` is counted.
    pub open spec fn frame_after(self, ev: Event) -> int {
        match ev {
            Event::Mark(_) => self.frame + 1,
            _ => self.frame as int,
        }
    }

    /// Whether `ev` is sent: only once more frames than skipped are counted.
    pub open spec fn emits(self, ev: Event) -> bool {
        self.frame_after(ev) > self.skip_frames
    }

    /// Whether sending `ev` first announces a new thread.
    pub open spec fn switches(self, ev: Event) -> bool {
        self.emits(ev) && (Self::thread_of(ev) matches Some(t) && t != self.last_thread_id)
    }

    /// The baseline the timestamp delta of `ev` is taken from: zero right
    /// after a thread switch.
    pub open spec fn base(self, ev: Event) -> u64 {
        if self.switches(ev) {
            0
        } else {
            self.timestamp
        }
    }

    /// The response record for `ev`.
    pub open spec fn response_bytes(self, ev: Event) -> Seq<u8> {
        match ev {
            Event::Begin(b) => NetworkZoneBegin {
                query_type: QueryResponseType::ZoneBegin,
                timestamp: b.timestamp.wrapping_sub(self.base(ev)),
                source_location: b.source_location as u64,
            }.spec_bytes(),
            Event::End(e) => NetworkZoneEnd {
                query_type: QueryResponseType::ZoneEnd,
                timestamp: e.timestamp.wrapping_sub(self.base(ev)),
            }.spec_bytes(),
            Event::Color(c) => NetworkZoneColor {
                query_type: QueryResponseType::ZoneColor,
                color_r: c.color[0],
                color_g: c.color[1],
                color_b: c.color[2],
            }.spec_bytes(),
            Event::Mark(m) => NetworkFrameMark {
                query_type: QueryResponseType::FrameMarkMsg,
                timestamp: m.timestamp,
                name: 0,
            }.spec_bytes(),
        }
    }

    /// The thread-context record announcing thread `t`.
    pub open spec fn context_bytes(t: u32) -> Seq<u8> {
        NetworkThreadContext { query_type: QueryResponseType::ThreadContext, thread_id: t }.spec_bytes()
    }

    /// Everything sent for `ev`: nothing while skipping; else the response,
    /// preceded by a thread-context record when the thread changes.
    pub open spec fn spec_event_bytes(self, ev: Event) -> Seq<u8> {
        if !self.emits(ev) {
            Seq::empty()
        } else if self.switches(ev) {
            Self::context_bytes(Self::thread_of(ev)->Some_0) + self.response_bytes(ev)
        } else {
            self.response_bytes(ev)
        }
    }

    /// The state after `ev`.
    pub open spec fn spec_next(self, ev: Event) -> StreamState {
        StreamState {
            last_thread_id: if self.switches(ev) {
                Self::thread_of(ev)->Some_0
            } else {
                self.last_thread_id
            },
            timestamp: if !self.emits(ev) {
                self.timestamp
            } else {
                match ev {
                    Event::Begin(b) => b.timestamp,
                    Event::End(e) => e.timestamp,
                    _ => self.base(ev),
                }
            },
            frame: self.frame_after(ev) as u64,
            ..self
        }
    }

    /// Announces thread `t` if it is not the last one, resetting the baseline.
    fn check_thread(&mut self, t: u32, out: &mut Vec<u8>)
        ensures
            old(self).last_thread_id != t ==> final(out)@ == old(out)@ + Self::context_bytes(t)
                && final(self).timestamp == 0,
            old(self).last_thread_id == t ==> final(out)@ == old(out)@ && final(self).timestamp
                == old(self).timestamp,
            final(self).last_thread_id == t,
            final(self).frame == old(self).frame,
            final(self).skip_frames == old(self).skip_frames,
            final(self).limit_frames == old(self).limit_frames,
    {
        if self.last_thread_id != t {
            self.last_thread_id = t;
            self.timestamp = 0;
            NetworkThreadContext { query_type: QueryResponseType::ThreadContext, thread_id: t }.encode(out);
        }
    }

    /// Takes one event: counts a frame mark, and gives the records to send.
    pub fn advance(&mut self, ev: &Event) -> (r: Vec<u8>)
        requires
            old(self).wf(),
        ensures
            r@ == old(self).spec_event_bytes(*ev),
            *final(self) == old(self).spec_next(*ev),
    {
        let ghost st = *self;
        let mut out: Vec<u8> = Vec::new();
        match ev {
            Event::Begin(b) => {
                if self.frame > self.skip_frames {
                    self.check_thread(b.thread_id, &mut out);
                    NetworkZoneBegin {
                        query_type: QueryResponseType::ZoneBegin,
                        timestamp: b.timestamp.wrapping_sub(self.timestamp),
                        source_location: b.source_location as u64,
                    }.encode(&mut out);
                    self.timestamp = b.timestamp;
                }
            },
            Event::End(e) => {
                if self.frame > self.skip_frames {
                    self.check_thread(e.thread_id, &mut out);
                    NetworkZoneEnd {
                        query_type: QueryResponseType::ZoneEnd,
                        timestamp: e.timestamp.wrapping_sub(self.timestamp),
                    }.encode(&mut out);
                    self.timestamp = e.timestamp;
                }
            },
            Event::Color(c) => {
                if self.frame > self.skip_frames {
                    self.check_thread(c.thread_id, &mut out);
                    NetworkZoneColor {
                        query_type: QueryResponseType::ZoneColor,
                        color_r: c.color[0],
                        color_g: c.color[1],
                        color_b: c.color[2],
                    }.encode(&mut out);
                }
            },
            Event::Mark(m) => {
                self.frame = self.frame + 1;
                if self.frame > self.skip_frames {
                    NetworkFrameMark {
                        query_type: QueryResponseType::FrameMarkMsg,
                        timestamp: m.timestamp,
                        name: 0,
                    }.encode(&mut out);
                }
            },
        }
        assert(out@ =~= st.spec_event_bytes(*ev));
        out
    }
}

/// The state and the records sent after taking the events of `evs` in order.
pub open spec fn run(st: StreamState, evs: Seq<Event>) -> (StreamState, Seq<u8>)
    decreases evs.len(),
{
    if evs.len() == 0 {
        (st, Seq::empty())
    } else {
        let (s, out) = run(st, evs.drop_last());
        (s.spec_next(evs.last()), out + s.spec_event_bytes(evs.last()))
    }
}

/// How many frame marks `evs` holds.
pub open spec fn mark_count(evs: Seq<Event>) -> nat
    decreases evs.len(),
{
    if evs.len() == 0 {
        0
    } else {
        mark_count(evs.drop_last()) + if evs.last() is Mark {
            1nat
        } else {
            0nat
        }
    }
}

/// Until more frame marks have been counted than are skipped, nothing is
/// sent.
pub proof fn lemma_skipped_frames_send_nothing(st: StreamState, evs: Seq<Event>)
    requires
        st.frame + mark_count(evs) <= st.skip_frames,
    ensures
        run(st, evs).1 == Seq::<u8>::empty(),
        run(st, evs).0.frame == st.frame + mark_count(evs),
        run(st, evs).0.skip_frames == st.skip_frames,
    decreases evs.len(),
{
    if evs.len() > 0 {
        lemma_skipped_frames_send_nothing(st, evs.drop_last());
        assert(run(st, evs).1 =~= Seq::<u8>::empty());
    }
}

/// While events are sent, a run of zone events of one thread announces the
/// thread once, before its first event, and only if the thread changed;
/// each announcement resets the timestamp baseline to zero.
pub proof fn lemma_thread_switch_once_per_run(st: StreamState, evs: Seq<Event>, t: u32, i: int)
    requires
        st.frame > st.skip_frames,
        0 <= i < evs.len(),
        forall|j: int| 0 <= j < evs.len() ==> StreamState::thread_of(#[trigger] evs[j]) == Some(t),
    ensures
        run(st, evs.take(i)).0.switches(evs[i]) == (i == 0 && st.last_thread_id != t),
        run(st, evs.take(i)).0.switches(evs[i]) ==> run(st, evs.take(i)).0.base(evs[i]) == 0,
        run(st, evs.take(i + 1)).0.last_thread_id == t,
    decreases i,
{
    lemma_run_keeps_frame(st, evs.take(i));
    assert(evs.take(i + 1).drop_last() =~= evs.take(i));
    if i > 0 {
        lemma_thread_switch_once_per_run(st, evs, t, i - 1);
        assert(evs.take(i - 1 + 1) =~= evs.take(i));
    } else {
        assert(evs.take(0) =~= Seq::<Event>::empty());
    }
}

/// Zone events leave the frame counter and the window alone.
proof fn lemma_run_keeps_frame(st: StreamState, evs: Seq<Event>)
    requires
        forall|j: int| 0 <= j < evs.len() ==> (#[trigger] StreamState::thread_of(evs[j])) is Some,
    ensures
        run(st, evs).0.frame == st.frame,
        run(st, evs).0.skip_frames == st.skip_frames,
    decreases evs.len(),
{
    if evs.len() > 0 {
        assert(StreamState::thread_of(evs[evs.len() - 1]) is Some);
        lemma_run_keeps_frame(st, evs.drop_last());
    }
}

/// Taking `a` then `b` is taking `a + b`.
pub proof fn lemma_run_split(st: StreamState, a: Seq<Event>, b: Seq<Event>)
    ensures
        run(st, a + b).0 == run(run(st, a).0, b).0,
        run(st, a + b).1 == run(st, a).1 + run(run(st, a).0, b).1,
    decreases b.len(),
{
    if b.len() == 0 {
        assert(a + b =~= a);
        assert(run(st, a).1 + Seq::<u8>::empty() =~= run(st, a).1);
    } else {
        assert((a + b).drop_last() =~= a + b.drop_last());
        lemma_run_split(st, a, b.drop_last());
        let s1 = run(st, a).0;
        let (sb, ob) = run(s1, b.drop_last());
        assert(run(st, a).1 + (ob + sb.spec_event_bytes(b.last())) =~= (run(st, a).1 + ob)
            + sb.spec_event_bytes(b.last()));
    }
}

/// On a connection, nothing has been sent for the events taken so far while
/// they hold no more frame marks than are skipped.
pub proof fn lemma_connection_sends_nothing_while_skipping(ctx: ServerContext)
    requires
        ctx.wf(),
        mark_count(ctx.history@) <= ctx.start@.skip_frames,
    ensures
        ctx.events_sent@ == Seq::<u8>::empty(),
{
    lemma_skipped_frames_send_nothing(ctx.start@, ctx.history@);
}

/// On a connection, once events are being sent, a run of zone events of one
/// thread among the events taken announces the thread only before its first
/// event, and only if the thread changed; the announcement resets the
/// timestamp baseline to zero.
pub proof fn lemma_connection_thread_switch_once(ctx: ServerContext, a: int, t: u32, i: int)
    requires
        ctx.wf(),
        0 <= a,
        0 <= i,
        a + i < ctx.history@.len(),
        run(ctx.start@, ctx.history@.take(a)).0.frame > run(ctx.start@, ctx.history@.take(a)).0.skip_frames,
        forall|j: int| a <= j < ctx.history@.len() ==> StreamState::thread_of(
            #[trigger] ctx.history@[j],
        ) == Some(t),
    ensures
        ({
            let before = run(ctx.start@, ctx.history@.take(a + i)).0;
            &&& before.switches(ctx.history@[a + i]) == (i == 0 && run(
                ctx.start@,
                ctx.history@.take(a),
            ).0.last_thread_id != t)
            &&& before.switches(ctx.history@[a + i]) ==> before.base(ctx.history@[a + i]) == 0
        }),
{
    let h = ctx.history@;
    let evs = h.subrange(a, h.len() as int);
    let sa = run(ctx.start@, h.take(a)).0;
    assert(h.take(a) + evs.take(i) =~= h.take(a + i));
    lemma_run_split(ctx.start@, h.take(a), evs.take(i));
    assert forall|j: int| 0 <= j < evs.len() implies StreamState::thread_of(#[trigger] evs[j]) == Some(t) by {
        assert(evs[j] == h[a + j]);
    }
    lemma_thread_switch_once_per_run(sa, evs, t, i);
    assert(evs[i] == h[a + i]);
}

/// Output and encoder after sending `bytes`: the pending bytes are framed
/// out first when they exceed the threshold.
pub open spec fn after_send(out: Seq<u8>, enc: Seq<u8>, bytes: Seq<u8>) -> (Seq<u8>, Seq<u8>) {
    if enc.len() > FLUSH_THRESHOLD {
        (out + spec_frame(lz4_block(enc)), bytes)
    } else {
        (out, enc + bytes)
    }
}

/// Output and encoder after a flush: nothing happens to an empty encoder.
pub open spec fn after_flush(out: Seq<u8>, enc: Seq<u8>) -> (Seq<u8>, Seq<u8>) {
    if enc.len() == 0 {
        (out, enc)
    } else {
        (out + spec_frame(lz4_block(enc)), Seq::empty())
    }
}

/// What the caller is to do after a streaming step.
#[derive(Clone, Copy, Debug, PartialEq, Eq, Structural)]
pub enum StreamAction {
    /// Write out `output` and take the next step.
    Continue,
    /// Write out `output`, serve pending queries, then take the next step.
    Poll,
    /// Streaming is over: flush, write out, and serve the last queries.
    Finished,
}

/// The string sent for an identifier that was never interned.
pub open spec fn unknown_string() -> Seq<u8> {
    seq![85u8, 110u8, 107u8, 110u8]
}

/// The name sent for every thread.
pub open spec fn thread_name() -> Seq<u8> {
    seq![77u8, 97u8, 105u8, 110u8]
}

/// The records that answer query `q`, if any, or why it cannot be answered.
pub open spec fn query_reply(
    q: NetworkQuery,
    locations: Seq<SourceLocation>,
    strings: Map<u64, Seq<u8>>,
) -> Result<Option<Seq<u8>>, ServerError> {
    match q.query_type {
        ServerQueryType::ServerQueryString => {
            let s = if strings.contains_key(q.pointer) {
                strings[q.pointer]
            } else {
                unknown_string()
            };
            if s.len() > u16::MAX {
                Err(ServerError::StringTooLong { id: q.pointer })
            } else {
                Ok(
                    Some(
                        seq![QueryResponseType::StringData.spec_code()] + le_u64(q.pointer)
                            + le_u16(s.len() as u16) + s,
                    ),
                )
            }
        },
        ServerQueryType::ServerQueryThreadString => Ok(
            Some(
                seq![QueryResponseType::ThreadName.spec_code()] + le_u64(q.pointer) + le_u16(4)
                    + thread_name(),
            ),
        ),
        ServerQueryType::ServerQuerySourceLocation => if q.pointer < locations.len() {
            Ok(
                Some(
                    NetworkMessageSourceLocation {
                        query_type: QueryResponseType::SourceLocation,
                        location: locations[q.pointer as int],
                    }.spec_bytes(),
                ),
            )
        } else {
            Err(ServerError::UnknownLocation { index: q.pointer })
        },
        ServerQueryType::ServerQuerySymbolCode => Ok(
            Some(seq![QueryResponseType::AckSymbolCodeNotAvailable.spec_code()]),
        ),
        ServerQueryType::ServerQuerySourceCode => Ok(
            Some(
                NetworkSourceCode {
                    query_type: QueryResponseType::AckSourceCodeNotAvailable,
                    id: #[verifier::truncate] (q.pointer as u32),
                }.spec_bytes(),
            ),
        ),
        ServerQueryType::ServerQueryDataTransfer | ServerQueryType::ServerQueryDataTransferPart => Ok(
            Some(seq![QueryResponseType::AckServerQueryNoop.spec_code()]),
        ),
        _ => Ok(None),
    }
}

/// A source-location query for any index below the table's length is
/// answered with the record stored at that index.
pub proof fn lemma_location_query_defined(
    q: NetworkQuery,
    locations: Seq<SourceLocation>,
    strings: Map<u64, Seq<u8>>,
)
    requires
        q.query_type == ServerQueryType::ServerQuerySourceLocation,
        q.pointer < locations.len(),
    ensures
        query_reply(q, locations, strings) == Ok::<Option<Seq<u8>>, ServerError>(
            Some(
                NetworkMessageSourceLocation {
                    query_type: QueryResponseType::SourceLocation,
                    location: locations[q.pointer as int],
                }.spec_bytes(),
            ),
        ),
{
}

/// The longest input the compressor takes; up to it, compression succeeds.
pub const MAX_BLOCK_INPUT: usize = 0x7E00_0000;

/// The state of one connection while it streams and answers queries.
/// `encoder` holds records not yet compressed; `output` holds framed bytes
/// that the caller is to write to the socket. The ghost fields record the
/// state streaming began in, the events taken so far and the records they
/// produced.
pub struct ServerContext {
    pub state: StreamState,
    pub read_event: u64,
    pub cursor: usize,
    pub finished: bool,
    pub encoder: Vec<u8>,
    pub output: Vec<u8>,
    pub start: Ghost<StreamState>,
    pub history: Ghost<Seq<Event>>,
    pub events_sent: Ghost<Seq<u8>>,
}

impl ServerContext {
    pub open spec fn wf(&self) -> bool {
        &&& self.state.skip_frames <= u32::MAX
        &&& self.state.limit_frames <= u32::MAX
        &&& self.state.frame <= self.state.skip_frames + self.state.limit_frames + 1
        &&& !self.finished ==> self.state.wf()
        &&& self.read_event <= EVENTS_PER_POLL
        &&& self.start@.frame == 0
        &&& self.state == run(self.start@, self.history@).0
        &&& self.events_sent@ == run(self.start@, self.history@).1
    }

    /// Everything but the two buffers is as in `other`.
    pub open spec fn same_position(&self, other: &ServerContext) -> bool {
        &&& self.state == other.state
        &&& self.read_event == other.read_event
        &&& self.cursor == other.cursor
        &&& self.finished == other.finished
        &&& self.start == other.start
        &&& self.history == other.history
        &&& self.events_sent == other.events_sent
    }

    /// The two buffers are as in `other`.
    pub open spec fn same_buffers(&self, other: &ServerContext) -> bool {
        &&& self.output@ == other.output@
        &&& self.encoder@ == other.encoder@
    }

    /// A connection about to stream the events that start at `cursor`.
    pub fn new(skip_frames: u32, limit_frames: u32, cursor: usize) -> (r: ServerContext)
        ensures
            r.wf(),
            r.state == (StreamState {
                last_thread_id: 0,
                timestamp: 0,
                frame: 0,
                skip_frames: skip_frames as u64,
                limit_frames: limit_frames as u64,
            }),
            r.start@ == r.state,
            r.history@.len() == 0,
            r.read_event == 0,
            r.cursor == cursor,
            !r.finished,
            r.encoder@.len() == 0,
            r.output@.len() == 0,
    {
        let state = StreamState {
            last_thread_id: 0,
            timestamp: 0,
            frame: 0,
            skip_frames: skip_frames as u64,
            limit_frames: limit_frames as u64,
        };
        ServerContext {
            state,
            read_event: 0,
            cursor,
            finished: false,
            encoder: Vec::new(),
            output: Vec::new(),
            start: Ghost(state),
            history: Ghost(Seq::empty()),
            events_sent: Ghost(Seq::empty()),
        }
    }

    /// Compresses the pending records into one frame of `output`. With
    /// nothing pending, nothing happens. It succeeds whenever the pending
    /// records fit the compressor's input; on failure nothing changes.
    pub fn flush_buffer(&mut self) -> (r: Result<(), ServerError>)
        ensures
            final(self).same_position(old(self)),
            old(self).encoder@.len() <= MAX_BLOCK_INPUT ==> r is Ok,
            old(self).encoder@.len() == 0 ==> final(self).same_buffers(old(self)),
            r is Ok ==> (final(self).output@, final(self).encoder@) == after_flush(
                old(self).output@,
                old(self).encoder@,
            ),
            r is Err ==> final(self).same_buffers(old(self)) && old(self).encoder@.len()
                > MAX_BLOCK_INPUT,
    {
        if self.encoder.len() == 0 {
            return Ok(());
        }
        let block = match compress_block(self.encoder.as_slice()) {
            None => return Err(ServerError::Compression),
            Some(b) => b,
        };
        let frame = match frame_block(block.as_slice()) {
            None => return Err(ServerError::FrameTooLarge),
            Some(f) => f,
        };
        push_bytes(&mut self.output, frame.as_slice());
        self.encoder.clear();
        assert(self.encoder@ =~= Seq::<u8>::empty());
        Ok(())
    }

    /// Queues records, flushing first when too much is pending. It succeeds
    /// whenever the pending records fit the compressor's input; on failure
    /// nothing is queued and nothing changes.
    pub fn send_message(&mut self, bytes: &Vec<u8>) -> (r: Result<(), ServerError>)
        ensures
            final(self).same_position(old(self)),
            old(self).encoder@.len() <= MAX_BLOCK_INPUT ==> r is Ok,
            r is Ok ==> (final(self).output@, final(self).encoder@) == after_send(
                old(self).output@,
                old(self).encoder@,
                bytes@,
            ),
            r is Err ==> final(self).same_buffers(old(self)) && old(self).encoder@.len()
                > MAX_BLOCK_INPUT,
    {
        if self.encoder.len() > FLUSH_THRESHOLD {
            self.flush_buffer()?;
        }
        push_bytes(&mut self.encoder, bytes.as_slice());
        Ok(())
    }

    /// Hands over the framed bytes for the caller to write.
    pub fn take_output(&mut self) -> (r: Vec<u8>)
        ensures
            r@ == old(self).output@,
            final(self).output@.len() == 0,
            final(self).encoder@ == old(self).encoder@,
            final(self).same_position(old(self)),
    {
        let mut out: Vec<u8> = Vec::new();
        std::mem::swap(&mut out, &mut self.output);
        out
    }

    /// Takes one streaming step over the capture bytes `events`: decodes the
    /// event at the cursor, queues what it sends, and says what to do next.
    /// Ends at the end of the data, or once more frames than the window
    /// allows are counted; after every `EVENTS_PER_POLL + 1` events taken
    /// without ending, it flushes and asks for a poll of the queries.
    pub fn stream_step(&mut self, events: &[u8]) -> (r: Result<StreamAction, ServerError>)
        requires
            old(self).wf(),
        ensures
            r is Ok ==> final(self).wf(),
            r is Err ==> final(self).output@ == old(self).output@,
            old(self).finished ==> r == Ok::<StreamAction, ServerError>(StreamAction::Finished)
                && final(self).same_position(old(self)) && final(self).same_buffers(old(self)),
            !old(self).finished && old(self).cursor >= events@.len() ==> r == Ok::<
                StreamAction,
                ServerError,
            >(StreamAction::Finished) && final(self).finished && final(self).state == old(
                self,
            ).state && final(self).history == old(self).history && final(self).same_buffers(
                old(self),
            ),
            !old(self).finished && old(self).cursor < events@.len() ==> match UTracyEvent::spec_parse(
                tail(events@, old(self).cursor as int),
            ) {
                Err(e) => r == Err::<StreamAction, ServerError>(ServerError::Decode(e))
                    && final(self).same_position(old(self)) && final(self).same_buffers(old(self)),
                Ok(ev) => {
                    let st = old(self).state;
                    let sent = after_send(old(self).output@, old(self).encoder@, st.spec_event_bytes(ev.event));
                    let done = st.spec_next(ev.event).spec_done();
                    &&& old(self).encoder@.len() + 32 <= MAX_BLOCK_INPUT ==> r is Ok
                    &&& r is Ok ==> {
                        &&& final(self).state == st.spec_next(ev.event)
                        &&& final(self).history@ == old(self).history@.push(ev.event)
                        &&& final(self).cursor == old(self).cursor + 24
                        &&& final(self).finished == done
                        &&& (r == Ok::<StreamAction, ServerError>(StreamAction::Finished)) == done
                        &&& (r == Ok::<StreamAction, ServerError>(StreamAction::Poll)) == (!done
                            && old(self).read_event + 1 > EVENTS_PER_POLL)
                        &&& r == Ok::<StreamAction, ServerError>(StreamAction::Poll) ==> final(self).read_event == 0
                            && (final(self).output@, final(self).encoder@) == after_flush(sent.0, sent.1)
                        &&& r == Ok::<StreamAction, ServerError>(StreamAction::Continue) ==> final(self).read_event
                            == old(self).read_event + 1
                        &&& r == Ok::<StreamAction, ServerError>(StreamAction::Finished) ==> final(self).read_event
                            == old(self).read_event
                        &&& r != Ok::<StreamAction, ServerError>(StreamAction::Poll) ==> (final(self).output@, final(self).encoder@) == sent
                    }
                },
            },
    {
        if self.finished {
            return Ok(StreamAction::Finished);
        }
        if self.cursor >= events.len() {
            self.finished = true;
            return Ok(StreamAction::Finished);
        }
        let ev = match UTracyEvent::decode(events, self.cursor) {
            Err(e) => return Err(ServerError::Decode(e)),
            Ok(ev) => ev,
        };
        let ghost st = self.state;
        let bytes = self.state.advance(&ev.event);
        assert(bytes@.len() <= 22);
        self.send_message(&bytes)?;
        proof {
            let h = self.history@;
            assert(h.push(ev.event).drop_last() =~= h);
        }
        self.history = Ghost(self.history@.push(ev.event));
        self.events_sent = Ghost(self.events_sent@ + bytes@);
        self.cursor = self.cursor + 24;
        if self.state.frame > self.state.skip_frames + self.state.limit_frames {
            self.finished = true;
            return Ok(StreamAction::Finished);
        }
        self.read_event = self.read_event + 1;
        if self.read_event > EVENTS_PER_POLL {
            self.flush_buffer()?;
            self.read_event = 0;
            return Ok(StreamAction::Poll);
        }
        Ok(StreamAction::Continue)
    }

    /// Answers one query record. Gives whether the connection goes on: a
    /// terminate query ends it. Queries of kinds this replay does not serve
    /// are ignored.
    pub fn process_query(
        &mut self,
        query: &[u8],
        locations: &Vec<SourceLocation>,
        strings: &StringTable,
    ) -> (r: Result<bool, ServerError>)
        ensures
            final(self).same_position(old(self)),
            r is Err ==> final(self).same_buffers(old(self)),
            match NetworkQuery::spec_parse(query@) {
                Err(e) => r == Err::<bool, ServerError>(ServerError::Decode(e)),
                Ok(q) => match query_reply(q, locations@, strings@) {
                    Err(e) => r == Err::<bool, ServerError>(e),
                    Ok(None) => r == Ok::<bool, ServerError>(
                        q.query_type != ServerQueryType::ServerQueryTerminate,
                    ) && final(self).same_buffers(old(self)),
                    Ok(Some(bytes)) => {
                        &&& old(self).encoder@.len() <= MAX_BLOCK_INPUT ==> r is Ok
                        &&& r is Ok ==> r == Ok::<bool, ServerError>(true) && (
                        final(self).output@,
                        final(self).encoder@,
                        ) == after_send(old(self).output@, old(self).encoder@, bytes)
                    },
                },
            },
    {
        assert(tail(query@, 0) =~= query@);
        let q = match NetworkQuery::decode(query, 0) {
            Err(e) => return Err(ServerError::Decode(e)),
            Ok(q) => q,
        };
        let mut out: Vec<u8> = Vec::new();
        match q.query_type {
            ServerQueryType::ServerQueryTerminate => {
                return Ok(false);
            },
            ServerQueryType::ServerQueryString => {
                let unknown: Vec<u8> = vec![85u8, 110u8, 107u8, 110u8];
                assert(unknown@ =~= unknown_string());
                let text: &Vec<u8> = match strings.lookup(q.pointer) {
                    Some(v) => v,
                    None => &unknown,
                };
                if text.len() > 0xffffusize {
                    return Err(ServerError::StringTooLong { id: q.pointer });
                }
                let msg = NetworkMessageString {
                    query_type: QueryResponseType::StringData,
                    pointer: q.pointer,
                    string: U16SizeString(get_bytes(text.as_slice(), 0, text.len())),
                };
                assert(msg.string.0@ =~= text@);
                msg.encode(&mut out);
                assert(out@ =~= seq![QueryResponseType::StringData.spec_code()] + le_u64(q.pointer)
                    + le_u16(text@.len() as u16) + text@);
            },
            ServerQueryType::ServerQueryThreadString => {
                let main: Vec<u8> = vec![77u8, 97u8, 105u8, 110u8];
                assert(main@ =~= thread_name());
                let msg = NetworkMessageString {
                    query_type: QueryResponseType::ThreadName,
                    pointer: q.pointer,
                    string: U16SizeString(main),
                };
                msg.encode(&mut out);
                assert(out@ =~= seq![QueryResponseType::ThreadName.spec_code()] + le_u64(q.pointer)
                    + le_u16(4) + thread_name());
            },
            ServerQueryType::ServerQuerySourceLocation => {
                if q.pointer >= locations.len() as u64 {
                    return Err(ServerError::UnknownLocation { index: q.pointer });
                }
                NetworkMessageSourceLocation {
                    query_type: QueryResponseType::SourceLocation,
                    location: locations[q.pointer as usize],
                }.encode(&mut out);
                assert(out@ =~= NetworkMessageSourceLocation {
                    query_type: QueryResponseType::SourceLocation,
                    location: locations@[q.pointer as int],
                }.spec_bytes());
            },
            ServerQueryType::ServerQuerySymbolCode => {
                QueryResponseType::AckSymbolCodeNotAvailable.encode(&mut out);
                assert(out@ =~= seq![QueryResponseType::AckSymbolCodeNotAvailable.spec_code()]);
            },
            ServerQueryType::ServerQuerySourceCode => {
                NetworkSourceCode {
                    query_type: QueryResponseType::AckSourceCodeNotAvailable,
                    id: #[verifier::truncate] (q.pointer as u32),
                }.encode(&mut out);
            },
            ServerQueryType::ServerQueryDataTransfer | ServerQueryType::ServerQueryDataTransferPart => {
                QueryResponseType::AckServerQueryNoop.encode(&mut out);
                assert(out@ =~= seq![QueryResponseType::AckServerQueryNoop.spec_code()]);
            },
            _ => {
                return Ok(true);
            },
        }
        assert(query_reply(q, locations@, strings@) == Ok::<Option<Seq<u8>>, ServerError>(Some(out@)));
        self.send_message(&out)?;
        Ok(true)
    }
}

} // verus!
