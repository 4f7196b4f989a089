//! The two halves of a peer's stream: the reader, which finds frames in the
//! bytes that arrive and recovers when it loses its place, and the writer,
//! which turns packets into frames.
//!
//! Neither half touches a transport. The reader says how many bytes it wants
//! next and is handed exactly those; the writer hands back the bytes to send.

use vstd::prelude::*;

use crate::compression::{
    compress_into_buf, compressed, decompress_into_bytes, decompressed, CompressionError,
};
use crate::config::{codec_of, Peer, PeerView};
use crate::packet_handling::{Ipv4Packet, Ipv4PacketView};
use crate::types::{
    starts_with_marker, CompressionType, EncryptionType, Header, IntoErrors, SYNC_MARKER, VERSION,
};
use crate::utils::{check_peer_allowed_ip, peer_allows};
use crate::MTU;

verus! {

/// Where a reader stands in its stream.
pub enum ReaderMode {
    /// At the start of a frame: sixteen header bytes come next.
    AwaitingHeader,
    /// Behind a header: its payload comes next.
    AwaitingPayload(Header),
    /// Lost: searching byte by byte for the next header.
    Desynced,
}

/// A reader's state as contracts see it.
pub struct ReaderView {
    pub mode: ReaderMode,
    /// The last sixteen bytes read as a header or while searching for one.
    pub window: Seq<u8>,
    /// Bytes read since the search for a header began.
    pub skipped: u64,
}

/// What a reader reports after a step, as contracts see it.
pub enum EventView {
    HeaderRead(Header),
    Desync(IntoErrors),
    Rejected(Header),
    Searching,
    FalseMarker(IntoErrors),
    Resynced(u64),
    Packet(Seq<u8>),
    Failed(CompressionError),
}

/// What a reader reports after a step.
#[derive(Debug, PartialEq, Eq)]
pub enum ReaderEvent {
    /// A header was read; its payload is awaited.
    HeaderRead(Header),
    /// Sixteen bytes that should have been a header are none: the search for
    /// the next header begins.
    Desync(IntoErrors),
    /// A header announces a payload longer than the largest packet, or a
    /// version that is not the current one: the search for the next header
    /// begins, and nothing was read.
    Rejected(Header),
    /// A byte was skipped, and the window does not start with the marker.
    Searching,
    /// A byte was skipped, and the window starts with the marker but is no
    /// header: the search goes on.
    FalseMarker(IntoErrors),
    /// The window holds a header again, after this many skipped bytes.
    Resynced(u64),
    /// A frame is complete: its decompressed payload.
    Packet(Vec<u8>),
    /// The payload could not be decompressed. The stream is to be given up.
    Failed(CompressionError),
}

impl View for ReaderEvent {
    type V = EventView;

    open spec fn view(&self) -> EventView {
        match *self {
            ReaderEvent::HeaderRead(h) => EventView::HeaderRead(h),
            ReaderEvent::Desync(e) => EventView::Desync(e),
            ReaderEvent::Rejected(h) => EventView::Rejected(h),
            ReaderEvent::Searching => EventView::Searching,
            ReaderEvent::FalseMarker(e) => EventView::FalseMarker(e),
            ReaderEvent::Resynced(n) => EventView::Resynced(n),
            ReaderEvent::Packet(p) => EventView::Packet(p@),
            ReaderEvent::Failed(e) => EventView::Failed(e),
        }
    }
}

/// Whether a reader goes on to read the payload that `h` announces.
pub open spec fn acceptable(h: Header) -> bool {
    h.version == VERSION && h.packet_length <= MTU
}

/// The number of bytes that a reader in state `s` must be handed next.
pub open spec fn wanted(s: ReaderView) -> nat {
    match s.mode {
        ReaderMode::AwaitingHeader => 16,
        ReaderMode::AwaitingPayload(h) => if acceptable(h) {
            h.packet_length as nat
        } else {
            0
        },
        ReaderMode::Desynced => 1,
    }
}

/// One more skipped byte. The count stops at the largest number it can hold.
pub open spec fn one_more(n: u64) -> u64 {
    if n < u64::MAX {
        (n + 1) as u64
    } else {
        n
    }
}

/// The window after `byte` came in at its end and its first byte left.
pub open spec fn shifted(window: Seq<u8>, byte: u8) -> Seq<u8> {
    window.skip(1).push(byte)
}

/// The state after a frame's payload was dealt with: the next frame's header
/// is awaited.
pub open spec fn after_payload(s: ReaderView) -> ReaderView {
    ReaderView { mode: ReaderMode::AwaitingHeader, ..s }
}

/// What dealing with a payload reports: the packet, or that it could not be
/// decompressed.
pub open spec fn payload_event(outcome: Option<Seq<u8>>) -> EventView {
    match outcome {
        Some(p) => EventView::Packet(p),
        None => EventView::Failed(CompressionError::CodecFailed),
    }
}

/// The state of a reader in state `s` after it was handed `bytes`, the
/// `wanted(s)` bytes that come next in its stream.
pub open spec fn next_state(s: ReaderView, bytes: Seq<u8>) -> ReaderView {
    match s.mode {
        ReaderMode::AwaitingHeader => match Header::decoding(bytes) {
            Ok(h) => ReaderView { mode: ReaderMode::AwaitingPayload(h), window: bytes, ..s },
            Err(_) => ReaderView { mode: ReaderMode::Desynced, window: bytes, skipped: 0 },
        },
        ReaderMode::AwaitingPayload(h) => if acceptable(h) {
            after_payload(s)
        } else {
            ReaderView { mode: ReaderMode::Desynced, skipped: 0, ..s }
        },
        ReaderMode::Desynced => {
            let window = shifted(s.window, bytes[0]);
            let skipped = one_more(s.skipped);
            match Header::decoding(window) {
                Ok(h) => ReaderView { mode: ReaderMode::AwaitingPayload(h), window, skipped },
                Err(_) => ReaderView { mode: ReaderMode::Desynced, window, skipped },
            }
        },
    }
}

/// What a reader in state `s` reports after it was handed `bytes`, the
/// `wanted(s)` bytes that come next in its stream.
pub open spec fn next_event(s: ReaderView, bytes: Seq<u8>) -> EventView {
    match s.mode {
        ReaderMode::AwaitingHeader => match Header::decoding(bytes) {
            Ok(h) => EventView::HeaderRead(h),
            Err(e) => EventView::Desync(e),
        },
        ReaderMode::AwaitingPayload(h) => if acceptable(h) {
            payload_event(decompressed(bytes, h.compression))
        } else {
            EventView::Rejected(h)
        },
        ReaderMode::Desynced => {
            let window = shifted(s.window, bytes[0]);
            match Header::decoding(window) {
                Ok(_) => EventView::Resynced(one_more(s.skipped)),
                Err(e) => if starts_with_marker(window) {
                    EventView::FalseMarker(e)
                } else {
                    EventView::Searching
                },
            }
        },
    }
}

/// The reading half of one peer's stream.
pub struct StreamReader {
    header: Option<Header>,
    desynced: bool,
    window: [u8; 16],
    skipped: u64,
}

impl View for StreamReader {
    type V = ReaderView;

    closed spec fn view(&self) -> ReaderView {
        ReaderView {
            mode: if self.desynced {
                ReaderMode::Desynced
            } else {
                match self.header {
                    Some(h) => ReaderMode::AwaitingPayload(h),
                    None => ReaderMode::AwaitingHeader,
                }
            },
            window: self.window@,
            skipped: self.skipped,
        }
    }
}

impl StreamReader {
    /// A reader at the start of its stream.
    pub fn new() -> (reader: StreamReader)
        ensures
            reader@.mode == ReaderMode::AwaitingHeader,
            reader@.window == Seq::new(16, |i: int| 0u8),
            reader@.skipped == 0,
    {
        let reader = StreamReader { header: None, desynced: false, window: [0u8; 16], skipped: 0 };
        assert(reader.window@ =~= Seq::new(16, |i: int| 0u8));
        reader
    }

    /// A reader's window always holds sixteen bytes.
    pub proof fn lemma_window_holds_a_header(&self)
        ensures
            self@.window.len() == 16,
    {
    }

    /// The number of bytes to read from the stream and hand to `on_bytes`.
    pub fn wanted(&self) -> (n: usize)
        ensures
            n == wanted(self@),
            n <= MTU,
    {
        if self.desynced {
            1
        } else {
            match self.header {
                Some(h) => if h.version == VERSION && h.packet_length as usize <= MTU {
                    h.packet_length as usize
                } else {
                    0
                },
                None => 16,
            }
        }
    }

    /// Ends a frame whose payload decompressed to `outcome`, or failed to:
    /// reports the packet or the failure, and awaits the next header.
    pub fn finish_frame(&mut self, outcome: Result<Vec<u8>, CompressionError>) -> (event:
        ReaderEvent)
        ensures
            final(self)@ == after_payload(old(self)@),
            match outcome {
                Ok(p) => event@ == EventView::Packet(p@),
                Err(e) => event@ == EventView::Failed(e),
            },
    {
        self.header = None;
        self.desynced = false;
        match outcome {
            Ok(p) => ReaderEvent::Packet(p),
            Err(e) => ReaderEvent::Failed(e),
        }
    }

    /// Takes the bytes that were read from the stream, as many as `wanted`
    /// said, and moves on: from a header to its payload, from a payload to
    /// the next header, and from anything that is no acceptable header to the
    /// search for the next one.
    pub fn on_bytes(&mut self, bytes: &[u8]) -> (event: ReaderEvent)
        requires
            bytes@.len() == wanted(old(self)@),
        ensures
            final(self)@ == next_state(old(self)@, bytes@),
            event@ == next_event(old(self)@, bytes@),
    {
        if self.desynced {
            let mut i: usize = 0;
            while i < 15
                invariant
                    i <= 15,
                    self.desynced == old(self).desynced,
                    self.header == old(self).header,
                    self.skipped == old(self).skipped,
                    forall|j: int| 0 <= j < i ==> self.window@[j] == old(self).window@[j + 1],
                    forall|j: int| i <= j < 16 ==> self.window@[j] == old(self).window@[j],
                decreases 15 - i,
            {
                self.window[i] = self.window[i + 1];
                i = i + 1;
            }
            self.window[15] = bytes[0];
            assert(self.window@ =~= shifted(old(self).window@, bytes@[0]));
            if self.skipped < u64::MAX {
                self.skipped = self.skipped + 1;
            }
            match Header::from_slice(self.window.as_slice()) {
                Ok(h) => {
                    self.header = Some(h);
                    self.desynced = false;
                    ReaderEvent::Resynced(self.skipped)
                },
                Err(e) => {
                    if self.window[0] == 0xac && self.window[1] == 0xab && self.window[2] == 0xc0
                        && self.window[3] == 0xde {
                        ReaderEvent::FalseMarker(e)
                    } else {
                        ReaderEvent::Searching
                    }
                },
            }
        } else {
            match self.header {
                Some(h) => {
                    if h.version == VERSION && h.packet_length as usize <= MTU {
                        let outcome = decompress_into_bytes(bytes, h.compression);
                        self.finish_frame(outcome)
                    } else {
                        self.desynced = true;
                        self.skipped = 0;
                        ReaderEvent::Rejected(h)
                    }
                },
                None => {
                    let mut i: usize = 0;
                    while i < 16
                        invariant
                            i <= 16,
                            bytes@.len() == 16,
                            self.desynced == old(self).desynced,
                            self.header == old(self).header,
                            self.skipped == old(self).skipped,
                            forall|j: int| 0 <= j < i ==> self.window@[j] == bytes@[j],
                        decreases 16 - i,
                    {
                        self.window[i] = bytes[i];
                        i = i + 1;
                    }
                    assert(self.window@ =~= bytes@);
                    match Header::from_slice(bytes) {
                        Ok(h) => {
                            self.header = Some(h);
                            ReaderEvent::HeaderRead(h)
                        },
                        Err(e) => {
                            self.desynced = true;
                            self.skipped = 0;
                            ReaderEvent::Desync(e)
                        },
                    }
                },
            }
        }
    }
}

/// What a reader makes of a stream that ends.
pub struct Delivery {
    /// The reader's state when the stream ended or was given up.
    pub reader: ReaderView,
    /// The packets delivered, first to last.
    pub packets: Seq<Seq<u8>>,
    /// Why the stream was given up, if it was.
    pub failure: Option<CompressionError>,
    /// The number of bytes at the end of the stream that were not read.
    pub unread: nat,
}

/// How far a reader is from asking for at least one byte.
pub open spec fn rank(s: ReaderView) -> nat {
    if s.mode is AwaitingPayload {
        1
    } else {
        0
    }
}

/// What a reader that starts in state `s` makes of `stream`: it takes the
/// bytes it wants, step by step, until the stream holds fewer than it wants
/// next or a payload fails to decompress.
pub open spec fn run(s: ReaderView, stream: Seq<u8>) -> Delivery
    decreases stream.len(), rank(s),
{
    let n = wanted(s) as int;
    if stream.len() < n {
        Delivery { reader: s, packets: Seq::empty(), failure: None, unread: stream.len() }
    } else {
        let next = next_state(s, stream.take(n));
        match next_event(s, stream.take(n)) {
            EventView::Failed(e) => Delivery {
                reader: next,
                packets: Seq::empty(),
                failure: Some(e),
                unread: (stream.len() - n) as nat,
            },
            EventView::Packet(p) => {
                let rest = run(next, stream.skip(n));
                Delivery { packets: seq![p] + rest.packets, ..rest }
            },
            _ => run(next, stream.skip(n)),
        }
    }
}

/// What each of `packets` holds.
pub open spec fn contents(packets: Seq<Vec<u8>>) -> Seq<Seq<u8>> {
    Seq::new(packets.len(), |i: int| packets[i]@)
}

/// What reading a stream to its end gave.
#[derive(Debug, PartialEq, Eq)]
pub struct StreamOutcome {
    /// The packets delivered, first to last.
    pub packets: Vec<Vec<u8>>,
    /// Why the stream was given up, if it was.
    pub failure: Option<CompressionError>,
    /// The number of bytes at the end of the stream that were not read.
    pub unread: usize,
}

impl StreamReader {
    /// Reads `stream` to its end, or to the first payload that does not
    /// decompress, and returns the packets delivered on the way.
    pub fn read_stream(&mut self, stream: &[u8]) -> (r: StreamOutcome)
        ensures
            final(self)@ == run(old(self)@, stream@).reader,
            contents(r.packets@) == run(old(self)@, stream@).packets,
            r.failure == run(old(self)@, stream@).failure,
            r.unread == run(old(self)@, stream@).unread,
    {
        let mut packets: Vec<Vec<u8>> = Vec::new();
        let mut at: usize = 0;
        let ghost whole = run(self@, stream@);
        assert(stream@.skip(0) =~= stream@);
        assert(contents(packets@) + whole.packets =~= whole.packets);
        loop
            invariant
                at <= stream@.len(),
                whole == run(old(self)@, stream@),
                whole.reader == run(self@, stream@.skip(at as int)).reader,
                whole.failure == run(self@, stream@.skip(at as int)).failure,
                whole.unread == run(self@, stream@.skip(at as int)).unread,
                whole.packets == contents(packets@) + run(
                    self@,
                    stream@.skip(at as int),
                ).packets,
            decreases stream@.len() - at, rank(self@),
        {
            let n = self.wanted();
            if stream.len() - at < n {
                assert(contents(packets@) + Seq::<Seq<u8>>::empty() =~= contents(packets@));
                return StreamOutcome { packets, failure: None, unread: stream.len() - at };
            }
            let ghost rest = stream@.skip(at as int);
            let chunk = vstd::slice::slice_subrange(stream, at, at + n);
            assert(chunk@ =~= rest.take(n as int));
            assert(rest.skip(n as int) =~= stream@.skip(at + n));
            let event = self.on_bytes(chunk);
            at = at + n;
            match event {
                ReaderEvent::Failed(e) => {
                    assert(contents(packets@) + Seq::<Seq<u8>>::empty() =~= contents(packets@));
                    return StreamOutcome { packets, failure: Some(e), unread: stream.len() - at };
                },
                ReaderEvent::Packet(p) => {
                    let ghost collected = contents(packets@);
                    packets.push(p);
                    assert(contents(packets@) =~= collected.push(p@));
                    assert(collected + (seq![p@] + run(self@, stream@.skip(at as int)).packets)
                        =~= collected.push(p@) + run(self@, stream@.skip(at as int)).packets);
                },
                _ => {},
            }
        }
    }
}

/// The count of skipped bytes after `m` more. The count stops at the largest
/// number it can hold.
pub open spec fn many_more(n: u64, m: nat) -> u64 {
    if n + m > u64::MAX {
        u64::MAX
    } else {
        (n + m) as u64
    }
}

/// The sixteen bytes that a searching reader holds once it has read `k` bytes
/// of `stream`, where it held `window` before.
pub open spec fn window_at(window: Seq<u8>, stream: Seq<u8>, k: int) -> Seq<u8> {
    (window + stream).subrange(k, k + 16)
}

/// A header and a payload that make a frame which a reader accepts and whose
/// content is `packet`.
pub open spec fn well_formed_frame(h: Header, payload: Seq<u8>, packet: Seq<u8>) -> bool {
    &&& h.is_valid()
    &&& payload.len() == h.packet_length
    &&& decompressed(payload, h.compression) == Some(packet)
}

/// A header that announces more than the largest packet sends the reader
/// searching, and no byte of a payload is read for it.
pub proof fn lemma_oversized_header_desyncs(s: ReaderView, h: Header, stream: Seq<u8>)
    requires
        s.mode == ReaderMode::AwaitingPayload(h),
        h.packet_length > MTU,
    ensures
        wanted(s) == 0,
        next_state(s, Seq::empty()).mode == ReaderMode::Desynced,
        next_event(s, Seq::empty()) == EventView::Rejected(h),
        run(s, stream) == run(
            ReaderView { mode: ReaderMode::Desynced, skipped: 0, ..s },
            stream,
        ),
{
    assert(stream.take(0) =~= Seq::<u8>::empty());
    assert(stream.skip(0) =~= stream);
}

/// A searching reader that meets no header on the first `m - 1` bytes of a
/// stream and one on the `m`-th goes on from there as a reader that has just
/// read that header.
pub proof fn lemma_search_finds_header(s: ReaderView, stream: Seq<u8>, m: nat, h: Header)
    requires
        s.mode == ReaderMode::Desynced,
        s.window.len() == 16,
        1 <= m <= stream.len(),
        forall|k: int| 1 <= k < m ==> (#[trigger] Header::decoding(window_at(s.window, stream, k)))
            is Err,
        Header::decoding(window_at(s.window, stream, m as int)) == Ok::<Header, IntoErrors>(h),
    ensures
        run(s, stream) == run(
            ReaderView {
                mode: ReaderMode::AwaitingPayload(h),
                window: window_at(s.window, stream, m as int),
                skipped: many_more(s.skipped, m),
            },
            stream.skip(m as int),
        ),
    decreases m,
{
    let first = stream.take(1);
    let next = next_state(s, first);
    assert(shifted(s.window, first[0]) =~= window_at(s.window, stream, 1));
    if m > 1 {
        let rest = stream.skip(1);
        assert forall|k: int| 1 <= k < m - 1 implies (#[trigger] Header::decoding(
            window_at(next.window, rest, k),
        )) is Err by {
            assert(window_at(next.window, rest, k) =~= window_at(s.window, stream, k + 1));
        }
        assert(window_at(next.window, rest, m - 1) =~= window_at(s.window, stream, m as int));
        lemma_search_finds_header(next, rest, (m - 1) as nat, h);
        assert(rest.skip(m - 1) =~= stream.skip(m as int));
    }
}

/// A reader at the start of a well-formed frame, handed the frame and
/// nothing more, delivers the frame's packet and awaits the next header.
pub proof fn lemma_frame_is_delivered(s: ReaderView, h: Header, payload: Seq<u8>, packet: Seq<u8>)
    requires
        s.mode == ReaderMode::AwaitingHeader,
        well_formed_frame(h, payload, packet),
    ensures
        run(s, h.encoding() + payload) == (Delivery {
            reader: ReaderView { mode: ReaderMode::AwaitingHeader, window: h.encoding(), ..s },
            packets: seq![packet],
            failure: None,
            unread: 0,
        }),
{
    let stream = h.encoding() + payload;
    crate::types::lemma_header_round_trip(h);
    assert(stream.take(16) =~= h.encoding());
    assert(stream.skip(16) =~= payload);
    lemma_payload_is_delivered(next_state(s, stream.take(16)), h, payload, packet);
}

/// A reader behind the header of a well-formed frame, handed the payload and
/// nothing more, delivers the frame's packet and awaits the next header.
pub proof fn lemma_payload_is_delivered(
    s: ReaderView,
    h: Header,
    payload: Seq<u8>,
    packet: Seq<u8>,
)
    requires
        s.mode == ReaderMode::AwaitingPayload(h),
        well_formed_frame(h, payload, packet),
    ensures
        run(s, payload) == (Delivery {
            reader: after_payload(s),
            packets: seq![packet],
            failure: None,
            unread: 0,
        }),
{
    let n = payload.len() as int;
    assert(payload.take(n) =~= payload);
    let end = run(after_payload(s), payload.skip(n));
    assert(end.packets =~= Seq::<Seq<u8>>::empty());
    assert(seq![packet] + end.packets =~= seq![packet]);
}

/// A searching reader, handed any bytes and then a well-formed frame with
/// which the stream ends, delivers the frame's packet, provided that on the
/// way to the frame's header its window never holds something else that reads
/// as a header.
pub proof fn lemma_resync_delivers(
    s: ReaderView,
    junk: Seq<u8>,
    h: Header,
    payload: Seq<u8>,
    packet: Seq<u8>,
)
    requires
        s.mode == ReaderMode::Desynced,
        s.window.len() == 16,
        well_formed_frame(h, payload, packet),
        forall|k: int|
            1 <= k < junk.len() + 16 ==> (#[trigger] Header::decoding(
                window_at(s.window, junk + h.encoding(), k),
            )) is Err,
    ensures
        run(s, junk + h.encoding() + payload) == (Delivery {
            reader: ReaderView {
                mode: ReaderMode::AwaitingHeader,
                window: h.encoding(),
                skipped: many_more(s.skipped, junk.len() + 16),
            },
            packets: seq![packet],
            failure: None,
            unread: 0,
        }),
{
    let stream = junk + h.encoding() + payload;
    let m = junk.len() + 16;
    crate::types::lemma_header_round_trip(h);
    assert forall|k: int| 1 <= k < m implies (#[trigger] Header::decoding(
        window_at(s.window, stream, k),
    )) is Err by {
        assert(window_at(s.window, stream, k) =~= window_at(s.window, junk + h.encoding(), k));
    }
    assert(window_at(s.window, stream, m as int) =~= h.encoding());
    lemma_search_finds_header(s, stream, m, h);
    assert(stream.skip(m as int) =~= payload);
    let behind = ReaderView {
        mode: ReaderMode::AwaitingPayload(h),
        window: h.encoding(),
        skipped: many_more(s.skipped, m),
    };
    lemma_payload_is_delivered(behind, h, payload, packet);
}

/// A reader that awaits a header and is handed some junk and then a
/// well-formed frame with which the stream ends, delivers the frame's packet
/// after skipping as many bytes as the junk has, provided that nothing that
/// starts in the junk reads as a header.
pub proof fn lemma_junk_before_frame(
    s: ReaderView,
    junk: Seq<u8>,
    h: Header,
    payload: Seq<u8>,
    packet: Seq<u8>,
)
    requires
        s.mode == ReaderMode::AwaitingHeader,
        junk.len() >= 1,
        well_formed_frame(h, payload, packet),
        forall|k: int|
            0 <= k < junk.len() ==> (#[trigger] Header::decoding(
                (junk + h.encoding()).subrange(k, k + 16),
            )) is Err,
    ensures
        run(s, junk + h.encoding() + payload) == (Delivery {
            reader: ReaderView {
                mode: ReaderMode::AwaitingHeader,
                window: h.encoding(),
                skipped: many_more(0, junk.len()),
            },
            packets: seq![packet],
            failure: None,
            unread: 0,
        }),
{
    let stream = junk + h.encoding() + payload;
    let framed = junk + h.encoding();
    let m = junk.len();
    crate::types::lemma_header_round_trip(h);
    let block = stream.take(16);
    assert(block =~= framed.subrange(0int, 0int + 16));
    assert(Header::decoding(framed.subrange(0int, 0int + 16)) is Err);
    let lost = next_state(s, block);
    let rest = stream.skip(16);
    assert forall|k: int| 1 <= k < m implies (#[trigger] Header::decoding(
        window_at(lost.window, rest, k),
    )) is Err by {
        assert(window_at(lost.window, rest, k) =~= framed.subrange(k, k + 16));
    }
    assert(window_at(lost.window, rest, m as int) =~= h.encoding());
    lemma_search_finds_header(lost, rest, m, h);
    assert(rest.skip(m as int) =~= payload);
    let behind = ReaderView {
        mode: ReaderMode::AwaitingPayload(h),
        window: h.encoding(),
        skipped: many_more(0, m),
    };
    lemma_payload_is_delivered(behind, h, payload, packet);
}

/// A reader that has read all of a stream without giving it up goes on with
/// what follows as if it had started there: the packets of both parts are
/// delivered, in order.
pub proof fn lemma_run_continues(s: ReaderView, read: Seq<u8>, more: Seq<u8>)
    requires
        run(s, read).failure is None,
        run(s, read).unread == 0,
    ensures
        run(s, read + more) == (Delivery {
            packets: run(s, read).packets + run(run(s, read).reader, more).packets,
            ..run(run(s, read).reader, more)
        }),
    decreases read.len(), rank(s),
{
    let n = wanted(s) as int;
    let whole = read + more;
    if read.len() < n {
        assert(whole =~= more);
        assert(Seq::<Seq<u8>>::empty() + run(s, more).packets =~= run(s, more).packets);
    } else {
        assert(whole.take(n) =~= read.take(n));
        assert(whole.skip(n) =~= read.skip(n) + more);
        let next = next_state(s, read.take(n));
        lemma_run_continues(next, read.skip(n), more);
        let then = run(run(s, read).reader, more);
        match next_event(s, read.take(n)) {
            EventView::Packet(p) => {
                let rest = run(next, read.skip(n));
                assert(seq![p] + (rest.packets + then.packets) =~= (seq![p] + rest.packets)
                    + then.packets);
            },
            _ => {},
        }
    }
}

/// A stream that ends with a well-formed frame has that frame's packet
/// delivered last, provided that the reader has read all that comes before
/// the frame without giving the stream up and awaits a header there.
pub proof fn lemma_final_frame_is_delivered(
    s: ReaderView,
    before: Seq<u8>,
    h: Header,
    payload: Seq<u8>,
    packet: Seq<u8>,
)
    requires
        run(s, before).failure is None,
        run(s, before).unread == 0,
        run(s, before).reader.mode == ReaderMode::AwaitingHeader,
        well_formed_frame(h, payload, packet),
    ensures
        run(s, before + (h.encoding() + payload)).packets == run(s, before).packets.push(packet),
        run(s, before + (h.encoding() + payload)).failure is None,
        run(s, before + (h.encoding() + payload)).unread == 0,
        run(s, before + (h.encoding() + payload)).reader.mode == ReaderMode::AwaitingHeader,
{
    lemma_run_continues(s, before, h.encoding() + payload);
    lemma_frame_is_delivered(run(s, before).reader, h, payload, packet);
    assert(run(s, before).packets + seq![packet] =~= run(s, before).packets.push(packet));
}

/// Room for a compressed payload: a writer gives up on a packet that takes
/// more.
pub const SCRATCH_SIZE: usize = 1600;

/// The header that a writer puts before a payload of `len` bytes compressed
/// under `t`.
pub open spec fn frame_header(len: u16, t: CompressionType) -> Header {
    Header {
        marker: SYNC_MARKER,
        version: VERSION,
        packet_length: len,
        compression: t,
        encryption: EncryptionType::Unencrypted,
    }
}

/// The frame that carries `payload`, compressed under `t`: its header, then
/// the payload.
pub open spec fn frame_of(payload: Seq<u8>, t: CompressionType) -> Seq<u8> {
    frame_header(payload.len() as u16, t).encoding() + payload
}

/// What a writer sends for `packet` to a peer whose codec is `t`: the frame
/// of the compressed packet, unless the codec fails or needs more room than
/// the writer has.
pub open spec fn framed(packet: Seq<u8>, t: CompressionType) -> Result<Seq<u8>, CompressionError> {
    match compressed(packet, t) {
        None => Err(CompressionError::CodecFailed),
        Some(payload) => if payload.len() <= SCRATCH_SIZE {
            Ok(frame_of(payload, t))
        } else {
            Err(CompressionError::OutputTooLarge)
        },
    }
}

/// Puts a header before `payload`, which was compressed under `t`. A payload
/// longer than a header can announce has no frame.
pub fn encode_frame(payload: &[u8], t: CompressionType) -> (r: Option<Vec<u8>>)
    ensures
        payload@.len() <= u16::MAX ==> (r matches Some(f) && f@ == frame_of(payload@, t)),
        payload@.len() > u16::MAX ==> r is None,
{
    if payload.len() > 65535 {
        return None;
    }
    let mut header = Header::default();
    header.packet_length = payload.len() as u16;
    header.compression = t;
    let head = header.to_bytes();
    let mut frame: Vec<u8> = Vec::with_capacity(16 + payload.len());
    frame.extend_from_slice(head.as_slice());
    frame.extend_from_slice(payload);
    assert(frame@ =~= frame_of(payload@, t));
    Some(frame)
}

/// Makes the frame that carries `packet` to a peer whose codec is `t`: the
/// packet is compressed, and the header announces the compressed length.
pub fn frame_packet(packet: &[u8], t: CompressionType) -> (r: Result<Vec<u8>, CompressionError>)
    ensures
        match framed(packet@, t) {
            Ok(frame) => r matches Ok(f) && f@ == frame,
            Err(e) => r matches Err(x) && x == e,
        },
{
    let mut scratch: Vec<u8> = vec![0u8; SCRATCH_SIZE];
    let outcome = compress_into_buf(packet, scratch.as_mut_slice(), t);
    match outcome {
        Err(e) => Err(e),
        Ok(n) => {
            let payload = vstd::slice::slice_subrange(scratch.as_slice(), 0, n);
            assert(payload@ =~= compressed(packet@, t)->0);
            match encode_frame(payload, t) {
                Some(frame) => Ok(frame),
                None => Err(CompressionError::OutputTooLarge),
            }
        },
    }
}

/// What a writer gets from the bus that fans packets out to the peers.
#[derive(Debug, PartialEq, Eq)]
pub enum BusEvent {
    /// The next packet.
    Packet(Ipv4Packet),
    /// This writer was too slow, and so many packets were dropped for it.
    Lagged(u64),
    /// The bus is closed.
    Closed,
}

/// What a writer does about an event.
#[derive(Debug, PartialEq, Eq)]
pub enum WriterAction {
    /// Write these bytes, a header and its payload, in one piece.
    Write(Vec<u8>),
    /// The packet is not for this peer: write nothing.
    Discard,
    /// Warn that so many packets were lost, and go on.
    ReportLag(u64),
    /// Give the stream up: the packet could not be compressed.
    Fail(CompressionError),
    /// Give the stream up: no packet will come any more.
    Stop,
}

/// What a writer does about an event, as contracts see it.
pub enum ActionView {
    Write(Seq<u8>),
    Discard,
    ReportLag(u64),
    Fail(CompressionError),
    Stop,
}

impl View for WriterAction {
    type V = ActionView;

    open spec fn view(&self) -> ActionView {
        match *self {
            WriterAction::Write(f) => ActionView::Write(f@),
            WriterAction::Discard => ActionView::Discard,
            WriterAction::ReportLag(n) => ActionView::ReportLag(n),
            WriterAction::Fail(e) => ActionView::Fail(e),
            WriterAction::Stop => ActionView::Stop,
        }
    }
}

/// What the writer of `peer` does about `packet`: nothing unless one of the
/// peer's address blocks contains the destination, else it sends the frame.
pub open spec fn action_for(packet: Ipv4PacketView, peer: PeerView) -> ActionView {
    if peer_allows(peer, packet.destination) {
        match framed(packet.bytes, codec_of(peer)) {
            Ok(frame) => ActionView::Write(frame),
            Err(e) => ActionView::Fail(e),
        }
    } else {
        ActionView::Discard
    }
}

/// Decides what the writer of `peer` does about `packet`.
pub fn write_packet(packet: &Ipv4Packet, peer: &Peer) -> (action: WriterAction)
    ensures
        action@ == action_for(packet@, peer@),
        action@ is Write || action@ is Fail <==> peer_allows(peer@, packet@.destination),
{
    if check_peer_allowed_ip(packet.destination(), peer) {
        match frame_packet(packet.as_bytes(), peer.compression()) {
            Ok(frame) => WriterAction::Write(frame),
            Err(e) => WriterAction::Fail(e),
        }
    } else {
        WriterAction::Discard
    }
}

/// Decides what the writer of `peer` does about an event on the bus: a
/// packet is written or discarded, a lag is reported, and the end of the bus
/// ends the writer.
pub fn on_bus_event(event: &BusEvent, peer: &Peer) -> (action: WriterAction)
    ensures
        match *event {
            BusEvent::Packet(packet) => action@ == action_for(packet@, peer@),
            BusEvent::Lagged(n) => action@ == ActionView::ReportLag(n),
            BusEvent::Closed => action@ == ActionView::Stop,
        },
{
    match event {
        BusEvent::Packet(packet) => write_packet(packet, peer),
        BusEvent::Lagged(n) => WriterAction::ReportLag(*n),
        BusEvent::Closed => WriterAction::Stop,
    }
}

/// What goes to one peer does not depend on any other: a packet is written
/// to a peer, or the peer's stream is given up over it, exactly if one of
/// that peer's address blocks contains the packet's destination.
pub proof fn lemma_no_leak_between_peers(packet: Ipv4PacketView, peer: PeerView)
    ensures
        !peer_allows(peer, packet.destination) <==> action_for(packet, peer) == ActionView::Discard,
        framed(packet.bytes, codec_of(peer)) is Ok ==> (action_for(packet, peer) is Write
            <==> peer_allows(peer, packet.destination)),
{
}

/// What a writer sends uncompressed for a packet of at most 1500 bytes, a
/// reader that awaits a header reads back as that packet.
pub proof fn lemma_uncompressed_loop_back(s: ReaderView, packet: Seq<u8>)
    requires
        s.mode == ReaderMode::AwaitingHeader,
        packet.len() <= MTU,
    ensures
        framed(packet, CompressionType::Uncompressed) is Ok,
        run(s, framed(packet, CompressionType::Uncompressed)->Ok_0).packets == seq![packet],
        run(s, framed(packet, CompressionType::Uncompressed)->Ok_0).failure is None,
        run(s, framed(packet, CompressionType::Uncompressed)->Ok_0).unread == 0,
{
    let h = frame_header(packet.len() as u16, CompressionType::Uncompressed);
    lemma_frame_is_delivered(s, h, packet, packet);
}

} // verus!
