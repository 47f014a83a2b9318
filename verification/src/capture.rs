//! From a captured frame to its fingerprint, and the loop that drives the
//! capture.

use crate::address::{bits_of, classify, direction_of, Direction, Ipv4Address, LocalAddressSet};
use crate::fingerprint::{
    extract_tcp_options, flags_of, is_syn_packet, kinds_text, log_line_of, mss_text,
    opens_handshake, parsed_line, signature, text_of, window_of, window_scale_text, window_size,
    Fingerprint, LogRecordView, Timestamp,
};
use crate::ipblocker::{block_command, BlockCommand, BlockCommandView, IPBlocker};
use crate::network_tap::{trace_record, trace_record_of};
use crate::options::{kinds_from, options_region};
use crate::packet::{
    ethernet_payload, ethernet_payload_of, ipv4_destination, ipv4_payload, ipv4_payload_of,
    ipv4_protocol, ipv4_source, PROTOCOL_TCP,
};
use crate::rotating_writer::{
    ops_view, FileOp, FileOpView, RotatingFileWriter, StreamError, StreamModel,
};
use crate::text::texts;
use vstd::prelude::*;
use vstd::string::{StrSliceExecFns, StringSliceAdditionalSpecFns};
use vstd::utf8::encode_utf8;

verus! {

/// What a handshake segment tells about the stack that sent it.
#[derive(Debug, PartialEq, Eq)]
pub struct Handshake {
    /// The peer.
    pub remote: Ipv4Address,
    /// Whether the peer began the connection.
    pub is_incoming: bool,
    /// The advertised window.
    pub window_size: u16,
    /// The kinds of the options, in order, joined by `-`.
    pub options: String,
    /// The maximum segment size, empty where none was given.
    pub mss: String,
    /// The window scale, empty where none was given.
    pub window_scale: String,
}

/// A handshake as plain values.
pub struct HandshakeView {
    pub remote: Ipv4Address,
    pub is_incoming: bool,
    pub window_size: int,
    pub options: Seq<char>,
    pub mss: Seq<char>,
    pub window_scale: Seq<char>,
}

impl View for Handshake {
    type V = HandshakeView;

    open spec fn view(&self) -> HandshakeView {
        HandshakeView {
            remote: self.remote,
            is_incoming: self.is_incoming,
            window_size: self.window_size as int,
            options: self.options@,
            mss: self.mss@,
            window_scale: self.window_scale@,
        }
    }
}

/// The handshake that a TCP segment holds, if it is one to fingerprint: a
/// segment of at least 20 bytes whose flags open a handshake in its
/// direction.
pub open spec fn handshake_of(segment: Seq<u8>, remote: Ipv4Address, is_incoming: bool) -> Option<
    HandshakeView,
> {
    if segment.len() >= 20 && opens_handshake(flags_of(segment), is_incoming) {
        Some(
            HandshakeView {
                remote,
                is_incoming,
                window_size: window_of(segment),
                options: kinds_text(kinds_from(options_region(segment), 0)),
                mss: mss_text(options_region(segment)),
                window_scale: window_scale_text(options_region(segment)),
            },
        )
    } else {
        None
    }
}

/// Looks at one TCP segment exchanged with `remote`. A segment shorter than
/// the fixed TCP header is dropped; so is one whose flags do not open a
/// handshake.
pub fn detect_handshake(segment: &[u8], remote: Ipv4Address, is_incoming: bool) -> (found: Option<
    Handshake,
>)
    ensures
        match found {
            Some(h) => handshake_of(segment@, remote, is_incoming) == Some(h@),
            None => handshake_of(segment@, remote, is_incoming) is None,
        },
        segment@.len() < 20 ==> found is None,
{
    if segment.len() < 20 {
        return None;
    }
    let flags = segment[13];
    if !is_syn_packet(flags, is_incoming) {
        return None;
    }
    let window_size = window_size(segment);
    let (options, mss, window_scale) = extract_tcp_options(segment);
    Some(Handshake { remote, is_incoming, window_size, options, mss, window_scale })
}

/// The address that stands in a packet at `at`.
pub open spec fn address_in(packet: Seq<u8>, at: int) -> Ipv4Address
    recommends
        0 <= at,
        at + 4 <= packet.len(),
{
    Ipv4Address {
        bits: bits_of(packet[at], packet[at + 1], packet[at + 2], packet[at + 3]) as u32,
    }
}

/// The peer of a frame and whether the frame comes in, where one of its ends
/// is local.
pub open spec fn peer_of(direction: Direction) -> Option<(Ipv4Address, bool)> {
    match direction {
        Direction::Inbound { remote } => Some((remote, true)),
        Direction::Outbound { remote } => Some((remote, false)),
        Direction::NotLocal => None,
    }
}

/// The handshake that a captured frame holds.
///
/// The frame is read as Ethernet around IPv4, whatever its type field says.
/// It holds a handshake where one of its ends is local, its peer can be a
/// peer, its protocol is TCP and its payload is a handshake segment.
pub open spec fn handshake_in(frame: Seq<u8>, local: Set<Ipv4Address>) -> Option<HandshakeView> {
    match ethernet_payload_of(frame) {
        Some(packet) => if packet.len() >= 20 {
            match peer_of(direction_of(address_in(packet, 12), address_in(packet, 16), local)) {
                Some((remote, is_incoming)) => if remote.is_peer() && packet[9] == PROTOCOL_TCP {
                    handshake_of(ipv4_payload_of(packet), remote, is_incoming)
                } else {
                    None
                },
                None => None,
            }
        } else {
            None
        },
        None => None,
    }
}

/// Looks for a handshake in one captured frame.
pub fn inspect_frame(frame: &[u8], local: &LocalAddressSet) -> (found: Option<Handshake>)
    ensures
        match found {
            Some(h) => handshake_in(frame@, local@) == Some(h@),
            None => handshake_in(frame@, local@) is None,
        },
{
    let packet = match ethernet_payload(frame) {
        Some(packet) => packet,
        None => {
            return None;
        },
    };
    let (source, destination, protocol, segment) = match (
        ipv4_source(packet.as_slice()),
        ipv4_destination(packet.as_slice()),
        ipv4_protocol(packet.as_slice()),
        ipv4_payload(packet.as_slice()),
    ) {
        (Some(s), Some(d), Some(p), Some(payload)) => (s, d, p, payload),
        _ => {
            return None;
        },
    };
    assert(source@[0] == packet@[12] && source@[1] == packet@[13] && source@[2] == packet@[14]
        && source@[3] == packet@[15]) by {
        let held = packet@.subrange(12, 16);
        assert(held[0] == packet@[12] && held[1] == packet@[13] && held[2] == packet@[14]
            && held[3] == packet@[15]);
    }
    assert(destination@[0] == packet@[16] && destination@[1] == packet@[17] && destination@[2]
        == packet@[18] && destination@[3] == packet@[19]) by {
        let held = packet@.subrange(16, 20);
        assert(held[0] == packet@[16] && held[1] == packet@[17] && held[2] == packet@[18]
            && held[3] == packet@[19]);
    }
    let source = Ipv4Address::from_octets(source[0], source[1], source[2], source[3]);
    let destination = Ipv4Address::from_octets(
        destination[0],
        destination[1],
        destination[2],
        destination[3],
    );
    let (remote, is_incoming) = match classify(source, destination, local) {
        Direction::Inbound { remote } => (remote, true),
        Direction::Outbound { remote } => (remote, false),
        Direction::NotLocal => {
            return None;
        },
    };
    if !remote.can_be_peer() {
        return None;
    }
    if protocol != PROTOCOL_TCP {
        return None;
    }
    detect_handshake(segment.as_slice(), remote, is_incoming)
}

/// The time between two flushes of a running capture, in nanoseconds.
pub const FLUSH_INTERVAL_NANOS: u128 = 60_000_000_000;

/// Where the capture stands.
#[derive(Clone, Copy, Debug, PartialEq, Eq, Structural)]
pub enum CaptureState {
    /// Frames are pulled and handled.
    Running,
    /// A stop was requested; the loop has not come round to it yet.
    ShuttingDown,
    /// Both streams are closed. Nothing follows.
    Stopped,
}

/// What the capture loop reports to the orchestrator.
#[derive(Debug, PartialEq, Eq)]
pub enum Event {
    /// A stop was requested from outside.
    StopRequested,
    /// The loop is between two frames and asks what to do next.
    Poll,
    /// A frame was pulled at the time `now`.
    Frame { bytes: Vec<u8>, now: Timestamp },
    /// Pulling a frame failed.
    ReadFailed,
    /// An operation on one of the two streams failed.
    OutputFailed,
}

/// An event as plain values.
pub enum EventView {
    StopRequested,
    Poll,
    Frame { bytes: Seq<u8>, now: Timestamp },
    ReadFailed,
    OutputFailed,
}

impl View for Event {
    type V = EventView;

    open spec fn view(&self) -> EventView {
        match self {
            Event::StopRequested => EventView::StopRequested,
            Event::Poll => EventView::Poll,
            Event::Frame { bytes, now } => EventView::Frame { bytes: bytes@, now: *now },
            Event::ReadFailed => EventView::ReadFailed,
            Event::OutputFailed => EventView::OutputFailed,
        }
    }
}

/// What the loop is to do after an event.
#[derive(Debug, PartialEq, Eq)]
pub struct Outcome {
    /// Whether to pull the next frame.
    pub pull: bool,
    /// The operations on the file of the raw trace, in order.
    pub trace_ops: Vec<FileOp>,
    /// The operations on the file of the fingerprint log, in order.
    pub log_ops: Vec<FileOp>,
    /// The command that blocks the peer of this frame, if it is to be
    /// blocked.
    pub block: Option<BlockCommand>,
    /// The line that the frame was logged as, if it held a handshake.
    pub line: Option<String>,
    /// Why a stream refused its record, if one did.
    pub error: Option<StreamError>,
}

/// An outcome as plain values.
pub struct OutcomeView {
    pub pull: bool,
    pub trace_ops: Seq<FileOpView>,
    pub log_ops: Seq<FileOpView>,
    pub block: Option<BlockCommandView>,
    pub line: Option<Seq<char>>,
    pub error: Option<StreamError>,
}

impl View for Outcome {
    type V = OutcomeView;

    open spec fn view(&self) -> OutcomeView {
        OutcomeView {
            pull: self.pull,
            trace_ops: ops_view(self.trace_ops@),
            log_ops: ops_view(self.log_ops@),
            block: match self.block {
                Some(command) => Some(command@),
                None => None,
            },
            line: text_of(self.line),
            error: self.error,
        }
    }
}

/// The record that a line of the fingerprint log is written as: its UTF-8
/// bytes and a line feed.
pub open spec fn line_record(line: Seq<char>) -> Seq<u8> {
    encode_utf8(line).push(10u8)
}

/// The state of a capture.
pub struct CaptureModel {
    pub state: CaptureState,
    pub hostname: Seq<char>,
    pub local: Set<Ipv4Address>,
    /// The signatures whose peers are blocked.
    pub blocked: Seq<Seq<char>>,
    /// The stream of the raw trace.
    pub trace: StreamModel,
    /// The stream of the fingerprint log.
    pub log: StreamModel,
    /// When both streams were last flushed.
    pub last_flush: Timestamp,
}

impl CaptureModel {
    /// Whether both streams are well formed.
    pub open spec fn well_formed(self) -> bool {
        self.trace.well_formed() && self.log.well_formed()
    }

    /// An outcome that asks for nothing.
    pub open spec fn nothing() -> OutcomeView {
        OutcomeView {
            pull: false,
            trace_ops: Seq::empty(),
            log_ops: Seq::empty(),
            block: None,
            line: None,
            error: None,
        }
    }

    /// Whether the time since the last flush exceeds the flush interval.
    pub open spec fn flush_due(self, now: Timestamp) -> bool {
        now.nanos_since_epoch() - self.last_flush.nanos_since_epoch() > FLUSH_INTERVAL_NANOS
    }

    /// The capture after closing both streams for good, behind what was
    /// done so far.
    pub open spec fn stopped(self, so_far: OutcomeView) -> (CaptureModel, OutcomeView) {
        (
            CaptureModel {
                state: CaptureState::Stopped,
                trace: self.trace.closed(),
                log: self.log.closed(),
                ..self
            },
            OutcomeView {
                pull: false,
                trace_ops: so_far.trace_ops + self.trace.close_ops(),
                log_ops: so_far.log_ops + self.log.close_ops(),
                ..so_far
            },
        )
    }

    /// The capture after flushing both streams where a flush is due, behind
    /// what was done so far.
    pub open spec fn flushed(self, now: Timestamp, so_far: OutcomeView) -> (
        CaptureModel,
        OutcomeView,
    ) {
        if self.flush_due(now) {
            (
                CaptureModel { last_flush: now, ..self },
                OutcomeView {
                    trace_ops: so_far.trace_ops + self.trace.flush_ops(),
                    log_ops: so_far.log_ops + self.log.flush_ops(),
                    ..so_far
                },
            )
        } else {
            (self, so_far)
        }
    }

    /// The signature of a handshake.
    pub open spec fn signature_of(h: HandshakeView) -> Seq<char> {
        signature(h.window_size, h.options, h.mss, h.window_scale)
    }

    /// The line that a handshake seen at `now` is logged as: the log line
    /// of its fingerprint.
    pub open spec fn line_of(self, h: HandshakeView, now: Timestamp) -> Seq<char> {
        log_line_of(self.hostname, now, h.remote, Self::signature_of(h))
    }

    /// What reading the logged line of a handshake gives, where the time has
    /// a text: this host, the time, the peer and the signature.
    pub open spec fn logged(self, h: HandshakeView, now: Timestamp) -> LogRecordView {
        LogRecordView {
            hostname: self.hostname,
            timestamp: now.text()->0,
            ip_address: h.remote.dotted(),
            muonfp_fingerprint: Self::signature_of(h),
        }
    }

    /// Whether a frame pulled at `now` is logged: it holds a handshake, and
    /// the raw trace takes the frame.
    pub open spec fn logs(self, frame: Seq<u8>, now: Timestamp) -> bool {
        let record = trace_record_of(frame, now.secs as int, now.nanos as int / 1000);
        handshake_in(frame, self.local) is Some && self.trace.write_error(record.len()) is None
    }

    /// The capture after a frame pulled at `now`.
    ///
    /// The frame goes to the raw trace first. A handshake in it is logged
    /// as one line, and its peer is blocked where its signature is on the
    /// list. Both streams are flushed where a flush is due. A stream that
    /// refuses its record ends the capture: both streams are closed.
    pub open spec fn on_frame(self, frame: Seq<u8>, now: Timestamp) -> (CaptureModel, OutcomeView) {
        let record = trace_record_of(frame, now.secs as int, now.nanos as int / 1000);
        match self.trace.write_error(record.len()) {
            Some(e) => self.stopped(OutcomeView { error: Some(e), ..Self::nothing() }),
            None => {
                let traced = CaptureModel {
                    trace: self.trace.after_write(record.len(), now.secs as nat),
                    ..self
                };
                let so_far = OutcomeView {
                    trace_ops: self.trace.write_ops(record, now.secs as nat),
                    ..Self::nothing()
                };
                match handshake_in(frame, self.local) {
                    None => traced.flushed(now, so_far),
                    Some(h) => {
                        let line = Some(self.line_of(h, now));
                        let bytes = line_record(self.line_of(h, now));
                        match self.log.write_error(bytes.len()) {
                            Some(e) => traced.stopped(
                                OutcomeView { line, error: Some(e), ..so_far },
                            ),
                            None => {
                                let logged = CaptureModel {
                                    log: self.log.after_write(bytes.len(), now.secs as nat),
                                    ..traced
                                };
                                let block = if self.blocked.contains(Self::signature_of(h)) {
                                    Some(block_command(h.remote.dotted()))
                                } else {
                                    None
                                };
                                logged.flushed(
                                    now,
                                    OutcomeView {
                                        log_ops: self.log.write_ops(bytes, now.secs as nat),
                                        block,
                                        line,
                                        ..so_far
                                    },
                                )
                            },
                        }
                    },
                }
            },
        }
    }

    /// The capture after an event, and what the loop is to do.
    ///
    /// A request to stop turns a running capture to shutting down, and
    /// nothing else. Between two frames a running capture asks for the next
    /// frame; one that is shutting down closes both streams and is stopped. A
    /// frame is handled unless the capture is stopped. A failed read changes
    /// nothing. A failed output ends the capture: both streams are closed as
    /// far as they can be.
    pub open spec fn step(self, event: EventView) -> (CaptureModel, OutcomeView) {
        match event {
            EventView::StopRequested => if self.state == CaptureState::Running {
                (CaptureModel { state: CaptureState::ShuttingDown, ..self }, Self::nothing())
            } else {
                (self, Self::nothing())
            },
            EventView::Poll => match self.state {
                CaptureState::Running => (self, OutcomeView { pull: true, ..Self::nothing() }),
                CaptureState::ShuttingDown => self.stopped(Self::nothing()),
                CaptureState::Stopped => (self, Self::nothing()),
            },
            EventView::Frame { bytes, now } => if self.state == CaptureState::Stopped {
                (self, Self::nothing())
            } else {
                self.on_frame(bytes, now)
            },
            EventView::ReadFailed => (self, Self::nothing()),
            EventView::OutputFailed => if self.state == CaptureState::Stopped {
                (self, Self::nothing())
            } else {
                self.stopped(Self::nothing())
            },
        }
    }
}

/// A stopped capture stays as it is, whatever happens, and asks for nothing.
pub proof fn lemma_stopped_is_final(m: CaptureModel, event: EventView)
    requires
        m.state == CaptureState::Stopped,
    ensures
        m.step(event) == (m, CaptureModel::nothing()),
{
}

/// A capture leaves the running state only on a request to stop, on a failed
/// output, or on a frame that one of its streams refuses. Once it is not
/// running, it never runs again. When it comes to a stop, both of its streams
/// are closed.
pub proof fn lemma_states_move_forward(m: CaptureModel, event: EventView)
    ensures
        ({
            let (after, outcome) = m.step(event);
            &&& m.state != CaptureState::Running ==> after.state != CaptureState::Running
            &&& m.state == CaptureState::Running && after.state != CaptureState::Running ==> {
                ||| event is StopRequested
                ||| event is OutputFailed
                ||| event is Frame && outcome.error is Some
            }
            &&& m.state != CaptureState::Stopped && after.state == CaptureState::Stopped ==> {
                &&& after.trace.open is None
                &&& after.log.open is None
            }
        }),
{
}

/// File operations of one list after those of another.
pub fn concat_ops(first: Vec<FileOp>, second: Vec<FileOp>) -> (both: Vec<FileOp>)
    ensures
        ops_view(both@) == ops_view(first@) + ops_view(second@),
{
    let mut both = first;
    let mut rest = second;
    both.append(&mut rest);
    assert(ops_view(both@) =~= ops_view(first@) + ops_view(second@));
    both
}

/// The capture loop's decisions: what to do with each frame, when to flush,
/// when to stop.
pub struct Orchestrator {
    state: CaptureState,
    hostname: String,
    local: LocalAddressSet,
    /// The blocked signatures, as a list that is searched in order: vstd
    /// gives `String` no hash key model, so nothing could be proved of a hash
    /// set of strings.
    blocked: Vec<String>,
    trace: RotatingFileWriter,
    log: RotatingFileWriter,
    last_flush: Timestamp,
}

impl View for Orchestrator {
    type V = CaptureModel;

    closed spec fn view(&self) -> CaptureModel {
        CaptureModel {
            state: self.state,
            hostname: self.hostname@,
            local: self.local@,
            blocked: texts(self.blocked@),
            trace: self.trace@,
            log: self.log@,
            last_flush: self.last_flush,
        }
    }
}

impl Orchestrator {
    /// A running capture over two open streams, last flushed at `now`.
    pub fn new(
        hostname: String,
        local: LocalAddressSet,
        blocked: Vec<String>,
        trace: RotatingFileWriter,
        log: RotatingFileWriter,
        now: Timestamp,
    ) -> (capture: Self)
        requires
            trace@.well_formed(),
            log@.well_formed(),
        ensures
            capture@.well_formed(),
            capture@ == (CaptureModel {
                state: CaptureState::Running,
                hostname: hostname@,
                local: local@,
                blocked: texts(blocked@),
                trace: trace@,
                log: log@,
                last_flush: now,
            }),
    {
        Orchestrator {
            state: CaptureState::Running,
            hostname,
            local,
            blocked,
            trace,
            log,
            last_flush: now,
        }
    }

    /// Where the capture stands.
    pub fn state(&self) -> (state: CaptureState)
        ensures
            state == self@.state,
    {
        self.state
    }

    /// Whether `signature` is on the list of blocked signatures.
    pub fn is_blocked(&self, signature: &String) -> (blocked: bool)
        ensures
            blocked == self@.blocked.contains(signature@),
    {
        let mut i: usize = 0;
        while i < self.blocked.len()
            invariant
                i <= self.blocked.len(),
                forall|j: int| 0 <= j < i ==> texts(self.blocked@)[j] != signature@,
            decreases self.blocked.len() - i,
        {
            if self.blocked[i] == *signature {
                assert(texts(self.blocked@)[i as int] == signature@);
                return true;
            }
            i += 1;
        }
        false
    }

    /// Whether the time since the last flush exceeds the flush interval.
    pub fn flush_due(&self, now: Timestamp) -> (due: bool)
        ensures
            due == self@.flush_due(now),
    {
        let last: u128 = self.last_flush.secs as u128 * 1_000_000_000 + self.last_flush.nanos as u128;
        let current: u128 = now.secs as u128 * 1_000_000_000 + now.nanos as u128;
        current > last + FLUSH_INTERVAL_NANOS
    }

    /// Closes both streams for good, behind what was done so far.
    fn stop(&mut self, so_far: Outcome) -> (outcome: Outcome)
        requires
            old(self)@.well_formed(),
        ensures
            final(self)@.well_formed(),
            (final(self)@, outcome@) == old(self)@.stopped(so_far@),
    {
        let log_close = self.log.flush_and_close();
        let trace_close = self.trace.flush_and_close();
        self.state = CaptureState::Stopped;
        Outcome {
            pull: false,
            trace_ops: concat_ops(so_far.trace_ops, trace_close),
            log_ops: concat_ops(so_far.log_ops, log_close),
            block: so_far.block,
            line: so_far.line,
            error: so_far.error,
        }
    }

    /// Flushes both streams where a flush is due, behind what was done so
    /// far.
    fn flush_if_due(&mut self, now: Timestamp, so_far: Outcome) -> (outcome: Outcome)
        requires
            old(self)@.well_formed(),
        ensures
            final(self)@.well_formed(),
            (final(self)@, outcome@) == old(self)@.flushed(now, so_far@),
    {
        if self.flush_due(now) {
            let log_flush = self.log.flush();
            let trace_flush = self.trace.flush();
            self.last_flush = now;
            Outcome {
                pull: so_far.pull,
                trace_ops: concat_ops(so_far.trace_ops, trace_flush),
                log_ops: concat_ops(so_far.log_ops, log_flush),
                block: so_far.block,
                line: so_far.line,
                error: so_far.error,
            }
        } else {
            so_far
        }
    }

    /// An outcome that asks for nothing.
    fn nothing() -> (outcome: Outcome)
        ensures
            outcome@ == CaptureModel::nothing(),
    {
        let outcome = Outcome {
            pull: false,
            trace_ops: Vec::new(),
            log_ops: Vec::new(),
            block: None,
            line: None,
            error: None,
        };
        assert(ops_view(outcome.trace_ops@) =~= Seq::<FileOpView>::empty());
        assert(ops_view(outcome.log_ops@) =~= Seq::<FileOpView>::empty());
        outcome
    }

    /// Handles one frame pulled at `now`.
    ///
    /// A frame that holds a handshake is logged as the line of its
    /// fingerprint. Where the time lies before the end of the year 9999,
    /// that line, read back, gives this host, the peer and the signature of
    /// the handshake.
    pub fn on_frame(&mut self, frame: &[u8], now: Timestamp) -> (outcome: Outcome)
        requires
            old(self)@.well_formed(),
            now.well_formed(),
        ensures
            final(self)@.well_formed(),
            (final(self)@, outcome@) == old(self)@.on_frame(frame@, now),
            old(self)@.logs(frame@, now) == (outcome@.line is Some),
            old(self)@.logs(frame@, now) && now.in_common_years() ==> now.text() is Some
                && parsed_line(outcome@.line->0) == Some(
                old(self)@.logged(handshake_in(frame@, old(self)@.local)->0, now),
            ),
    {
        let record = trace_record(frame, now.secs, now.nanos / 1000);
        let mut so_far = Self::nothing();
        match self.trace.write_packet(record.as_slice(), now.secs) {
            Ok(ops) => {
                so_far.trace_ops = ops;
            },
            Err(e) => {
                so_far.error = Some(e);
                return self.stop(so_far);
            },
        }
        let handshake = match inspect_frame(frame, &self.local) {
            Some(handshake) => handshake,
            None => {
                return self.flush_if_due(now, so_far);
            },
        };
        let fingerprint = Fingerprint::new(
            self.hostname.clone(),
            handshake.remote,
            handshake.window_size,
            handshake.options,
            handshake.mss,
            handshake.window_scale,
            now,
        );
        let line = fingerprint.to_json();
        let mut bytes = line.as_str().as_bytes_vec();
        bytes.push(10u8);
        so_far.line = Some(line);
        match self.log.write_packet(bytes.as_slice(), now.secs) {
            Ok(ops) => {
                so_far.log_ops = ops;
            },
            Err(e) => {
                so_far.error = Some(e);
                return self.stop(so_far);
            },
        }
        if self.is_blocked(&fingerprint.muonfp_fingerprint) {
            so_far.block = Some(IPBlocker::block_ip(fingerprint.ip_address.to_text()));
        }
        self.flush_if_due(now, so_far)
    }

    /// Takes one event: moves the capture on, and says what the loop is to
    /// do.
    pub fn step(&mut self, event: Event) -> (outcome: Outcome)
        requires
            old(self)@.well_formed(),
            event matches Event::Frame { now, .. } ==> now.well_formed(),
        ensures
            final(self)@.well_formed(),
            (final(self)@, outcome@) == old(self)@.step(event@),
            event@ matches EventView::Frame { bytes, now } ==> {
                let logs = old(self)@.state != CaptureState::Stopped && old(self)@.logs(bytes, now);
                &&& logs == (outcome@.line is Some)
                &&& logs && now.in_common_years() ==> now.text() is Some && parsed_line(
                    outcome@.line->0,
                ) == Some(old(self)@.logged(handshake_in(bytes, old(self)@.local)->0, now))
            },
    {
        match event {
            Event::StopRequested => {
                if self.state == CaptureState::Running {
                    self.state = CaptureState::ShuttingDown;
                }
                Self::nothing()
            },
            Event::Poll => match self.state {
                CaptureState::Running => {
                    let mut outcome = Self::nothing();
                    outcome.pull = true;
                    outcome
                },
                CaptureState::ShuttingDown => {
                    let so_far = Self::nothing();
                    self.stop(so_far)
                },
                CaptureState::Stopped => Self::nothing(),
            },
            Event::Frame { bytes, now } => {
                if self.state == CaptureState::Stopped {
                    Self::nothing()
                } else {
                    self.on_frame(bytes.as_slice(), now)
                }
            },
            Event::ReadFailed => Self::nothing(),
            Event::OutputFailed => {
                if self.state == CaptureState::Stopped {
                    Self::nothing()
                } else {
                    let so_far = Self::nothing();
                    self.stop(so_far)
                }
            },
        }
    }
}

} // verus!
