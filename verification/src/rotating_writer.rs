//! A size-bounded, append-only stream of segment files.
//!
//! The stream decides; it touches no file. Each operation returns the file
//! operations that carry it out, in order, and the caller performs them. A
//! segment is written under an in-progress name and renamed to its final name
//! when the stream moves on to the next segment or closes.

use crate::network_tap::{global_header, pcap_global_header};
use crate::text::{push_zero_padded, zero_padded};
use vstd::prelude::*;
use vstd::slice::slice_to_vec;
use vstd::string::StringExecFns;

verus! {

/// What a stream holds, which decides how each of its segments begins.
#[derive(Clone, Copy, Debug, PartialEq, Eq, Structural)]
pub enum SegmentKind {
    /// Captured frames: each segment begins with the trace file header.
    RawTrace,
    /// Lines of text: a segment begins empty.
    Records,
}

impl SegmentKind {
    /// The bytes that a fresh segment of this kind begins with.
    pub open spec fn header_bytes(self) -> Seq<u8> {
        match self {
            SegmentKind::RawTrace => global_header(),
            SegmentKind::Records => Seq::empty(),
        }
    }

    /// The bytes that a fresh segment of this kind begins with.
    pub fn header(&self) -> (bytes: Vec<u8>)
        ensures
            bytes@ == self.header_bytes(),
    {
        match self {
            SegmentKind::RawTrace => {
                let header = pcap_global_header();
                slice_to_vec(header.as_slice())
            },
            SegmentKind::Records => Vec::new(),
        }
    }
}

/// One file operation that the caller performs for the stream.
#[derive(Debug, PartialEq, Eq)]
pub enum FileOp {
    /// Create the file `path`, write `header` to it and flush.
    Open { path: String, header: Vec<u8> },
    /// Append `bytes` to the open file.
    Write { bytes: Vec<u8> },
    /// Flush the open file.
    Flush,
    /// Flush and close the open file; then, if `from` exists, rename it to
    /// `to`.
    Finalize { from: String, to: String },
}

/// A file operation as plain values.
pub enum FileOpView {
    Open { path: Seq<char>, header: Seq<u8> },
    Write { bytes: Seq<u8> },
    Flush,
    Finalize { from: Seq<char>, to: Seq<char> },
}

impl View for FileOp {
    type V = FileOpView;

    open spec fn view(&self) -> FileOpView {
        match self {
            FileOp::Open { path, header } => FileOpView::Open { path: path@, header: header@ },
            FileOp::Write { bytes } => FileOpView::Write { bytes: bytes@ },
            FileOp::Flush => FileOpView::Flush,
            FileOp::Finalize { from, to } => FileOpView::Finalize { from: from@, to: to@ },
        }
    }
}

/// A list of file operations as plain values.
pub open spec fn ops_view(ops: Seq<FileOp>) -> Seq<FileOpView> {
    ops.map_values(|op: FileOp| op@)
}

/// Why a stream refuses a record.
#[derive(Clone, Copy, Debug, PartialEq, Eq, Structural)]
pub enum StreamError {
    /// No segment is open, and the record would not open one.
    NotOpen,
    /// The next segment would need a sequence number beyond the last one.
    SequenceExhausted,
}

/// One segment of a stream, as the stream has left it.
pub struct SegmentModel {
    /// Its sequence number within the stream.
    pub sequence: nat,
    /// Its name without suffix.
    pub stem: Seq<char>,
    /// The bytes of the records appended to it.
    pub bytes: nat,
    /// The number of records appended to it.
    pub records: nat,
    /// Whether it was closed and given its final name.
    pub finalized: bool,
}

/// The suffix of a segment that is being written.
pub open spec fn in_progress_suffix() -> Seq<char> {
    ".part"@
}

/// The name of a segment without suffix: the base, the time in seconds at
/// which it was opened as ten digits, and its sequence number as four.
pub open spec fn segment_stem(base: Seq<char>, now: nat, sequence: nat) -> Seq<char> {
    base + "_"@ + zero_padded(now, 10) + "_"@ + zero_padded(sequence, 4)
}

/// The name of a segment while it is written.
pub open spec fn in_progress_name(stem: Seq<char>) -> Seq<char> {
    stem + in_progress_suffix()
}

/// The name of a segment once it is closed.
pub open spec fn final_name(stem: Seq<char>, extension: Seq<char>) -> Seq<char> {
    stem + "."@ + extension
}

/// The state of a stream, with every segment it has opened so far.
pub struct StreamModel {
    pub base: Seq<char>,
    pub extension: Seq<char>,
    pub header: Seq<u8>,
    pub max_size: nat,
    /// The bytes of the records counted towards the limit.
    pub current_size: nat,
    /// The number of segments opened so far.
    pub file_count: nat,
    /// The stem of the open segment.
    pub open: Option<Seq<char>>,
    /// Every segment opened so far, oldest first.
    pub segments: Seq<SegmentModel>,
}

impl StreamModel {
    /// A stream before its first segment.
    pub open spec fn unopened(
        base: Seq<char>,
        max_size: nat,
        extension: Seq<char>,
        header: Seq<u8>,
    ) -> StreamModel {
        StreamModel {
            base,
            extension,
            header,
            max_size,
            current_size: 0,
            file_count: 0,
            open: None,
            segments: Seq::empty(),
        }
    }

    /// Whether a record of `len` bytes would push the open segment over the
    /// limit.
    pub open spec fn needs_rotation(self, len: nat) -> bool {
        self.current_size + len > self.max_size
    }

    /// The segments with the last one marked as finalized.
    pub open spec fn segments_closed(self) -> Seq<SegmentModel> {
        if self.open is Some && self.segments.len() > 0 {
            let last = self.segments.last();
            self.segments.update(
                self.segments.len() - 1,
                SegmentModel { finalized: true, ..last },
            )
        } else {
            self.segments
        }
    }

    /// The operations that close the open segment, if there is one.
    pub open spec fn close_ops(self) -> Seq<FileOpView> {
        match self.open {
            Some(stem) => seq![
                FileOpView::Finalize {
                    from: in_progress_name(stem),
                    to: final_name(stem, self.extension),
                },
            ],
            None => Seq::empty(),
        }
    }

    /// The stream after closing its open segment.
    pub open spec fn closed(self) -> StreamModel {
        StreamModel { open: None, segments: self.segments_closed(), ..self }
    }

    /// The stream after moving on to a fresh segment at time `now`.
    pub open spec fn rotated(self, now: nat) -> StreamModel {
        let stem = segment_stem(self.base, now, self.file_count);
        StreamModel {
            current_size: 0,
            file_count: self.file_count + 1,
            open: Some(stem),
            segments: self.segments_closed().push(
                SegmentModel {
                    sequence: self.file_count,
                    stem,
                    bytes: 0,
                    records: 0,
                    finalized: false,
                },
            ),
            ..self
        }
    }

    /// The operations that move the stream on to a fresh segment.
    pub open spec fn rotation_ops(self, now: nat) -> Seq<FileOpView> {
        self.close_ops().push(
            FileOpView::Open {
                path: in_progress_name(segment_stem(self.base, now, self.file_count)),
                header: self.header,
            },
        )
    }

    /// The stream after appending `len` bytes to its open segment.
    pub open spec fn appended(self, len: nat) -> StreamModel {
        let last = self.segments.last();
        StreamModel {
            current_size: self.current_size + len,
            segments: self.segments.update(
                self.segments.len() - 1,
                SegmentModel { bytes: last.bytes + len, records: last.records + 1, ..last },
            ),
            ..self
        }
    }

    /// Why the stream refuses a record of `len` bytes, if it does.
    pub open spec fn write_error(self, len: nat) -> Option<StreamError> {
        if self.needs_rotation(len) {
            if self.file_count >= u32::MAX {
                Some(StreamError::SequenceExhausted)
            } else {
                None
            }
        } else if self.open is None {
            Some(StreamError::NotOpen)
        } else {
            None
        }
    }

    /// The stream after it has taken a record of `len` bytes at time `now`:
    /// it moves on to a fresh segment first where the record would push the
    /// open one over the limit.
    pub open spec fn after_write(self, len: nat, now: nat) -> StreamModel {
        if self.needs_rotation(len) {
            self.rotated(now).appended(len)
        } else {
            self.appended(len)
        }
    }

    /// The operations that append the record `bytes` at time `now`.
    pub open spec fn write_ops(self, bytes: Seq<u8>, now: nat) -> Seq<FileOpView> {
        if self.needs_rotation(bytes.len()) {
            self.rotation_ops(now).push(FileOpView::Write { bytes })
        } else {
            seq![FileOpView::Write { bytes }]
        }
    }

    /// The operations that flush the stream.
    pub open spec fn flush_ops(self) -> Seq<FileOpView> {
        if self.open is Some {
            seq![FileOpView::Flush]
        } else {
            Seq::empty()
        }
    }

    /// What holds of a stream at all times.
    ///
    /// The segments are numbered 0, 1, 2, ... without gaps. All but the last
    /// are finalized, and the last is finalized exactly when none is open.
    /// The size counted towards the limit is that of the last segment. No
    /// segment holds more than the limit, but for a segment that consists of
    /// one record which alone is larger.
    pub open spec fn well_formed(self) -> bool {
        &&& self.segments.len() == self.file_count
        &&& forall|i: int| 0 <= i < self.segments.len() ==> (#[trigger] self.segments[i]).sequence == i
        &&& forall|i: int|
            0 <= i < self.segments.len() - 1 ==> (#[trigger] self.segments[i]).finalized
        &&& forall|i: int|
            0 <= i < self.segments.len() ==> {
                let s = #[trigger] self.segments[i];
                s.bytes <= self.max_size || s.records == 1
            }
        &&& self.open is Some ==> self.segments.len() > 0
        &&& self.segments.len() > 0 ==> {
            let last = self.segments.last();
            &&& last.finalized == (self.open is None)
            &&& last.bytes == self.current_size
            &&& self.open is Some ==> self.open == Some(last.stem)
        }
        &&& self.segments.len() == 0 ==> self.current_size == 0
    }

    /// The stream after a run of records, each given by its length and the
    /// time at which it is appended. A record that the stream refuses leaves
    /// it as it is.
    pub open spec fn after_writes(self, records: Seq<(nat, nat)>) -> StreamModel
        decreases records.len(),
    {
        if records.len() == 0 {
            self
        } else {
            let before = self.after_writes(records.drop_last());
            let (len, now) = records.last();
            if before.write_error(len) is None {
                before.after_write(len, now)
            } else {
                before
            }
        }
    }
}

/// Moving on to a fresh segment keeps the invariant.
pub proof fn lemma_rotated_keeps_invariant(m: StreamModel, now: nat)
    requires
        m.well_formed(),
    ensures
        m.rotated(now).well_formed(),
        m.rotated(now).open is Some,
        m.rotated(now).current_size == 0,
{
}

/// Closing keeps the invariant.
pub proof fn lemma_closed_keeps_invariant(m: StreamModel)
    requires
        m.well_formed(),
    ensures
        m.closed().well_formed(),
{
}

/// Taking a record keeps the invariant.
pub proof fn lemma_write_keeps_invariant(m: StreamModel, len: nat, now: nat)
    requires
        m.well_formed(),
        m.write_error(len) is None,
    ensures
        m.after_write(len, now).well_formed(),
{
    if m.needs_rotation(len) {
        lemma_rotated_keeps_invariant(m, now);
    }
}

/// Whatever records a stream takes, it stays well formed: its segments are
/// numbered 0, 1, 2, ... in the order in which they were opened, and none
/// holds more than the limit, unless it consists of a single record that is
/// larger than the limit by itself.
pub proof fn lemma_rotation_invariant(m: StreamModel, records: Seq<(nat, nat)>)
    requires
        m.well_formed(),
    ensures
        m.after_writes(records).well_formed(),
        m.after_writes(records).max_size == m.max_size,
        forall|i: int|
            0 <= i < m.after_writes(records).segments.len() ==> {
                let s = #[trigger] m.after_writes(records).segments[i];
                &&& s.sequence == i
                &&& s.bytes <= m.max_size || s.records == 1
            },
    decreases records.len(),
{
    if records.len() > 0 {
        lemma_rotation_invariant(m, records.drop_last());
        let before = m.after_writes(records.drop_last());
        let (len, now) = records.last();
        if before.write_error(len) is None {
            lemma_write_keeps_invariant(before, len, now);
        }
    }
}

/// Where no record is larger than the limit, no segment ever holds more than
/// the limit, whatever records the stream takes.
pub proof fn lemma_segments_stay_bounded(m: StreamModel, records: Seq<(nat, nat)>)
    requires
        m.well_formed(),
        forall|i: int| 0 <= i < m.segments.len() ==> (#[trigger] m.segments[i]).bytes <= m.max_size,
        forall|k: int| 0 <= k < records.len() ==> (#[trigger] records[k]).0 <= m.max_size,
    ensures
        forall|i: int|
            0 <= i < m.after_writes(records).segments.len() ==> (#[trigger] m.after_writes(
                records,
            ).segments[i]).bytes <= m.max_size,
    decreases records.len(),
{
    if records.len() > 0 {
        let earlier = records.drop_last();
        assert forall|k: int| 0 <= k < earlier.len() implies (#[trigger] earlier[k]).0
            <= m.max_size by {
            assert(earlier[k] == records[k]);
        }
        lemma_segments_stay_bounded(m, earlier);
        lemma_rotation_invariant(m, earlier);
        let before = m.after_writes(earlier);
        let (len, now) = records.last();
        assert(records[records.len() - 1].0 <= m.max_size);
    }
}

/// The life of a stream, from its opening at `now` through any run of records
/// to its close: every segment it leaves is finalized, the segments are
/// numbered 0, 1, 2, ... in the order in which they were opened, and where no
/// record is larger than the limit, no segment holds more than the limit.
pub proof fn lemma_stream_lifetime(
    base: Seq<char>,
    max_size: nat,
    extension: Seq<char>,
    header: Seq<u8>,
    now: nat,
    records: Seq<(nat, nat)>,
)
    ensures
        ({
            let opened = StreamModel::unopened(base, max_size, extension, header).rotated(now);
            let end = opened.after_writes(records).closed();
            &&& end.well_formed()
            &&& end.segments.len() == end.file_count
            &&& forall|i: int|
                0 <= i < end.segments.len() ==> {
                    let s = #[trigger] end.segments[i];
                    &&& s.finalized
                    &&& s.sequence == i
                    &&& s.bytes <= max_size || s.records == 1
                }
            &&& (forall|k: int| 0 <= k < records.len() ==> (#[trigger] records[k]).0 <= max_size)
                ==> forall|i: int|
                0 <= i < end.segments.len() ==> (#[trigger] end.segments[i]).bytes <= max_size
        }),
{
    let fresh = StreamModel::unopened(base, max_size, extension, header);
    lemma_rotated_keeps_invariant(fresh, now);
    let opened = fresh.rotated(now);
    lemma_rotation_invariant(opened, records);
    let run = opened.after_writes(records);
    lemma_closed_keeps_invariant(run);
    let end = run.closed();
    assert(end.segments.len() == run.segments.len());
    assert forall|i: int| 0 <= i < end.segments.len() implies {
        let s = #[trigger] end.segments[i];
        &&& s.finalized
        &&& s.sequence == i
        &&& s.bytes <= max_size || s.records == 1
    } by {
        assert(end.segments[i].bytes == run.segments[i].bytes);
        assert(end.segments[i].records == run.segments[i].records);
        assert(end.segments[i].sequence == run.segments[i].sequence);
    }
    if forall|k: int| 0 <= k < records.len() ==> (#[trigger] records[k]).0 <= max_size {
        lemma_segments_stay_bounded(opened, records);
        assert forall|i: int| 0 <= i < end.segments.len() implies (#[trigger] end.segments[i]).bytes
            <= max_size by {
            assert(end.segments[i].bytes == run.segments[i].bytes);
        }
    }
}

/// Closing a stream twice is closing it once: the second close asks for no
/// file operation and leaves the stream as it is.
pub proof fn lemma_close_is_idempotent(m: StreamModel)
    ensures
        m.closed().close_ops() == Seq::<FileOpView>::empty(),
        m.closed().closed() == m.closed(),
{
}

/// A size-bounded stream of segment files.
pub struct RotatingFileWriter {
    base_path: String,
    max_size: u64,
    current_size: u64,
    file_count: u32,
    current_stem: Option<String>,
    file_extension: String,
    kind: SegmentKind,
    segments: Ghost<Seq<SegmentModel>>,
}

impl View for RotatingFileWriter {
    type V = StreamModel;

    closed spec fn view(&self) -> StreamModel {
        StreamModel {
            base: self.base_path@,
            extension: self.file_extension@,
            header: self.kind.header_bytes(),
            max_size: self.max_size as nat,
            current_size: self.current_size as nat,
            file_count: self.file_count as nat,
            open: match self.current_stem {
                Some(stem) => Some(stem@),
                None => None,
            },
            segments: self.segments@,
        }
    }
}

impl RotatingFileWriter {
    /// Opens a stream at time `now`, in seconds since the Unix epoch. Its
    /// first segment is to be created at once.
    pub fn new(
        base_path: String,
        max_size: u64,
        file_extension: &str,
        kind: SegmentKind,
        now: u64,
    ) -> (opened: (Self, Vec<FileOp>))
        ensures
            opened.0@.well_formed(),
            opened.0@ == StreamModel::unopened(
                base_path@,
                max_size as nat,
                file_extension@,
                kind.header_bytes(),
            ).rotated(now as nat),
            ops_view(opened.1@) == StreamModel::unopened(
                base_path@,
                max_size as nat,
                file_extension@,
                kind.header_bytes(),
            ).rotation_ops(now as nat),
    {
        let mut writer = RotatingFileWriter {
            base_path,
            max_size,
            current_size: 0,
            file_count: 0,
            current_stem: None,
            file_extension: String::from_str(file_extension),
            kind,
            segments: Ghost(Seq::empty()),
        };
        let mut ops: Vec<FileOp> = Vec::new();
        writer.rotate(now, &mut ops);
        (writer, ops)
    }

    /// Closes the open segment, if there is one: it is to be flushed, closed
    /// and renamed to its final name.
    fn finalize(&mut self, ops: &mut Vec<FileOp>)
        ensures
            final(self)@ == old(self)@.closed(),
            ops_view(final(ops)@) == ops_view(old(ops)@) + old(self)@.close_ops(),
    {
        let ghost before = self@;
        match self.current_stem.take() {
            Some(stem) => {
                let mut from = stem.clone();
                from.append(".part");
                let mut to = stem;
                to.append(".");
                to.append(self.file_extension.as_str());
                ops.push(FileOp::Finalize { from, to });
                self.segments = Ghost(before.segments_closed());
                assert(ops_view(ops@) =~= ops_view(old(ops)@) + before.close_ops());
            },
            None => {
                assert(ops_view(ops@) =~= ops_view(old(ops)@) + before.close_ops());
            },
        }
    }

    /// Moves on to a fresh segment: the open one is closed, the next one is
    /// created under its in-progress name and begins with the header.
    fn rotate(&mut self, now: u64, ops: &mut Vec<FileOp>)
        requires
            old(self).file_count < u32::MAX,
        ensures
            final(self)@ == old(self)@.rotated(now as nat),
            ops_view(final(ops)@) == ops_view(old(ops)@) + old(self)@.rotation_ops(now as nat),
    {
        let ghost before = self@;
        self.finalize(ops);
        let ghost closing = ops@;
        let mut stem = self.base_path.clone();
        stem.append("_");
        push_zero_padded(&mut stem, now, 10);
        stem.append("_");
        push_zero_padded(&mut stem, self.file_count as u64, 4);
        let mut path = stem.clone();
        path.append(".part");
        ops.push(FileOp::Open { path, header: self.kind.header() });
        self.segments = Ghost(
            before.segments_closed().push(
                SegmentModel {
                    sequence: before.file_count,
                    stem: stem@,
                    bytes: 0,
                    records: 0,
                    finalized: false,
                },
            ),
        );
        self.current_stem = Some(stem);
        self.current_size = 0;
        self.file_count += 1;
        proof {
            let opening = FileOpView::Open {
                path: in_progress_name(segment_stem(before.base, now as nat, before.file_count)),
                header: before.header,
            };
            assert(stem@ == segment_stem(before.base, now as nat, before.file_count));
            assert(ops@.last()@ == opening);
            assert(ops_view(ops@) =~= ops_view(closing).push(opening));
            assert(ops_view(ops@) =~= ops_view(old(ops)@) + before.rotation_ops(now as nat));
        }
    }

    /// Appends one record at time `now`, in seconds since the Unix epoch.
    ///
    /// Where the record would push the open segment over the limit, the
    /// stream moves on to a fresh segment first. The operations returned end
    /// with the write of the record. A stream that refuses the record stays
    /// as it is.
    pub fn write_packet(&mut self, packet: &[u8], now: u64) -> (outcome: Result<
        Vec<FileOp>,
        StreamError,
    >)
        requires
            old(self)@.well_formed(),
        ensures
            final(self)@.well_formed(),
            match outcome {
                Ok(ops) => {
                    &&& old(self)@.write_error(packet@.len()) is None
                    &&& final(self)@ == old(self)@.after_write(packet@.len(), now as nat)
                    &&& ops_view(ops@) == old(self)@.write_ops(packet@, now as nat)
                },
                Err(e) => {
                    &&& old(self)@.write_error(packet@.len()) == Some(e)
                    &&& final(self)@ == old(self)@
                },
            },
    {
        let ghost before = self@;
        let packet_size = packet.len() as u64;
        let over = match self.current_size.checked_add(packet_size) {
            Some(total) => total > self.max_size,
            None => true,
        };
        let mut ops: Vec<FileOp> = Vec::new();
        if over {
            if self.file_count == u32::MAX {
                return Err(StreamError::SequenceExhausted);
            }
            self.rotate(now, &mut ops);
            proof {
                lemma_rotated_keeps_invariant(before, now as nat);
            }
        } else if self.current_stem.is_none() {
            return Err(StreamError::NotOpen);
        }
        let ghost mid = self@;
        let ghost last = mid.segments.last();
        ops.push(FileOp::Write { bytes: slice_to_vec(packet) });
        self.current_size = self.current_size + packet_size;
        self.segments = Ghost(
            mid.segments.update(
                mid.segments.len() - 1,
                SegmentModel {
                    bytes: last.bytes + packet@.len(),
                    records: last.records + 1,
                    ..last
                },
            ),
        );
        proof {
            lemma_write_keeps_invariant(before, packet@.len(), now as nat);
            assert(ops_view(ops@) =~= before.write_ops(packet@, now as nat));
        }
        Ok(ops)
    }

    /// Flushes the open segment, if there is one. The stream stays as it is.
    pub fn flush(&self) -> (ops: Vec<FileOp>)
        ensures
            ops_view(ops@) == self@.flush_ops(),
    {
        let mut ops: Vec<FileOp> = Vec::new();
        if self.current_stem.is_some() {
            ops.push(FileOp::Flush);
        }
        assert(ops_view(ops@) =~= self@.flush_ops());
        ops
    }

    /// Closes the stream: the open segment is flushed, closed and renamed to
    /// its final name. On a stream that is closed already this asks for
    /// nothing and changes nothing.
    pub fn flush_and_close(&mut self) -> (ops: Vec<FileOp>)
        requires
            old(self)@.well_formed(),
        ensures
            final(self)@.well_formed(),
            final(self)@ == old(self)@.closed(),
            ops_view(ops@) == old(self)@.close_ops(),
            old(self)@.open is None ==> ops@.len() == 0 && final(self)@ == old(self)@,
    {
        let mut ops: Vec<FileOp> = Vec::new();
        self.finalize(&mut ops);
        proof {
            lemma_closed_keeps_invariant(old(self)@);
            assert(ops_view(ops@) =~= old(self)@.close_ops());
        }
        ops
    }

    /// Whether a segment is open.
    pub fn is_open(&self) -> (open: bool)
        ensures
            open == (self@.open is Some),
    {
        self.current_stem.is_some()
    }

    /// The bytes counted towards the limit.
    pub fn current_size(&self) -> (size: u64)
        ensures
            size == self@.current_size,
    {
        self.current_size
    }

    /// The number of segments opened so far.
    pub fn file_count(&self) -> (count: u32)
        ensures
            count == self@.file_count,
    {
        self.file_count
    }
}

} // verus!
