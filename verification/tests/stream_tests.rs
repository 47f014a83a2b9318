use muonfp::network_tap::pcap_global_header;
use muonfp::rotating_writer::{FileOp, RotatingFileWriter, SegmentKind, StreamError};

/// A segment file as the operations of a stream leave it.
#[derive(Debug, Clone, PartialEq, Eq)]
struct File {
    name: String,
    content: Vec<u8>,
    records: usize,
}

/// A directory that performs the operations of one stream.
#[derive(Debug, Default)]
struct Disk {
    files: Vec<File>,
    open: Option<usize>,
    renames: usize,
    flushes: usize,
}

impl Disk {
    fn perform(&mut self, ops: &[FileOp]) {
        for op in ops {
            match op {
                FileOp::Open { path, header } => {
                    assert!(self.open.is_none(), "two segments open at once");
                    assert!(self.files.iter().all(|f| &f.name != path));
                    self.files.push(File {
                        name: path.clone(),
                        content: header.clone(),
                        records: 0,
                    });
                    self.open = Some(self.files.len() - 1);
                }
                FileOp::Write { bytes } => {
                    let i = self.open.expect("write without an open segment");
                    self.files[i].content.extend_from_slice(bytes);
                    self.files[i].records += 1;
                }
                FileOp::Flush => {
                    assert!(self.open.is_some());
                    self.flushes += 1;
                }
                FileOp::Finalize { from, to } => {
                    let i = self.open.take().expect("finalize without an open segment");
                    assert_eq!(&self.files[i].name, from);
                    assert!(self.files.iter().all(|f| &f.name != to));
                    self.files[i].name = to.clone();
                    self.renames += 1;
                }
            }
        }
    }

    fn names(&self) -> Vec<&str> {
        self.files.iter().map(|f| f.name.as_str()).collect()
    }
}

fn open(max: u64, kind: SegmentKind, now: u64) -> (RotatingFileWriter, Disk) {
    let (writer, ops) = RotatingFileWriter::new(String::from("out/muonfp"), max, "out", kind, now);
    let mut disk = Disk::default();
    disk.perform(&ops);
    (writer, disk)
}

#[test]
fn new_opens_the_first_segment() {
    let (writer, ops) = RotatingFileWriter::new(
        String::from("out/muonfp"),
        100,
        "out",
        SegmentKind::Records,
        1_700_000_000,
    );
    assert_eq!(
        ops,
        vec![FileOp::Open {
            path: String::from("out/muonfp_1700000000_0000.part"),
            header: vec![],
        }]
    );
    assert!(writer.is_open());
    assert_eq!(writer.current_size(), 0);
    assert_eq!(writer.file_count(), 1);
}

#[test]
fn raw_trace_segments_begin_with_the_global_header() {
    let (mut writer, ops) = RotatingFileWriter::new(
        String::from("pcap/packets"),
        10,
        "pcap",
        SegmentKind::RawTrace,
        42,
    );
    assert_eq!(
        ops,
        vec![FileOp::Open {
            path: String::from("pcap/packets_0000000042_0000.part"),
            header: pcap_global_header().to_vec(),
        }]
    );
    assert_eq!(writer.current_size(), 0);
    let ops = writer.write_packet(&[1u8; 8], 43).unwrap();
    assert_eq!(ops, vec![FileOp::Write { bytes: vec![1u8; 8] }]);
    let ops = writer.write_packet(&[2u8; 8], 44).unwrap();
    assert_eq!(
        ops,
        vec![
            FileOp::Finalize {
                from: String::from("pcap/packets_0000000042_0000.part"),
                to: String::from("pcap/packets_0000000042_0000.pcap"),
            },
            FileOp::Open {
                path: String::from("pcap/packets_0000000044_0001.part"),
                header: pcap_global_header().to_vec(),
            },
            FileOp::Write { bytes: vec![2u8; 8] },
        ]
    );
    assert_eq!(SegmentKind::RawTrace.header(), pcap_global_header().to_vec());
    assert_eq!(SegmentKind::Records.header(), Vec::<u8>::new());
}

#[test]
fn three_records_of_forty_bytes_make_two_segments() {
    let (mut writer, mut disk) = open(100, SegmentKind::Records, 1_700_000_000);
    for (i, fill) in [b'a', b'b', b'c'].iter().enumerate() {
        let ops = writer.write_packet(&[*fill; 40], 1_700_000_001 + i as u64).unwrap();
        disk.perform(&ops);
    }
    disk.perform(&writer.flush_and_close());
    assert_eq!(disk.open, None);
    assert_eq!(
        disk.names(),
        vec!["out/muonfp_1700000000_0000.out", "out/muonfp_1700000003_0001.out"]
    );
    assert_eq!(disk.files[0].records, 2);
    assert_eq!(disk.files[0].content.len(), 80);
    assert_eq!(disk.files[0].content, [[b'a'; 40], [b'b'; 40]].concat());
    assert_eq!(disk.files[1].records, 1);
    assert_eq!(disk.files[1].content, vec![b'c'; 40]);
    assert_eq!(writer.file_count(), 2);
}

#[test]
fn a_record_that_fills_the_segment_exactly_does_not_rotate() {
    let (mut writer, _) = open(100, SegmentKind::Records, 5);
    assert_eq!(writer.write_packet(&[0u8; 60], 6).unwrap().len(), 1);
    assert_eq!(writer.write_packet(&[0u8; 40], 7).unwrap().len(), 1);
    assert_eq!(writer.current_size(), 100);
    assert_eq!(writer.file_count(), 1);
    assert_eq!(writer.write_packet(&[0u8; 1], 8).unwrap().len(), 3);
    assert_eq!(writer.current_size(), 1);
    assert_eq!(writer.file_count(), 2);
}

#[test]
fn an_empty_record_never_rotates() {
    let (mut writer, _) = open(0, SegmentKind::Records, 5);
    assert_eq!(writer.write_packet(&[], 6).unwrap(), vec![FileOp::Write { bytes: vec![] }]);
    assert_eq!(writer.file_count(), 1);
}

#[test]
fn close_is_idempotent() {
    let (mut writer, mut disk) = open(100, SegmentKind::Records, 7);
    disk.perform(&writer.write_packet(b"hello", 8).unwrap());
    let first = writer.flush_and_close();
    assert_eq!(
        first,
        vec![FileOp::Finalize {
            from: String::from("out/muonfp_0000000007_0000.part"),
            to: String::from("out/muonfp_0000000007_0000.out"),
        }]
    );
    disk.perform(&first);
    assert!(!writer.is_open());
    let size = writer.current_size();
    let count = writer.file_count();
    let second = writer.flush_and_close();
    assert_eq!(second, vec![]);
    disk.perform(&second);
    assert_eq!(disk.renames, 1);
    assert!(!writer.is_open());
    assert_eq!(writer.current_size(), size);
    assert_eq!(writer.file_count(), count);
    assert_eq!(writer.flush_and_close(), vec![]);
}

#[test]
fn no_segment_exceeds_the_limit_and_sequence_numbers_have_no_gaps() {
    let max = 64u64;
    let (mut writer, mut disk) = open(max, SegmentKind::Records, 1000);
    let mut seed = 12345u32;
    for i in 0..500u64 {
        seed = seed.wrapping_mul(1_103_515_245).wrapping_add(12345);
        let len = (seed >> 16) as usize % 65;
        let ops = writer.write_packet(&vec![0u8; len], 1000 + i).unwrap();
        disk.perform(&ops);
        assert!(writer.current_size() <= max);
    }
    disk.perform(&writer.flush_and_close());
    assert_eq!(disk.files.len(), writer.file_count() as usize);
    for (i, file) in disk.files.iter().enumerate() {
        assert!(file.content.len() as u64 <= max, "segment {} is too large", i);
        assert!(file.name.ends_with(&format!("_{:04}.out", i)), "{}", file.name);
        assert!(file.name.starts_with("out/muonfp_"));
    }
}

#[test]
fn a_record_larger_than_the_limit_gets_a_segment_of_its_own() {
    let (mut writer, mut disk) = open(10, SegmentKind::Records, 1);
    disk.perform(&writer.write_packet(&[1u8; 4], 2).unwrap());
    disk.perform(&writer.write_packet(&[2u8; 25], 3).unwrap());
    disk.perform(&writer.write_packet(&[3u8; 1], 4).unwrap());
    disk.perform(&writer.flush_and_close());
    let sizes: Vec<usize> = disk.files.iter().map(|f| f.content.len()).collect();
    assert_eq!(sizes, vec![4, 25, 1]);
    let records: Vec<usize> = disk.files.iter().map(|f| f.records).collect();
    assert_eq!(records, vec![1, 1, 1]);
}

#[test]
fn sequence_number_is_padded_to_four_digits_and_time_to_ten() {
    let (mut writer, first) =
        RotatingFileWriter::new(String::from("s"), 0, "x", SegmentKind::Records, 0);
    assert_eq!(
        first,
        vec![FileOp::Open { path: String::from("s_0000000000_0000.part"), header: vec![] }]
    );
    let mut last = Vec::new();
    for _ in 0..12_345 {
        last = writer.write_packet(&[0u8], 123_456_789_012).unwrap();
    }
    assert_eq!(
        last,
        vec![
            FileOp::Finalize {
                from: String::from("s_123456789012_12344.part"),
                to: String::from("s_123456789012_12344.x"),
            },
            FileOp::Open { path: String::from("s_123456789012_12345.part"), header: vec![] },
            FileOp::Write { bytes: vec![0u8] },
        ]
    );
    assert_eq!(writer.file_count(), 12_346);
}

#[test]
fn flush_asks_for_a_flush_only_while_a_segment_is_open() {
    let (mut writer, _) = open(100, SegmentKind::Records, 7);
    assert_eq!(writer.flush(), vec![FileOp::Flush]);
    assert_eq!(writer.file_count(), 1);
    writer.flush_and_close();
    assert_eq!(writer.flush(), vec![]);
}

#[test]
fn a_closed_stream_refuses_a_record_that_fits() {
    let (mut writer, _) = open(100, SegmentKind::Records, 7);
    writer.write_packet(&[0u8; 30], 8).unwrap();
    writer.flush_and_close();
    assert_eq!(writer.write_packet(&[0u8; 70], 9), Err(StreamError::NotOpen));
    assert!(!writer.is_open());
    assert_eq!(writer.current_size(), 30);
    assert_eq!(writer.file_count(), 1);
}

#[test]
fn a_closed_stream_reopens_for_a_record_that_does_not_fit() {
    let (mut writer, _) = open(100, SegmentKind::Records, 7);
    writer.write_packet(&[0u8; 30], 8).unwrap();
    writer.flush_and_close();
    let ops = writer.write_packet(&[0u8; 71], 9).unwrap();
    assert_eq!(
        ops,
        vec![
            FileOp::Open { path: String::from("out/muonfp_0000000009_0001.part"), header: vec![] },
            FileOp::Write { bytes: vec![0u8; 71] },
        ]
    );
    assert!(writer.is_open());
    assert_eq!(writer.current_size(), 71);
}

#[test]
fn extension_follows_a_dot_behind_the_stem() {
    let (mut writer, _) =
        RotatingFileWriter::new(String::from("a.b/c.d"), 1, "tar.gz", SegmentKind::Records, 3);
    assert_eq!(
        writer.flush_and_close(),
        vec![FileOp::Finalize {
            from: String::from("a.b/c.d_0000000003_0000.part"),
            to: String::from("a.b/c.d_0000000003_0000.tar.gz"),
        }]
    );
}
