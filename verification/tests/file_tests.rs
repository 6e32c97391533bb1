use linux_perf_data::{Error, PerfFileReader, PerfFileRecord};

const PERF_RECORD_SAMPLE: u32 = 9;
const PERF_RECORD_FINISHED_ROUND: u32 = 68;
const PERF_RECORD_HEADER_ATTR: u32 = 64;
const PERF_RECORD_COMPRESSED2: u32 = 83;

// A minimal perf_event_attr: 64 bytes, everything zero except type and size.
fn attr_bytes() -> Vec<u8> {
    let mut a = Vec::new();
    a.extend_from_slice(&1u32.to_le_bytes()); // type: software
    a.extend_from_slice(&64u32.to_le_bytes()); // size: the fixed prefix
    a.extend_from_slice(&[0u8; 56]);
    assert_eq!(a.len(), 64);
    a
}

fn record(record_type: u32, body: &[u8]) -> Vec<u8> {
    let mut r = Vec::new();
    r.extend_from_slice(&record_type.to_le_bytes());
    r.extend_from_slice(&0u16.to_le_bytes()); // misc
    r.extend_from_slice(&((8 + body.len()) as u16).to_le_bytes());
    r.extend_from_slice(body);
    r
}

// A file-mode capture: header, attr section, then the given record stream.
fn file_mode_bytes(records: &[u8]) -> Vec<u8> {
    let mut f = Vec::new();
    f.extend_from_slice(b"PERFILE2");
    f.extend_from_slice(&104u64.to_le_bytes()); // header size
    f.extend_from_slice(&64u64.to_le_bytes()); // attr size
    f.extend_from_slice(&104u64.to_le_bytes()); // attr section offset
    f.extend_from_slice(&64u64.to_le_bytes()); // attr section size
    f.extend_from_slice(&168u64.to_le_bytes()); // data section offset
    f.extend_from_slice(&(records.len() as u64).to_le_bytes()); // data size
    f.extend_from_slice(&0u64.to_le_bytes()); // event types offset
    f.extend_from_slice(&0u64.to_le_bytes()); // event types size
    f.extend_from_slice(&[0u8; 32]); // feature bitset
    assert_eq!(f.len(), 104);
    f.extend_from_slice(&attr_bytes());
    f.extend_from_slice(records);
    f
}

// The pipe-mode twin: pipe header, a HEADER_ATTR record, then the stream.
fn pipe_mode_bytes(records: &[u8]) -> Vec<u8> {
    let mut f = Vec::new();
    f.extend_from_slice(b"PERFILE2");
    f.extend_from_slice(&16u64.to_le_bytes());
    f.extend_from_slice(&record(PERF_RECORD_HEADER_ATTR, &attr_bytes()));
    f.extend_from_slice(records);
    f
}

fn sample_stream() -> Vec<u8> {
    let mut records = Vec::new();
    for i in 0..5u8 {
        records.extend_from_slice(&record(PERF_RECORD_SAMPLE, &[i; 8]));
    }
    records.extend_from_slice(&record(PERF_RECORD_FINISHED_ROUND, &[]));
    records
}

fn collect_records(reader: PerfFileReader) -> Vec<(Option<usize>, u32)> {
    let mut out = Vec::new();
    let PerfFileReader { mut perf_file, mut record_iter } = reader;
    loop {
        match record_iter.next_record(&mut perf_file).unwrap() {
            Some(PerfFileRecord::EventRecord { attr_index, record }) => {
                out.push((Some(attr_index), record.record_type));
            }
            Some(PerfFileRecord::UserRecord(u)) => {
                out.push((None, u.record_type.record_type()));
            }
            None => break,
        }
    }
    out
}

#[test]
fn file_mode_samples() {
    let data = file_mode_bytes(&sample_stream());
    let reader = PerfFileReader::parse_file(data).unwrap();
    assert_eq!(reader.perf_file.event_attributes().len(), 1);
    let records = collect_records(reader);
    assert_eq!(records.len(), 5);
    for (attr_index, record_type) in &records {
        assert_eq!(*attr_index, Some(0));
        assert_eq!(*record_type, PERF_RECORD_SAMPLE);
    }
}

// A file and its pipe-mode twin emit the same attribute count and the same
// record sequence, and the FINISHED_ROUND and HEADER_ATTR records never
// surface.
#[test]
fn pipe_mode_equivalence() {
    let stream = sample_stream();
    let file_reader = PerfFileReader::parse_file(file_mode_bytes(&stream)).unwrap();
    let pipe_reader = PerfFileReader::parse_pipe(pipe_mode_bytes(&stream)).unwrap();
    assert_eq!(
        file_reader.perf_file.event_attributes().len(),
        pipe_reader.perf_file.event_attributes().len()
    );
    let file_records = collect_records(file_reader);
    let pipe_records = collect_records(pipe_reader);
    assert_eq!(file_records, pipe_records);
    for (_, record_type) in &pipe_records {
        assert_ne!(*record_type, PERF_RECORD_FINISHED_ROUND);
        assert_ne!(*record_type, PERF_RECORD_HEADER_ATTR);
    }
}

// The endian twin of the file-mode header parses to the same geometry.
#[test]
fn endian_round_trip_header() {
    let le = file_mode_bytes(&[]);
    // Build the big-endian twin of the header by hand.
    let mut be = Vec::new();
    be.extend_from_slice(b"2ELIFREP");
    for field in [104u64, 64, 104, 64, 168, 0, 0, 0] {
        be.extend_from_slice(&field.to_be_bytes());
    }
    be.extend_from_slice(&[0u8; 32]);
    let le_header = linux_perf_data::PerfHeader::parse(&le).unwrap();
    let be_header = linux_perf_data::PerfHeader::parse(&be).unwrap();
    assert_eq!(le_header.header_size, be_header.header_size);
    assert_eq!(le_header.attr_size, be_header.attr_size);
    assert_eq!(le_header.attr_section, be_header.attr_section);
    assert_eq!(le_header.data_section.offset, be_header.data_section.offset);
    assert_eq!(le_header.event_types_section, be_header.event_types_section);
}

fn compress(plain: &[u8]) -> Vec<u8> {
    let mut dst = vec![0u8; plain.len() + 512];
    let n = zstd_safe::compress(&mut dst[..], plain, 3).unwrap();
    dst.truncate(n);
    dst
}

fn compressed2_record(chunk_plaintext: &[u8]) -> Vec<u8> {
    let compressed = compress(chunk_plaintext);
    let mut body = Vec::new();
    body.extend_from_slice(&(compressed.len() as u64).to_le_bytes());
    body.extend_from_slice(&compressed);
    record(PERF_RECORD_COMPRESSED2, &body)
}

// The record sequence from a compressed capture equals the sequence from the
// same capture stored uncompressed, and the wrapper records never surface.
#[test]
fn decompression_transparency() {
    let stream = sample_stream();
    let plain_records = collect_records(
        PerfFileReader::parse_file(file_mode_bytes(&stream)).unwrap(),
    );
    let compressed_stream = compressed2_record(&stream);
    let compressed_records = collect_records(
        PerfFileReader::parse_file(file_mode_bytes(&compressed_stream)).unwrap(),
    );
    assert_eq!(plain_records, compressed_records);
    for (_, record_type) in &compressed_records {
        assert_ne!(*record_type, PERF_RECORD_COMPRESSED2);
    }
}

// A record that straddles two compressed chunks is carried over and parsed
// whole, so the chunked capture emits the same records as the plain one.
#[test]
fn chunk_boundary_spanning() {
    let stream = sample_stream();
    let plain_records = collect_records(
        PerfFileReader::parse_file(file_mode_bytes(&stream)).unwrap(),
    );
    // Split mid-record: the fourth record starts at 3 * 16 and is cut at
    // its sixth byte.
    let cut = 3 * 16 + 6;
    let mut chunked = Vec::new();
    chunked.extend_from_slice(&compressed2_record(&stream[..cut]));
    chunked.extend_from_slice(&compressed2_record(&stream[cut..]));
    let chunked_records = collect_records(
        PerfFileReader::parse_file(file_mode_bytes(&chunked)).unwrap(),
    );
    assert_eq!(plain_records, chunked_records);
}

#[test]
fn unrecognized_magic() {
    let mut data = file_mode_bytes(&[]);
    data[0] = b'X';
    match PerfFileReader::parse_file(data) {
        Err(Error::UnrecognizedMagicValue(_)) => {}
        other => panic!("expected a magic error, got {:?}", other.is_ok()),
    }
}

#[test]
fn no_attributes() {
    // A pipe stream that ends right after its header has no attributes.
    let mut f = Vec::new();
    f.extend_from_slice(b"PERFILE2");
    f.extend_from_slice(&16u64.to_le_bytes());
    match PerfFileReader::parse_pipe(f) {
        Err(Error::NoAttributes) => {}
        other => panic!("expected NoAttributes, got {:?}", other.is_ok()),
    }
}

#[test]
fn invalid_event_size() {
    // A record whose declared size is smaller than its own header.
    let mut bad = Vec::new();
    bad.extend_from_slice(&PERF_RECORD_SAMPLE.to_le_bytes());
    bad.extend_from_slice(&0u16.to_le_bytes());
    bad.extend_from_slice(&4u16.to_le_bytes());
    let data = file_mode_bytes(&bad);
    let PerfFileReader { mut perf_file, mut record_iter } =
        PerfFileReader::parse_file(data).unwrap();
    match record_iter.next_record(&mut perf_file) {
        Err(Error::InvalidPerfEventSize) => {}
        other => panic!("expected InvalidPerfEventSize, got {:?}", other.is_ok()),
    }
}

// EOF in the middle of a record is an error in pipe mode; EOF at a record
// boundary is normal termination.
#[test]
fn pipe_truncated_mid_record() {
    let mut records = record(PERF_RECORD_SAMPLE, &[0; 8]);
    records.truncate(records.len() - 3);
    match PerfFileReader::parse_pipe(pipe_mode_bytes(&records)) {
        Err(Error::Truncated) => {}
        other => panic!("expected Truncated, got {:?}", other.is_ok()),
    }
    // The boundary twin parses and simply has no records.
    let whole = record(PERF_RECORD_SAMPLE, &[0; 8]);
    let reader = PerfFileReader::parse_pipe(pipe_mode_bytes(&whole)).unwrap();
    assert_eq!(collect_records(reader).len(), 1);
}

// User records surface as such, interleaved at round boundaries.
#[test]
fn user_records_surface() {
    const PERF_RECORD_TIME_CONV: u32 = 79;
    let mut stream = Vec::new();
    stream.extend_from_slice(&record(PERF_RECORD_SAMPLE, &[1; 8]));
    stream.extend_from_slice(&record(PERF_RECORD_TIME_CONV, &[2; 24]));
    stream.extend_from_slice(&record(PERF_RECORD_FINISHED_ROUND, &[]));
    let records = collect_records(
        PerfFileReader::parse_file(file_mode_bytes(&stream)).unwrap(),
    );
    assert_eq!(records.len(), 2);
    assert!(records.contains(&(None, PERF_RECORD_TIME_CONV)));
    assert!(records.contains(&(Some(0), PERF_RECORD_SAMPLE)));
}

// The older COMPRESSED wrapper, whose whole body is the frame, is unwrapped
// the same way.
#[test]
fn compressed_v1_transparency() {
    const PERF_RECORD_COMPRESSED: u32 = 81;
    let stream = sample_stream();
    let plain_records = collect_records(
        PerfFileReader::parse_file(file_mode_bytes(&stream)).unwrap(),
    );
    let wrapped = record(PERF_RECORD_COMPRESSED, &compress(&stream));
    let unwrapped_records = collect_records(
        PerfFileReader::parse_file(file_mode_bytes(&wrapped)).unwrap(),
    );
    assert_eq!(plain_records, unwrapped_records);
}

// A compressed record whose body is not a Zstandard frame fails, rather than
// silently skipping data.
#[test]
fn compressed_garbage_fails() {
    let mut body = Vec::new();
    body.extend_from_slice(&4u64.to_le_bytes());
    body.extend_from_slice(&[1, 2, 3, 4]);
    let wrapped = record(PERF_RECORD_COMPRESSED2, &body);
    let data = file_mode_bytes(&wrapped);
    let PerfFileReader { mut perf_file, mut record_iter } =
        PerfFileReader::parse_file(data).unwrap();
    match record_iter.next_record(&mut perf_file) {
        Err(Error::ZstdDecompress(_)) => {}
        other => panic!("expected a decompression error, got {:?}", other.is_ok()),
    }
}
