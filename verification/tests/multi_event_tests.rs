use linux_perf_data::{Error, PerfFileReader, PerfFileRecord};

const PERF_RECORD_SAMPLE: u32 = 9;
const PERF_RECORD_FINISHED_ROUND: u32 = 68;
const PERF_RECORD_HEADER_ATTR: u32 = 64;
const SAMPLE_IDENTIFIER: u64 = 1 << 16;
const SAMPLE_TIME: u64 = 1 << 2;

fn attr_with(sample_type: u64) -> Vec<u8> {
    let mut a = Vec::new();
    a.extend_from_slice(&1u32.to_le_bytes()); // type: software
    a.extend_from_slice(&64u32.to_le_bytes()); // size
    a.extend_from_slice(&0u64.to_le_bytes()); // config
    a.extend_from_slice(&0u64.to_le_bytes()); // period
    a.extend_from_slice(&sample_type.to_le_bytes());
    a.extend_from_slice(&0u64.to_le_bytes()); // read format
    a.extend_from_slice(&0u64.to_le_bytes()); // flags
    a.extend_from_slice(&[0u8; 16]);
    assert_eq!(a.len(), 64);
    a
}

fn record(record_type: u32, body: &[u8]) -> Vec<u8> {
    let mut r = Vec::new();
    r.extend_from_slice(&record_type.to_le_bytes());
    r.extend_from_slice(&0u16.to_le_bytes());
    r.extend_from_slice(&((8 + body.len()) as u16).to_le_bytes());
    r.extend_from_slice(body);
    r
}

fn header_attr_record(sample_type: u64, ids: &[u64]) -> Vec<u8> {
    let mut body = attr_with(sample_type);
    for id in ids {
        body.extend_from_slice(&id.to_le_bytes());
    }
    record(PERF_RECORD_HEADER_ATTR, &body)
}

fn pipe_file(metadata: &[Vec<u8>], records: &[u8]) -> Vec<u8> {
    let mut f = Vec::new();
    f.extend_from_slice(b"PERFILE2");
    f.extend_from_slice(&16u64.to_le_bytes());
    for m in metadata {
        f.extend_from_slice(m);
    }
    f.extend_from_slice(records);
    f
}

fn collect(reader: PerfFileReader) -> Vec<(Option<usize>, u32)> {
    let PerfFileReader { mut perf_file, mut record_iter } = reader;
    let mut out = Vec::new();
    while let Some(r) = record_iter.next_record(&mut perf_file).unwrap() {
        match r {
            PerfFileRecord::EventRecord { attr_index, record } => {
                out.push((Some(attr_index), record.record_type));
            }
            PerfFileRecord::UserRecord(u) => out.push((None, u.record_type.record_type())),
        }
    }
    out
}

// Every event record is attached to the attribute whose id list holds the
// record's id; an unmapped id falls back to attribute 0.
#[test]
fn attribute_attachment_by_id() {
    let metadata = vec![
        header_attr_record(SAMPLE_IDENTIFIER, &[100]),
        header_attr_record(SAMPLE_IDENTIFIER, &[200, 201]),
    ];
    // SAMPLE records whose body starts with the identifier.
    let mut stream = Vec::new();
    for id in [200u64, 100, 201, 999] {
        stream.extend_from_slice(&record(PERF_RECORD_SAMPLE, &id.to_le_bytes()));
    }
    stream.extend_from_slice(&record(PERF_RECORD_FINISHED_ROUND, &[]));
    let reader = PerfFileReader::parse_pipe(pipe_file(&metadata, &stream)).unwrap();
    assert_eq!(reader.perf_file.event_attributes().len(), 2);
    assert_eq!(reader.perf_file.event_attributes()[0].ids(), &vec![100]);
    assert_eq!(reader.perf_file.event_attributes()[1].ids(), &vec![200, 201]);
    let records = collect(reader);
    let indices: Vec<Option<usize>> = records.iter().map(|(i, _)| *i).collect();
    assert_eq!(indices, vec![Some(1), Some(0), Some(1), Some(0)]);
}

// Multiple events whose attributes disagree on the id layout must all set
// IDENTIFIER; the first offender is reported.
#[test]
fn no_identifier_despite_multi_event() {
    // ID with and without a leading IP field: two different id layouts,
    // and neither attribute sets IDENTIFIER.
    let metadata = vec![
        header_attr_record(1 << 6, &[100]),
        header_attr_record((1 << 6) | (1 << 0), &[200]),
    ];
    match PerfFileReader::parse_pipe(pipe_file(&metadata, &[])) {
        Err(Error::NoIdentifierDespiteMultiEvent(0)) => {}
        other => panic!("expected the identifier error, got {:?}", other.is_ok()),
    }
}

// Records inside a round may arrive out of order; the rounds bound the
// reordering, and the emitted timestamps come out non-decreasing.
#[test]
fn timestamps_emitted_in_order() {
    let sample_type = SAMPLE_IDENTIFIER | SAMPLE_TIME;
    let metadata = vec![header_attr_record(sample_type, &[100])];
    // The sample body: identifier u64, then the timestamp u64.
    let mut stream = Vec::new();
    for t in [30u64, 10, 20] {
        let mut body = Vec::new();
        body.extend_from_slice(&100u64.to_le_bytes());
        body.extend_from_slice(&t.to_le_bytes());
        stream.extend_from_slice(&record(PERF_RECORD_SAMPLE, &body));
    }
    stream.extend_from_slice(&record(PERF_RECORD_FINISHED_ROUND, &[]));
    for t in [25u64, 40, 35] {
        let mut body = Vec::new();
        body.extend_from_slice(&100u64.to_le_bytes());
        body.extend_from_slice(&t.to_le_bytes());
        stream.extend_from_slice(&record(PERF_RECORD_SAMPLE, &body));
    }
    stream.extend_from_slice(&record(PERF_RECORD_FINISHED_ROUND, &[]));

    let PerfFileReader { mut perf_file, mut record_iter } =
        PerfFileReader::parse_pipe(pipe_file(&metadata, &stream)).unwrap();
    let mut times = Vec::new();
    while let Some(r) = record_iter.next_record(&mut perf_file).unwrap() {
        match r {
            PerfFileRecord::EventRecord { record, .. } => {
                // The timestamp sits at offset 8 of the body.
                let t = u64::from_le_bytes(record.data[8..16].try_into().unwrap());
                times.push(t);
            }
            PerfFileRecord::UserRecord(_) => {}
        }
    }
    assert_eq!(times, vec![10, 20, 25, 30, 35, 40]);
}
