use linux_perf_data::{
    get_event_types, parse_file_section, parse_meta_info_map, Endianness, JitDumpError,
    JitDumpReader, JitDumpRecord,
};

fn jitdump_header() -> Vec<u8> {
    let mut h = Vec::new();
    h.extend_from_slice(b"DTiJ"); // little-endian magic
    h.extend_from_slice(&1u32.to_le_bytes()); // version
    h.extend_from_slice(&40u32.to_le_bytes()); // total size
    h.extend_from_slice(&62u32.to_le_bytes()); // elf machine: x86-64
    h.extend_from_slice(&0u32.to_le_bytes()); // pad
    h.extend_from_slice(&1234u32.to_le_bytes()); // pid
    h.extend_from_slice(&111u64.to_le_bytes()); // timestamp
    h.extend_from_slice(&0u64.to_le_bytes()); // flags
    assert_eq!(h.len(), 40);
    h
}

fn jit_record(record_type: u32, timestamp: u64, body: &[u8]) -> Vec<u8> {
    let mut r = Vec::new();
    r.extend_from_slice(&record_type.to_le_bytes());
    r.extend_from_slice(&((16 + body.len()) as u32).to_le_bytes());
    r.extend_from_slice(&timestamp.to_le_bytes());
    r.extend_from_slice(body);
    r
}

fn code_load_body(name: &[u8], code: &[u8]) -> Vec<u8> {
    let mut b = Vec::new();
    b.extend_from_slice(&55u32.to_le_bytes()); // pid
    b.extend_from_slice(&66u32.to_le_bytes()); // tid
    b.extend_from_slice(&0x1000u64.to_le_bytes()); // vma
    b.extend_from_slice(&0x1000u64.to_le_bytes()); // code addr
    b.extend_from_slice(&(code.len() as u64).to_le_bytes()); // code size
    b.extend_from_slice(&7u64.to_le_bytes()); // code index
    b.extend_from_slice(name);
    b.push(0);
    b.extend_from_slice(code);
    b
}

fn debug_info_body(code_addr: u64, entries: &[(u64, u32, u32, &[u8])]) -> Vec<u8> {
    let mut b = Vec::new();
    b.extend_from_slice(&code_addr.to_le_bytes());
    b.extend_from_slice(&(entries.len() as u64).to_le_bytes());
    for (addr, line, column, path) in entries {
        b.extend_from_slice(&addr.to_le_bytes());
        b.extend_from_slice(&line.to_le_bytes());
        b.extend_from_slice(&column.to_le_bytes());
        b.extend_from_slice(path);
        b.push(0);
    }
    b
}

#[test]
fn jitdump_code_load() {
    let code = [0x90u8; 64];
    let mut file = jitdump_header();
    file.extend_from_slice(&jit_record(0, 5, &code_load_body(b"foo", &code)));
    let mut reader = JitDumpReader::new(file).unwrap();
    assert_eq!(reader.header().pid, 1234);
    assert_eq!(reader.header().version, 1);
    assert_eq!(reader.endian(), Endianness::LittleEndian);
    let raw = reader.next_record().unwrap().unwrap();
    assert_eq!(raw.timestamp, 5);
    assert_eq!(raw.start_offset, 40);
    match raw.parse().unwrap() {
        JitDumpRecord::CodeLoad(load) => {
            assert_eq!(load.pid, 55);
            assert_eq!(load.function_name, b"foo".to_vec());
            assert_eq!(load.code_bytes, code.to_vec());
            assert_eq!(load.code_index, 7);
            assert_eq!(
                load.code_bytes_offset_from_record_header_start(),
                Some(16 + 40 + 3 + 1)
            );
        }
        other => panic!("wrong record: {:?}", other),
    }
    assert!(reader.next_record().unwrap().is_none());
}

// lookup returns the greatest entry whose address is at most the queried
// one, and nothing below the first entry.
#[test]
fn debug_info_lookup() {
    let entries: &[(u64, u32, u32, &[u8])] = &[
        (0x100, 1, 0, b"a.c"),
        (0x110, 2, 0, b"a.c"),
        (0x120, 3, 4, b"b.c"),
    ];
    let mut file = jitdump_header();
    file.extend_from_slice(&jit_record(2, 6, &debug_info_body(0x100, entries)));
    let mut reader = JitDumpReader::new(file).unwrap();
    let raw = reader.next_record().unwrap().unwrap();
    match raw.parse().unwrap() {
        JitDumpRecord::CodeDebugInfo(info) => {
            assert_eq!(info.code_addr, 0x100);
            assert_eq!(info.entries.len(), 3);
            assert_eq!(info.lookup(0x0ff), None);
            assert_eq!(info.lookup(0x100), Some(0));
            assert_eq!(info.lookup(0x115), Some(1));
            assert_eq!(info.lookup(0x120), Some(2));
            assert_eq!(info.lookup(0xfff), Some(2));
            assert_eq!(info.entries[1].line, 2);
            assert_eq!(info.entries[2].column, 4);
            assert_eq!(info.entries[2].file_path, b"b.c".to_vec());
        }
        other => panic!("wrong record: {:?}", other),
    }
}

// A prefix holding one complete record and a truncated second one yields
// exactly one record; the second arrives after the file grows.
#[test]
fn jitdump_partial_read() {
    let code = [0xccu8; 16];
    let first = jit_record(0, 1, &code_load_body(b"one", &code));
    let second = jit_record(0, 2, &code_load_body(b"two", &code));
    let mut file = jitdump_header();
    file.extend_from_slice(&first);
    file.extend_from_slice(&second[..10]);
    let rest = second[10..].to_vec();
    let mut reader = JitDumpReader::new(file).unwrap();
    let raw1 = reader.next_record().unwrap().unwrap();
    assert_eq!(raw1.timestamp, 1);
    // The second record is incomplete: no record yet.
    assert!(reader.next_record().unwrap().is_none());
    assert!(reader.next_record().unwrap().is_none());
    // The writer appends the rest; the record completes.
    reader.append_data(&rest);
    let raw2 = reader.next_record().unwrap().unwrap();
    assert_eq!(raw2.timestamp, 2);
    match raw2.parse().unwrap() {
        JitDumpRecord::CodeLoad(load) => assert_eq!(load.function_name, b"two".to_vec()),
        other => panic!("wrong record: {:?}", other),
    }
    assert!(reader.next_record().unwrap().is_none());
}

#[test]
fn jitdump_skip_and_peek() {
    let code = [0x90u8; 8];
    let mut file = jitdump_header();
    file.extend_from_slice(&jit_record(0, 1, &code_load_body(b"skipme", &code)));
    file.extend_from_slice(&jit_record(3, 2, &[]));
    let mut reader = JitDumpReader::new(file).unwrap();
    assert_eq!(reader.next_record_type().unwrap().0, 0);
    assert_eq!(reader.next_record_timestamp(), Some(1));
    assert!(reader.skip_next_record().unwrap());
    let raw = reader.next_record().unwrap().unwrap();
    assert_eq!(raw.timestamp, 2);
    match raw.parse().unwrap() {
        JitDumpRecord::CodeClose => {}
        other => panic!("wrong record: {:?}", other),
    }
}

#[test]
fn jitdump_bad_magic_and_version() {
    let mut bad_magic = jitdump_header();
    bad_magic[0] = b'X';
    match JitDumpReader::new(bad_magic) {
        Err(JitDumpError::InvalidMagicBytes(_)) => {}
        other => panic!("expected a magic error, got {:?}", other.is_ok()),
    }
    let mut bad_version = jitdump_header();
    bad_version[4] = 9;
    match JitDumpReader::new(bad_version) {
        Err(JitDumpError::UnrecognizedVersion(9)) => {}
        other => panic!("expected a version error, got {:?}", other.is_ok()),
    }
    let mut bad_size = jitdump_header();
    bad_size[8] = 8;
    match JitDumpReader::new(bad_size) {
        Err(JitDumpError::InvalidHeaderSize(8)) => {}
        other => panic!("expected a header size error, got {:?}", other.is_ok()),
    }
    match JitDumpReader::new(vec![1, 2, 3]) {
        Err(JitDumpError::NotEnoughBytesForHeader) => {}
        other => panic!("expected a length error, got {:?}", other.is_ok()),
    }
}

#[test]
fn meta_info_and_event_types() {
    let bytes = b"android_sdk_version\x0033\x00event_type_info\x00cpu-clock,1,0\nsched:sched_switch,2,45\x00trace_offcpu\x00true";
    let map = parse_meta_info_map(bytes).unwrap();
    assert_eq!(map.len(), 3);
    assert_eq!(map[0].0, "android_sdk_version");
    assert_eq!(map[0].1, "33");
    let types = get_event_types(&map).unwrap();
    assert_eq!(types.len(), 2);
    assert_eq!(types[0].name, "cpu-clock");
    assert_eq!(types[0].type_, 1);
    assert_eq!(types[0].config, 0);
    assert_eq!(types[1].name, "sched:sched_switch");
    assert_eq!(types[1].type_, 2);
    assert_eq!(types[1].config, 45);
}

// One legacy simpleperf FILE entry: path, type, min vaddr, symbols, ELF tail.
#[test]
fn simpleperf_file_v1() {
    let mut entry = Vec::new();
    entry.extend_from_slice(b"/system/lib/libc.so\0");
    entry.extend_from_slice(&2u32.to_le_bytes()); // DSO_ELF_FILE
    entry.extend_from_slice(&0x2000u64.to_le_bytes()); // min vaddr
    entry.extend_from_slice(&1u32.to_le_bytes()); // symbol count
    entry.extend_from_slice(&0x2100u64.to_le_bytes()); // symbol vaddr
    entry.extend_from_slice(&32u32.to_le_bytes()); // symbol len
    entry.extend_from_slice(b"malloc\0");
    entry.extend_from_slice(&0x100u64.to_le_bytes()); // file offset of min vaddr
    let mut section = Vec::new();
    section.extend_from_slice(&(entry.len() as u32).to_le_bytes());
    section.extend_from_slice(&entry);
    let files = parse_file_section(&section, Endianness::LittleEndian).unwrap();
    assert_eq!(files.len(), 1);
    assert_eq!(files[0].path, "/system/lib/libc.so");
    assert_eq!(files[0].dso_type, 2);
    assert_eq!(files[0].min_vaddr, 0x2000);
    assert_eq!(files[0].symbol.len(), 1);
    assert_eq!(files[0].symbol[0].name, "malloc");
    assert_eq!(files[0].symbol[0].vaddr, 0x2100);
    assert_eq!(files[0].symbol[0].len, 32);
}

// An incomplete record cannot be skipped: the reader reports that nothing
// was skipped, and a later attempt succeeds once the bytes are there.
#[test]
fn jitdump_skip_incomplete() {
    let code = [0x90u8; 32];
    let full = jit_record(0, 9, &code_load_body(b"tail", &code));
    let mut file = jitdump_header();
    file.extend_from_slice(&full[..full.len() - 5]);
    let rest = full[full.len() - 5..].to_vec();
    let mut reader = JitDumpReader::new(file).unwrap();
    assert_eq!(reader.next_record_timestamp(), Some(9));
    assert!(!reader.skip_next_record().unwrap());
    reader.append_data(&rest);
    assert!(reader.skip_next_record().unwrap());
    assert!(reader.next_record().unwrap().is_none());
}

// A malformed event-type line makes the whole list unusable.
#[test]
fn event_types_malformed_line() {
    let bytes = b"event_type_info\x00cpu-clock,1,0\nbroken-line";
    let map = parse_meta_info_map(bytes).unwrap();
    assert!(get_event_types(&map).is_none());
    let bytes2 = b"event_type_info\x00cpu-clock,1,not-a-number";
    let map2 = parse_meta_info_map(bytes2).unwrap();
    assert!(get_event_types(&map2).is_none());
}
