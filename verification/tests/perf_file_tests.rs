use linux_perf_data::{DsoKey, PerfFileReader};

fn header_string(text: &[u8]) -> Vec<u8> {
    let mut s = Vec::new();
    s.extend_from_slice(&((text.len() + 1) as u32).to_le_bytes());
    s.extend_from_slice(text);
    s.push(0);
    s
}

// A file-mode capture with feature sections: hostname, nr cpus, total mem,
// sample time range, a build id entry, and a cmdline list.
fn file_with_features() -> Vec<u8> {
    let hostname = header_string(b"testbox");
    let mut nrcpus = Vec::new();
    nrcpus.extend_from_slice(&8u32.to_le_bytes());
    nrcpus.extend_from_slice(&4u32.to_le_bytes());
    let mut total_mem = Vec::new();
    total_mem.extend_from_slice(&16384u64.to_le_bytes());
    let mut sample_time = Vec::new();
    sample_time.extend_from_slice(&100u64.to_le_bytes());
    sample_time.extend_from_slice(&900u64.to_le_bytes());
    let mut build_id = Vec::new();
    build_id.extend_from_slice(&67u32.to_le_bytes()); // entry header: type
    build_id.extend_from_slice(&1u16.to_le_bytes()); // misc: kernel mode
    let path = b"[kernel.kallsyms]\0\0\0";
    build_id.extend_from_slice(&((8 + 4 + 24 + path.len()) as u16).to_le_bytes());
    build_id.extend_from_slice(&(-1i32).to_le_bytes());
    let mut id = [0u8; 24];
    id[..4].copy_from_slice(&[0xde, 0xad, 0xbe, 0xef]);
    build_id.extend_from_slice(&id);
    build_id.extend_from_slice(path);
    let mut cmdline = Vec::new();
    cmdline.extend_from_slice(&2u32.to_le_bytes());
    cmdline.extend_from_slice(&header_string(b"perf"));
    cmdline.extend_from_slice(&header_string(b"record"));

    // Feature bits: HOSTNAME 3, NRCPUS 7, TOTAL_MEM 10, CMDLINE 11,
    // SAMPLE_TIME 21, BUILD_ID 2; sections are stored low bit to high bit.
    let payloads: [&Vec<u8>; 6] = [&build_id, &hostname, &nrcpus, &total_mem, &cmdline,
        &sample_time];
    let bits: u64 = (1 << 2) | (1 << 3) | (1 << 7) | (1 << 10) | (1 << 11) | (1 << 21);

    let attr_off = 104u64;
    let data_off = attr_off + 64;
    let feature_table_off = data_off; // empty data section
    let mut payload_off = feature_table_off + 6 * 16;
    let mut table = Vec::new();
    let mut payload_bytes = Vec::new();
    for p in payloads {
        table.extend_from_slice(&payload_off.to_le_bytes());
        table.extend_from_slice(&(p.len() as u64).to_le_bytes());
        payload_bytes.extend_from_slice(p);
        payload_off += p.len() as u64;
    }

    let mut f = Vec::new();
    f.extend_from_slice(b"PERFILE2");
    f.extend_from_slice(&104u64.to_le_bytes());
    f.extend_from_slice(&64u64.to_le_bytes());
    f.extend_from_slice(&attr_off.to_le_bytes());
    f.extend_from_slice(&64u64.to_le_bytes());
    f.extend_from_slice(&data_off.to_le_bytes());
    f.extend_from_slice(&0u64.to_le_bytes());
    f.extend_from_slice(&0u64.to_le_bytes());
    f.extend_from_slice(&0u64.to_le_bytes());
    f.extend_from_slice(&bits.to_le_bytes());
    f.extend_from_slice(&[0u8; 24]);
    assert_eq!(f.len(), 104);
    // One 64-byte attr.
    f.extend_from_slice(&1u32.to_le_bytes());
    f.extend_from_slice(&64u32.to_le_bytes());
    f.extend_from_slice(&[0u8; 56]);
    f.extend_from_slice(&table);
    f.extend_from_slice(&payload_bytes);
    f
}

#[test]
fn feature_accessors() {
    let reader = PerfFileReader::parse_file(file_with_features()).unwrap();
    let pf = reader.perf_file;
    assert_eq!(pf.hostname().unwrap().unwrap(), "testbox");
    let nr = pf.nr_cpus().unwrap().unwrap();
    assert_eq!(nr.nr_cpus_available, 8);
    assert_eq!(nr.nr_cpus_online, 4);
    assert_eq!(pf.total_mem().unwrap(), Some(16384));
    let range = pf.sample_time_range().unwrap().unwrap();
    assert_eq!(range.first_sample_time, 100);
    assert_eq!(range.last_sample_time, 900);
    let cmdline = pf.cmdline().unwrap().unwrap();
    assert_eq!(cmdline, vec!["perf".to_string(), "record".to_string()]);
    assert_eq!(pf.os_release().unwrap(), None);
    assert!(!pf.is_stats());
    assert_eq!(pf.features().len(), 6);
}

#[test]
fn build_id_map() {
    let reader = PerfFileReader::parse_file(file_with_features()).unwrap();
    let build_ids = reader.perf_file.build_ids();
    assert_eq!(build_ids.len(), 1);
    let (key, info) = &build_ids[0];
    assert!(key.same_key(&DsoKey::Kernel));
    assert_eq!(info.build_id, vec![0xde, 0xad, 0xbe, 0xef]);
    assert_eq!(info.path, b"[kernel.kallsyms]".to_vec());
}

// The clock data feature section: version 1, clock id and the two anchors.
#[test]
fn clock_data_parses() {
    let mut section = Vec::new();
    section.extend_from_slice(&1u32.to_le_bytes());
    section.extend_from_slice(&4u32.to_le_bytes());
    section.extend_from_slice(&111111u64.to_le_bytes());
    section.extend_from_slice(&222222u64.to_le_bytes());
    let clock = linux_perf_data::ClockData::parse(&section, linux_perf_data::Endianness::LittleEndian)
        .unwrap();
    assert_eq!(clock.clockid, 4);
    assert_eq!(clock.wall_clock_ns, 111111);
    assert_eq!(clock.clockid_time_ns, 222222);
    // Any other version is rejected.
    section[0] = 2;
    assert!(
        linux_perf_data::ClockData::parse(&section, linux_perf_data::Endianness::LittleEndian)
            .is_err()
    );
}

// The PMU mappings section: pairs of a type index and a name string.
#[test]
fn pmu_mappings_parse() {
    let mut section = Vec::new();
    section.extend_from_slice(&2u32.to_le_bytes());
    section.extend_from_slice(&6u32.to_le_bytes());
    section.extend_from_slice(&7u32.to_le_bytes());
    section.extend_from_slice(b"kprobe\0");
    section.extend_from_slice(&7u32.to_le_bytes());
    section.extend_from_slice(&7u32.to_le_bytes());
    section.extend_from_slice(b"uprobe\0");
    let mappings =
        linux_perf_data::PmuMappings::parse(&section, linux_perf_data::Endianness::LittleEndian)
            .unwrap();
    assert_eq!(mappings.0.get(&6).map(|s| s.as_str()), Some("kprobe"));
    assert_eq!(mappings.0.get(&7).map(|s| s.as_str()), Some("uprobe"));
    assert_eq!(mappings.0.get(&8), None);
}
