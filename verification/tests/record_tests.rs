use linux_perf_data::{
    detect_build_id_len, Auxtrace, BuildIdEvent, CpuMode, DsoKey, Endianness, Feature, FeatureSet,
    FlagFeature, FlagFeatureSet, ThreadMap,
};

#[test]
fn parse() {
    let data = &[
        0x01, 0x00, 0x00, 0x00, 0x00, 0x00, 0x00, 0x00, 0x00, 0x00, 0x00, 0x00, 0x00, 0x00, 0x00,
        0x00, 0xf9, 0xcd, 0x2a, 0x49, 0x28, 0x04, 0x00, 0x00, 0x08, 0x00, 0x00, 0x00, 0x7a, 0x24,
        0x00, 0x00, 0x08, 0x00, 0x00, 0x00, 0x00, 0x00, 0x00, 0x00, 0x00,
    ];
    let auxtrace = Auxtrace::parse(data, Endianness::LittleEndian).unwrap();
    assert_eq!(auxtrace.size, 0x01);
    assert_eq!(auxtrace.offset, 0x00);
    assert_eq!(auxtrace.reference, 0x428492acdf9);
    assert_eq!(auxtrace.index, 0x8);
    assert_eq!(auxtrace.tid, 0x247a);
    assert_eq!(auxtrace.cpu, 8);
    assert_eq!(auxtrace.aux_data.len(), auxtrace.size as usize);
}

#[test]
fn parse_one() {
    let data = &[
        1, 0, 0, 0, 0, 0, 0, 0, 108, 71, 8, 0, 0, 0, 0, 0, 0, 0, 0, 0, 0, 0, 0, 0, 0, 0, 0, 0, 0,
        0, 0, 0,
    ];
    let map = ThreadMap::parse(data, Endianness::LittleEndian).unwrap();
    assert_eq!(map.len(), 1);
    let mut iter = map.iter();
    let mut vec = Vec::new();
    while let Some(entry) = iter.next() {
        vec.push(entry);
    }
    assert_eq!(vec.len(), 1);
    assert_eq!(vec[0].tid, 542572);
    assert_eq!(&vec[0].name[..], b"");
}

#[test]
fn parse_big() {
    let data = &[
        12, 0, 0, 0, 0, 0, 0, 0, 165, 115, 1, 0, 0, 0, 0, 0, 0, 0, 0, 0, 0, 0, 0, 0, 0, 0, 0, 0,
        0, 0, 0, 0, 169, 115, 1, 0, 0, 0, 0, 0, 0, 0, 0, 0, 0, 0, 0, 0, 0, 0, 0, 0, 0, 0, 0, 0,
        171, 115, 1, 0, 0, 0, 0, 0, 0, 0, 0, 0, 0, 0, 0, 0, 0, 0, 0, 0, 0, 0, 0, 0, 172, 115, 1,
        0, 0, 0, 0, 0, 0, 0, 0, 0, 0, 0, 0, 0, 0, 0, 0, 0, 0, 0, 0, 0, 187, 115, 1, 0, 0, 0, 0, 0,
        0, 0, 0, 0, 0, 0, 0, 0, 0, 0, 0, 0, 0, 0, 0, 0, 188, 115, 1, 0, 0, 0, 0, 0, 0, 0, 0, 0, 0,
        0, 0, 0, 0, 0, 0, 0, 0, 0, 0, 0, 189, 115, 1, 0, 0, 0, 0, 0, 0, 0, 0, 0, 0, 0, 0, 0, 0, 0,
        0, 0, 0, 0, 0, 0, 190, 115, 1, 0, 0, 0, 0, 0, 0, 0, 0, 0, 0, 0, 0, 0, 0, 0, 0, 0, 0, 0, 0,
        0, 191, 115, 1, 0, 0, 0, 0, 0, 0, 0, 0, 0, 0, 0, 0, 0, 0, 0, 0, 0, 0, 0, 0, 0, 194, 115,
        1, 0, 0, 0, 0, 0, 0, 0, 0, 0, 0, 0, 0, 0, 0, 0, 0, 0, 0, 0, 0, 0, 197, 115, 1, 0, 0, 0, 0,
        0, 0, 0, 0, 0, 0, 0, 0, 0, 0, 0, 0, 0, 0, 0, 0, 0, 199, 115, 1, 0, 0, 0, 0, 0, 0, 0, 0, 0,
        0, 0, 0, 0, 0, 0, 0, 0, 0, 0, 0, 0,
    ];
    let map = ThreadMap::parse(data, Endianness::LittleEndian).unwrap();
    assert_eq!(map.len(), 12);
    let mut iter = map.iter();
    let mut vec = Vec::new();
    while let Some(entry) = iter.next() {
        vec.push(entry);
    }
    assert_eq!(vec.len(), 12);
    assert_eq!(vec[8].tid, 95167);
    assert_eq!(&vec[8].name[..], b"");
}

// A 20-byte ID stored in a 24-byte field with trailing zeros is recovered as
// 20 bytes; with the explicit-size flag set, the stored length wins.
#[test]
fn build_id_length_detection() {
    let mut id = [0u8; 24];
    for (i, b) in id.iter_mut().take(20).enumerate() {
        *b = (i + 1) as u8;
    }
    assert_eq!(detect_build_id_len(&id[..20]), 20);
    // Trailing zero groups are stripped.
    let mut short = [0u8; 20];
    short[0] = 0xab;
    short[1] = 0xcd;
    assert_eq!(detect_build_id_len(&short), 4);
    assert_eq!(detect_build_id_len(&[0u8; 20]), 0);
    // An entry: header (type, misc, size), pid, 24 id bytes, path.
    let mut entry = Vec::new();
    entry.extend_from_slice(&67u32.to_le_bytes()); // type
    let misc_with_size: u16 = 0x8000 | 1;
    entry.extend_from_slice(&misc_with_size.to_le_bytes());
    let path = b"/lib/modules/foo.ko\0";
    let size = (8 + 4 + 24 + path.len()) as u16;
    entry.extend_from_slice(&size.to_le_bytes());
    entry.extend_from_slice(&(-1i32).to_le_bytes()); // pid
    let mut id_bytes = [0u8; 24];
    for (i, b) in id_bytes.iter_mut().take(20).enumerate() {
        *b = (i + 7) as u8;
    }
    id_bytes[20] = 16; // the explicit length
    id_bytes[21] = 0x5a; // uninitialized garbage that must be ignored
    entry.extend_from_slice(&id_bytes);
    entry.extend_from_slice(path);
    let (event, next) = BuildIdEvent::parse(&entry, 0, Endianness::LittleEndian).unwrap();
    assert_eq!(next, entry.len());
    assert_eq!(event.build_id, id_bytes[..16].to_vec());
    assert_eq!(event.file_path, b"/lib/modules/foo.ko".to_vec());
    // Without the flag, the length is detected from the zero tail.
    let mut entry2 = entry.clone();
    entry2[4] = 1; // misc low byte: kernel mode, no explicit-size flag
    entry2[5] = 0;
    for b in &mut entry2[12 + 16..12 + 24] {
        *b = 0;
    }
    let (event2, _) = BuildIdEvent::parse(&entry2, 0, Endianness::LittleEndian).unwrap();
    assert_eq!(event2.build_id.len(), 16);
}

// The classification rules of DsoKey, by example.
#[test]
fn dso_key_classification() {
    assert_eq!(
        DsoKey::detect(b"[kernel.kallsyms]_text", CpuMode::Kernel),
        Some(DsoKey::Kernel)
    );
    match DsoKey::detect(b"/lib/modules/5.13.0-35-generic/kernel/sound/core/snd-seq-device.ko", CpuMode::Kernel) {
        Some(DsoKey::KernelModule { name }) => assert_eq!(name, "[snd-seq-device]"),
        other => panic!("wrong key: {:?}", other),
    }
    assert_eq!(DsoKey::detect(b"[vdso]", CpuMode::User), Some(DsoKey::Vdso64));
    assert_eq!(DsoKey::detect(b"[vdso32]", CpuMode::User), Some(DsoKey::Vdso32));
    assert_eq!(DsoKey::detect(b"[vsyscall]", CpuMode::User), Some(DsoKey::Vsyscall));
    assert_eq!(DsoKey::detect(b"//anon", CpuMode::User), None);
    assert_eq!(DsoKey::detect(b"[stack]", CpuMode::User), None);
    // Two user DSOs with the same file name at different paths get distinct keys.
    let a = DsoKey::detect(b"/usr/lib/libx.so", CpuMode::User).unwrap();
    let b = DsoKey::detect(b"/opt/app/libx.so", CpuMode::User).unwrap();
    assert!(!a.same_key(&b));
    assert_eq!(a.name(), "libx.so");
    assert_eq!(b.name(), "libx.so");
    // The same path gives the same key.
    let c = DsoKey::detect(b"/usr/lib/libx.so", CpuMode::User).unwrap();
    assert!(a.same_key(&c));
    assert_eq!(
        DsoKey::detect(b"[kernel.kallsyms]_text", CpuMode::GuestKernel),
        Some(DsoKey::GuestKernel)
    );
    assert_eq!(DsoKey::Kernel.name(), "[kernel.kallsyms]");
}

#[test]
fn feature_sets() {
    // Bits 2 (BUILD_ID) and 131 (SIMPLEPERF_FILE2).
    let set = FeatureSet([0b100, 0, 1 << (131 - 128), 0]);
    assert_eq!(set.len(), 2);
    assert!(!set.is_empty());
    assert!(set.has_feature(Feature::BuildId.to_int()));
    assert!(set.has_feature(131));
    assert!(!set.has_feature(Feature::Hostname.to_int()));
    assert!(!set.has_feature(300));
    let mut iter = set.iter();
    assert_eq!(iter.next(), Some(2));
    assert_eq!(iter.next(), Some(131));
    assert_eq!(iter.next(), None);
    assert!(FeatureSet([0, 0, 0, 0]).is_empty());

    assert_eq!(Feature::from_int(2), Some(Feature::BuildId));
    assert_eq!(Feature::from_int(12), Some(Feature::EventDesc));
    assert_eq!(Feature::from_int(128), Some(Feature::SimpleperfMetaInfo));
    assert_eq!(Feature::from_int(99), None);
    assert_eq!(Feature::Cmdline.to_int(), 11);
    assert_eq!(Feature::SampleTime.to_int(), 21);
    assert_eq!(Feature::ClockData.to_int(), 29);
    assert_eq!(Feature::PmuMappings.to_int(), 16);
}

#[test]
fn flag_feature_sets() {
    let set = FlagFeatureSet([1 << 10, 0, 0, 0]);
    assert_eq!(set.len(), 1);
    assert!(set.has_flag(FlagFeature::TotalMem.to_int()));
    assert!(!set.has_flag(2));
    let mut iter = set.iter();
    assert_eq!(iter.next(), Some(10));
    assert_eq!(iter.next(), None);
    assert_eq!(FlagFeature::from_int(10), Some(FlagFeature::TotalMem));
    assert_eq!(FlagFeature::from_int(128), None);
}
