use upk_header::{
    ByteReader, DecodeError, UnrealExport, UnrealGeneration, UnrealImport, UnrealName,
    UnrealPackage,
};

const TAG: u32 = 0x9E2A_83C1;

const GUID: [u8; 16] = [
    0xA0, 0xA1, 0xA2, 0xA3, 0xA4, 0xA5, 0xA6, 0xA7, 0xA8, 0xA9, 0xAA, 0xAB, 0xAC, 0xAD, 0xAE, 0xAF,
];

struct Tables {
    name_count: u32,
    name_offset: u32,
    export_count: u32,
    export_offset: u32,
    import_count: u32,
    import_offset: u32,
}

fn no_tables() -> Tables {
    Tables {
        name_count: 0,
        name_offset: 0,
        export_count: 0,
        export_offset: 0,
        import_count: 0,
        import_offset: 0,
    }
}

fn push_u32(out: &mut Vec<u8>, v: u32) {
    out.extend_from_slice(&v.to_le_bytes());
}

fn push_i32(out: &mut Vec<u8>, v: i32) {
    out.extend_from_slice(&v.to_le_bytes());
}

fn push_text(out: &mut Vec<u8>, text: &str) {
    push_u32(out, text.len() as u32 + 1);
    out.extend_from_slice(text.as_bytes());
    out.push(0);
}

fn push_name(out: &mut Vec<u8>, text: &str, flags: u64) {
    push_text(out, text);
    out.extend_from_slice(&flags.to_le_bytes());
}

fn push_import(out: &mut Vec<u8>, class_package: u32, class_name: u32, outer: u32, object: u32) {
    for v in [class_package, 0, class_name, 0, outer, object, 0] {
        push_u32(out, v);
    }
}

fn push_export(out: &mut Vec<u8>, name: u32, generations: &[u32]) {
    for v in [1, 2, 3, name, 0] {
        push_u32(out, v);
    }
    push_i32(out, -7);
    out.extend_from_slice(&0x11u64.to_le_bytes());
    for v in [64, 4096, 5, generations.len() as u32] {
        push_u32(out, v);
    }
    for v in generations {
        push_u32(out, *v);
    }
    out.extend_from_slice(&GUID);
    push_u32(out, 0x6C);
}

/// The preamble of a file of the given version, with every field that the
/// version holds set to a value of its own.
fn preamble(file_version: u16, licensee: u16, tables: &Tables, generations: &[[i32; 3]]) -> Vec<u8> {
    preamble_counted(file_version, licensee, tables, generations.len() as i32, generations)
}

fn preamble_counted(
    file_version: u16,
    licensee: u16,
    tables: &Tables,
    generation_count: i32,
    generations: &[[i32; 3]],
) -> Vec<u8> {
    let mut out = Vec::new();
    push_u32(&mut out, TAG);
    push_u32(&mut out, ((licensee as u32) << 16) | file_version as u32);
    if file_version >= 249 {
        push_i32(&mut out, 0x249);
    }
    if file_version >= 269 {
        push_text(&mut out, "None");
    }
    push_i32(&mut out, 0x0F1A_65);
    for v in [
        tables.name_count,
        tables.name_offset,
        tables.export_count,
        tables.export_offset,
        tables.import_count,
        tables.import_offset,
    ] {
        push_u32(&mut out, v);
    }
    if file_version >= 415 {
        push_i32(&mut out, 0x415);
    }
    if file_version >= 623 {
        push_i32(&mut out, 0x38);
        push_i32(&mut out, 0x3C);
        push_i32(&mut out, 0x40);
    }
    if file_version >= 584 {
        push_i32(&mut out, 0x584);
    }
    out.extend_from_slice(&GUID);
    push_i32(&mut out, generation_count);
    for g in generations {
        push_i32(&mut out, g[0]);
        push_i32(&mut out, g[1]);
        if file_version >= 322 {
            push_i32(&mut out, g[2]);
        }
    }
    if file_version >= 245 {
        push_i32(&mut out, 0x245);
    }
    if file_version >= 277 {
        push_i32(&mut out, 0x277);
    }
    if file_version >= 334 {
        push_i32(&mut out, 0x334);
    }
    if file_version >= 482 {
        push_i32(&mut out, 0x482);
    }
    out
}

fn decode(data: &[u8]) -> Result<UnrealPackage, DecodeError> {
    let mut r = ByteReader::new(data);
    UnrealPackage::parse(&mut r)
}

#[test]
fn one_name_and_no_other_table() {
    let mut tables = no_tables();
    tables.name_count = 1;
    tables.name_offset = preamble(269, 0, &tables, &[]).len() as u32;
    let mut data = preamble(269, 0, &tables, &[]);
    push_name(&mut data, "Core", 0);
    data.extend_from_slice(&[0xDE, 0xAD, 0xBE, 0xEF, 0x00]);

    let mut r = ByteReader::new(&data);
    let package = UnrealPackage::parse(&mut r).unwrap();
    assert_eq!(package.tag, 0x9E2A_83C1);
    assert_eq!(package.file_version, 269);
    assert_eq!(package.licensee_version, 0);
    assert_eq!(package.names, vec![UnrealName("Core".to_string(), 0)]);
    assert_eq!(package.imports, Vec::<UnrealImport>::new());
    assert_eq!(package.exports, Vec::<UnrealExport>::new());
    assert_eq!(package.generations, Vec::<UnrealGeneration>::new());
    assert_eq!(package.rest, vec![0xDE, 0xAD, 0xBE, 0xEF, 0x00]);
    assert_eq!(package.guid, GUID);
    assert_eq!(package.headers_size, 0x249);
    assert_eq!(package.package_group, "None");
    assert_eq!(package.package_flags, 0x0F1A_65);
    assert_eq!(package.engine_version, 0x245);
    assert_eq!(package.cooker_version, 0);
    assert_eq!(package.compression_flags, 0);
    assert_eq!(package.depends_offset, 0);
    assert_eq!(package.u3unk60, 0);
    assert_eq!(package.compressed_chunks, Vec::<()>::new());
    assert_eq!(r.position(), data.len());
}

#[test]
fn name_table_behind_the_export_table() {
    let mut tables = no_tables();
    let header_len = preamble(269, 3, &tables, &[]).len();
    let mut exports = Vec::new();
    push_export(&mut exports, 1, &[8, 9]);
    push_export(&mut exports, 0, &[]);
    let mut imports = Vec::new();
    push_import(&mut imports, 0, 1, 0xFFFF_FFFF, 2);
    let mut names = Vec::new();
    push_name(&mut names, "Core", 1);
    push_name(&mut names, "Object", 2);
    push_name(&mut names, "Actor", 3);

    tables.export_count = 2;
    tables.export_offset = header_len as u32;
    tables.import_count = 1;
    tables.import_offset = (header_len + exports.len()) as u32;
    tables.name_count = 3;
    tables.name_offset = (header_len + exports.len() + imports.len()) as u32;

    let mut data = preamble(269, 3, &tables, &[]);
    assert_eq!(data.len(), header_len);
    data.extend_from_slice(&exports);
    data.extend_from_slice(&imports);
    data.extend_from_slice(&names);
    data.extend_from_slice(b"tail bytes");

    let package = decode(&data).unwrap();
    assert_eq!(package.licensee_version, 3);
    assert_eq!(
        package.names,
        vec![
            UnrealName("Core".to_string(), 1),
            UnrealName("Object".to_string(), 2),
            UnrealName("Actor".to_string(), 3),
        ]
    );
    assert_eq!(
        package.imports,
        vec![UnrealImport {
            class_package: "Core".to_string(),
            class_name: "Object".to_string(),
            package_idx: 0xFFFF_FFFF,
            object_name: "Actor".to_string(),
        }]
    );
    assert_eq!(package.exports.len(), 2);
    assert_eq!(package.exports[0].object_name, "Object");
    assert_eq!(package.exports[0].generations, vec![8, 9]);
    assert_eq!(package.exports[0].class_idx, 1);
    assert_eq!(package.exports[0].super_idx, 2);
    assert_eq!(package.exports[0].package_idx, 3);
    assert_eq!(package.exports[0].archetype, -7);
    assert_eq!(package.exports[0].object_flags, 0x11);
    assert_eq!(package.exports[0].serial_size, 64);
    assert_eq!(package.exports[0].serial_offset, 4096);
    assert_eq!(package.exports[0].export_flags, 5);
    assert_eq!(package.exports[0].guid, GUID);
    assert_eq!(package.exports[0].unk_6c, 0x6C);
    assert_eq!(package.exports[1].object_name, "Core");
    assert_eq!(package.exports[1].generations, Vec::<u32>::new());
    assert_eq!(package.rest, b"tail bytes".to_vec());
}

#[test]
fn rest_starts_behind_the_furthest_table_not_the_last_decoded() {
    let mut tables = no_tables();
    let header_len = preamble(300, 0, &tables, &[]).len();
    let mut exports = Vec::new();
    push_export(&mut exports, 0, &[]);
    let mut names = Vec::new();
    push_name(&mut names, "Late", 0);
    let gap = [0x11u8, 0x22, 0x33];

    tables.export_count = 1;
    tables.export_offset = header_len as u32;
    tables.name_count = 1;
    tables.name_offset = (header_len + exports.len() + gap.len()) as u32;

    let mut data = preamble(300, 0, &tables, &[]);
    data.extend_from_slice(&exports);
    data.extend_from_slice(&gap);
    data.extend_from_slice(&names);
    data.extend_from_slice(&[0xF0, 0xF1]);

    let package = decode(&data).unwrap();
    assert_eq!(package.exports.len(), 1);
    assert_eq!(package.exports[0].object_name, "Late");
    assert_eq!(package.rest, vec![0xF0, 0xF1]);
}

#[test]
fn rest_starts_behind_the_preamble_when_the_tables_lie_inside_it() {
    // A name table right behind the preamble: the rest starts behind it.
    let mut tables = no_tables();
    let header_len = preamble(100, 0, &tables, &[]).len();
    let mut names = Vec::new();
    push_name(&mut names, "Only", 0);
    tables.name_count = 1;
    tables.name_offset = header_len as u32;
    let mut data = preamble(100, 0, &tables, &[]);
    data.extend_from_slice(&names);
    data.extend_from_slice(&[1, 2, 3]);
    let package = decode(&data).unwrap();
    assert_eq!(package.names, vec![UnrealName("Only".to_string(), 0)]);
    assert_eq!(package.rest, vec![1, 2, 3]);

    // A name table that lies inside the preamble, over the first bytes of
    // the identity: the rest starts where the preamble ends.
    let mut early = Vec::new();
    push_u32(&mut early, TAG);
    push_u32(&mut early, 100);
    push_i32(&mut early, 0);
    for v in [1u32, 36, 0, 0, 0, 0] {
        push_u32(&mut early, v);
    }
    // The identity starts at offset 36. Read as a name, its first four
    // bytes are the length of an empty text and the next eight the flags.
    early.extend_from_slice(&[0, 0, 0, 0]);
    early.extend_from_slice(&[9, 0, 0, 0, 0, 0, 0, 0, 0, 0, 0, 0]);
    push_i32(&mut early, 0);
    early.extend_from_slice(&[0xC0, 0xC1]);
    let package = decode(&early).unwrap();
    assert_eq!(package.names, vec![UnrealName(String::new(), 9)]);
    assert_eq!(package.rest, vec![0xC0, 0xC1]);
}

#[test]
fn table_without_records_is_not_visited() {
    let mut tables = no_tables();
    tables.name_offset = 0xFFFF_FFF0;
    tables.import_offset = 0x7000_0000;
    tables.export_offset = 0x10;
    let mut data = preamble(269, 0, &tables, &[]);
    data.extend_from_slice(&[5, 6, 7]);
    let mut r = ByteReader::new(&data);
    let package = UnrealPackage::parse(&mut r).unwrap();
    assert_eq!(package.names, Vec::<UnrealName>::new());
    assert_eq!(package.imports, Vec::<UnrealImport>::new());
    assert_eq!(package.exports, Vec::<UnrealExport>::new());
    assert_eq!(package.rest, vec![5, 6, 7]);
    assert_eq!(r.position(), data.len());
}

#[test]
fn headers_size_is_absent_before_version_249() {
    let tables = no_tables();
    let data = preamble(248, 0, &tables, &[]);
    // tag, version, flags, six table words, identity, generation count,
    // engine version
    assert_eq!(data.len(), 4 + 4 + 4 + 24 + 16 + 4 + 4);
    let package = decode(&data).unwrap();
    assert_eq!(package.file_version, 248);
    assert_eq!(package.headers_size, 0);
    assert_eq!(package.package_group, "");
    assert_eq!(package.package_flags, 0x0F1A_65);
    assert_eq!(package.engine_version, 0x245);
    assert_eq!(package.rest, Vec::<u8>::new());
}

#[test]
fn headers_size_is_the_next_word_from_version_249() {
    let tables = no_tables();
    let data = preamble(249, 0, &tables, &[]);
    assert_eq!(data.len(), 4 + 4 + 4 + 4 + 24 + 16 + 4 + 4);
    assert_eq!(&data[8..12], &0x249i32.to_le_bytes());
    let package = decode(&data).unwrap();
    assert_eq!(package.file_version, 249);
    assert_eq!(package.headers_size, 0x249);
    assert_eq!(package.package_group, "");
    assert_eq!(package.package_flags, 0x0F1A_65);
    assert_eq!(package.rest, Vec::<u8>::new());
}

#[test]
fn same_bytes_read_as_248_put_the_flags_where_249_has_the_size() {
    let mut data = Vec::new();
    push_u32(&mut data, TAG);
    push_u32(&mut data, 249);
    push_i32(&mut data, 0x249);
    data.extend_from_slice(&[0u8; 4 + 24 + 16 + 4 + 4]);
    let package = decode(&data).unwrap();
    assert_eq!(package.headers_size, 0x249);
    assert_eq!(package.package_flags, 0);
    assert_eq!(package.rest, Vec::<u8>::new());

    data[4..8].copy_from_slice(&248u32.to_le_bytes());
    let package = decode(&data).unwrap();
    assert_eq!(package.headers_size, 0);
    assert_eq!(package.package_flags, 0x249);
    // The four bytes that the older layout does not take are left over.
    assert_eq!(package.rest, vec![0u8; 4]);
}

#[test]
fn generation_has_two_fields_at_version_321() {
    let tables = no_tables();
    let mut data = preamble(321, 0, &tables, &[[10, 20, 30], [11, 21, 31]]);
    let len = data.len();
    data.extend_from_slice(&[0x99]);
    let package = decode(&data).unwrap();
    assert_eq!(
        package.generations,
        vec![
            UnrealGeneration { export_count: 10, name_count: 20, net_object_count: 0 },
            UnrealGeneration { export_count: 11, name_count: 21, net_object_count: 0 },
        ]
    );
    assert_eq!(package.cooker_version, 0x277);
    assert_eq!(package.compression_flags, 0);
    assert_eq!(package.rest, vec![0x99]);
    assert_eq!(len, 4 + 4 + 4 + 9 + 4 + 24 + 16 + 4 + 2 * 8 + 4 + 4);
}

#[test]
fn generation_has_three_fields_at_version_322() {
    let tables = no_tables();
    let mut data = preamble(322, 0, &tables, &[[10, 20, 30], [11, 21, 31]]);
    let len = data.len();
    data.extend_from_slice(&[0x99]);
    let package = decode(&data).unwrap();
    assert_eq!(
        package.generations,
        vec![
            UnrealGeneration { export_count: 10, name_count: 20, net_object_count: 30 },
            UnrealGeneration { export_count: 11, name_count: 21, net_object_count: 31 },
        ]
    );
    assert_eq!(package.rest, vec![0x99]);
    assert_eq!(len, 4 + 4 + 4 + 9 + 4 + 24 + 16 + 4 + 2 * 12 + 4 + 4);
}

#[test]
fn negative_generation_count_means_no_generation() {
    let tables = no_tables();
    let mut data = preamble_counted(400, 0, &tables, -5, &[]);
    data.extend_from_slice(&[1]);
    let package = decode(&data).unwrap();
    assert_eq!(package.generations, Vec::<UnrealGeneration>::new());
    assert_eq!(package.compression_flags, 0x334);
    assert_eq!(package.rest, vec![1]);
}

#[test]
fn every_gated_field_is_read_at_a_late_version() {
    let tables = no_tables();
    let mut data = preamble(700, 12, &tables, &[[1, 2, 3]]);
    data.extend_from_slice(&[0xEE; 3]);
    let package = decode(&data).unwrap();
    assert_eq!(package.file_version, 700);
    assert_eq!(package.licensee_version, 12);
    assert_eq!(package.headers_size, 0x249);
    assert_eq!(package.package_group, "None");
    assert_eq!(package.depends_offset, 0x415);
    assert_eq!(package.f38, 0x38);
    assert_eq!(package.f3_c, 0x3C);
    assert_eq!(package.f40, 0x40);
    assert_eq!(package.guid, GUID);
    assert_eq!(
        package.generations,
        vec![UnrealGeneration { export_count: 1, name_count: 2, net_object_count: 3 }]
    );
    assert_eq!(package.engine_version, 0x245);
    assert_eq!(package.cooker_version, 0x277);
    assert_eq!(package.compression_flags, 0x334);
    assert_eq!(package.u3unk60, 0x482);
    assert_eq!(package.rest, vec![0xEE; 3]);
}

#[test]
fn version_thresholds_are_inclusive() {
    let tables = no_tables();
    for (version, field) in [(244u16, 0), (245, 0x245)] {
        let package = decode(&preamble(version, 0, &tables, &[])).unwrap();
        assert_eq!(package.engine_version, field);
    }
    for (version, field) in [(268u16, ""), (269, "None")] {
        let package = decode(&preamble(version, 0, &tables, &[])).unwrap();
        assert_eq!(package.package_group, field);
    }
    for (version, field) in [(276u16, 0), (277, 0x277)] {
        let package = decode(&preamble(version, 0, &tables, &[])).unwrap();
        assert_eq!(package.cooker_version, field);
    }
    for (version, field) in [(333u16, 0), (334, 0x334)] {
        let package = decode(&preamble(version, 0, &tables, &[])).unwrap();
        assert_eq!(package.compression_flags, field);
    }
    for (version, field) in [(414u16, 0), (415, 0x415)] {
        let package = decode(&preamble(version, 0, &tables, &[])).unwrap();
        assert_eq!(package.depends_offset, field);
    }
    for (version, field) in [(481u16, 0), (482, 0x482)] {
        let package = decode(&preamble(version, 0, &tables, &[])).unwrap();
        assert_eq!(package.u3unk60, field);
    }
    for (version, field) in [(622u16, 0), (623, 0x38)] {
        let package = decode(&preamble(version, 0, &tables, &[])).unwrap();
        assert_eq!(package.f38, field);
    }
    for (version, len) in [(583u16, 0usize), (584, 4)] {
        let with = preamble(version, 0, &tables, &[]);
        let without = preamble(582, 0, &tables, &[]);
        assert_eq!(with.len() - without.len(), len);
        assert_eq!(decode(&with).unwrap().rest, Vec::<u8>::new());
    }
}

#[test]
fn unknown_tag_is_accepted() {
    let tables = no_tables();
    let mut data = preamble(269, 0, &tables, &[]);
    data[0..4].copy_from_slice(&0x1234_5678u32.to_le_bytes());
    let package = decode(&data).unwrap();
    assert_eq!(package.tag, 0x1234_5678);
}

#[test]
fn decode_starts_where_the_cursor_stands() {
    let tables = no_tables();
    let mut data = vec![0xAA, 0xBB, 0xCC];
    data.extend(preamble(248, 1, &tables, &[]));
    data.extend_from_slice(&[7, 8]);
    let mut r = ByteReader::new(&data);
    r.seek(3);
    let package = UnrealPackage::parse(&mut r).unwrap();
    assert_eq!(package.tag, TAG);
    assert_eq!(package.licensee_version, 1);
    assert_eq!(package.rest, vec![7, 8]);
}

#[test]
fn empty_file_is_cut_short() {
    assert_eq!(
        decode(&[]),
        Err(DecodeError::Truncated { offset: 0, needed: 4, available: 0 })
    );
}

#[test]
fn preamble_cut_short_fails() {
    let tables = no_tables();
    let data = preamble(269, 0, &tables, &[]);
    let cut = &data[..data.len() - 2];
    assert_eq!(
        decode(cut),
        Err(DecodeError::Truncated { offset: data.len() - 4, needed: 4, available: 2 })
    );
    assert_eq!(
        decode(&data[..6]),
        Err(DecodeError::Truncated { offset: 4, needed: 4, available: 2 })
    );
}

#[test]
fn identity_cut_short_fails() {
    let tables = no_tables();
    let data = preamble(248, 0, &tables, &[]);
    assert_eq!(
        decode(&data[..40]),
        Err(DecodeError::Truncated { offset: 36, needed: 16, available: 4 })
    );
}

#[test]
fn more_generations_than_bytes_fails() {
    let tables = no_tables();
    let data = preamble_counted(100, 0, &tables, 2, &[[1, 2, 3]]);
    assert_eq!(
        decode(&data),
        Err(DecodeError::Truncated { offset: data.len(), needed: 4, available: 0 })
    );
}

#[test]
fn table_behind_the_end_of_the_file_fails() {
    let mut tables = no_tables();
    tables.name_count = 1;
    tables.name_offset = 0x0100_0000;
    let data = preamble(269, 0, &tables, &[]);
    assert_eq!(
        decode(&data),
        Err(DecodeError::Truncated { offset: 0x0100_0000, needed: 4, available: 0 })
    );
}

#[test]
fn more_names_than_bytes_fails() {
    let mut tables = no_tables();
    tables.name_count = 2;
    tables.name_offset = preamble(269, 0, &tables, &[]).len() as u32;
    let mut data = preamble(269, 0, &tables, &[]);
    push_name(&mut data, "Core", 0);
    assert_eq!(
        decode(&data),
        Err(DecodeError::Truncated { offset: data.len(), needed: 4, available: 0 })
    );
}

#[test]
fn name_that_is_not_utf8_fails() {
    let mut tables = no_tables();
    tables.name_count = 1;
    tables.name_offset = preamble(269, 0, &tables, &[]).len() as u32;
    let mut data = preamble(269, 0, &tables, &[]);
    let at = data.len();
    push_u32(&mut data, 3);
    data.extend_from_slice(&[0xC3, 0x28, 0x00]);
    data.extend_from_slice(&0u64.to_le_bytes());
    assert_eq!(decode(&data), Err(DecodeError::Encoding { offset: at }));
}

#[test]
fn import_that_names_no_entry_fails() {
    let mut tables = no_tables();
    let header_len = preamble(269, 0, &tables, &[]).len();
    let mut names = Vec::new();
    push_name(&mut names, "Core", 0);
    tables.name_count = 1;
    tables.name_offset = header_len as u32;
    tables.import_count = 2;
    tables.import_offset = (header_len + names.len()) as u32;
    let mut data = preamble(269, 0, &tables, &[]);
    data.extend_from_slice(&names);
    push_import(&mut data, 0, 0, 0, 0);
    push_import(&mut data, 0, 1, 0, 0);
    assert_eq!(
        decode(&data),
        Err(DecodeError::Index {
            offset: header_len + names.len() + 28 + 8,
            index: 1,
            len: 1
        })
    );
}

#[test]
fn import_without_a_name_table_fails() {
    let mut tables = no_tables();
    let header_len = preamble(269, 0, &tables, &[]).len();
    tables.import_count = 1;
    tables.import_offset = header_len as u32;
    let mut data = preamble(269, 0, &tables, &[]);
    push_import(&mut data, 0, 0, 0, 0);
    assert_eq!(
        decode(&data),
        Err(DecodeError::Index { offset: header_len, index: 0, len: 0 })
    );
}

#[test]
fn export_that_names_no_entry_fails() {
    let mut tables = no_tables();
    let header_len = preamble(269, 0, &tables, &[]).len();
    let mut names = Vec::new();
    push_name(&mut names, "Core", 0);
    push_name(&mut names, "Core", 5);
    tables.name_count = 2;
    tables.name_offset = header_len as u32;
    tables.export_count = 1;
    tables.export_offset = (header_len + names.len()) as u32;
    let mut data = preamble(269, 0, &tables, &[]);
    data.extend_from_slice(&names);
    push_export(&mut data, 2, &[]);
    assert_eq!(
        decode(&data),
        Err(DecodeError::Index { offset: header_len + names.len() + 12, index: 2, len: 2 })
    );
}

#[test]
fn names_with_the_same_text_stay_apart() {
    let mut tables = no_tables();
    let header_len = preamble(269, 0, &tables, &[]).len();
    let mut names = Vec::new();
    push_name(&mut names, "Twin", 1);
    push_name(&mut names, "Twin", 2);
    tables.name_count = 2;
    tables.name_offset = header_len as u32;
    let mut data = preamble(269, 0, &tables, &[]);
    data.extend_from_slice(&names);
    let package = decode(&data).unwrap();
    assert_eq!(
        package.names,
        vec![UnrealName("Twin".to_string(), 1), UnrealName("Twin".to_string(), 2)]
    );
    assert_eq!(package.rest, Vec::<u8>::new());
}

#[test]
fn every_import_name_stands_in_the_name_table() {
    let mut tables = no_tables();
    let header_len = preamble(269, 0, &tables, &[]).len();
    let mut names = Vec::new();
    for (i, text) in ["Core", "Engine", "Class", "Package", "Actor"].iter().enumerate() {
        push_name(&mut names, text, i as u64);
    }
    let refs = [[0u32, 2, 4], [1, 3, 0], [4, 4, 4]];
    tables.name_count = 5;
    tables.name_offset = header_len as u32;
    tables.import_count = 3;
    tables.import_offset = (header_len + names.len()) as u32;
    let mut data = preamble(269, 0, &tables, &[]);
    data.extend_from_slice(&names);
    for r in refs {
        push_import(&mut data, r[0], r[1], 9, r[2]);
    }
    let package = decode(&data).unwrap();
    assert_eq!(package.imports.len(), 3);
    for (import, r) in package.imports.iter().zip(refs) {
        assert_eq!(import.class_package, package.names[r[0] as usize].0);
        assert_eq!(import.class_name, package.names[r[1] as usize].0);
        assert_eq!(import.object_name, package.names[r[2] as usize].0);
        assert_eq!(import.package_idx, 9);
    }
    assert_eq!(package.imports[1].class_package, "Engine");
    assert_eq!(package.imports[1].class_name, "Package");
    assert_eq!(package.imports[1].object_name, "Core");
}
