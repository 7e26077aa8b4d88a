//! Parsing synthetic plugin bytes end to end: header queries, record-id
//! collection, resolution, overlap queries and the error paths.

use esplugin::error::{Error, ParsingErrorKind};
use esplugin::game_id::GameId;
use esplugin::plugin::{plugins_metadata, ParseOptions, Plugin, PluginScale, RecordIds};

fn push_u16(out: &mut Vec<u8>, v: u16) {
    out.extend_from_slice(&v.to_le_bytes());
}

fn push_u32(out: &mut Vec<u8>, v: u32) {
    out.extend_from_slice(&v.to_le_bytes());
}

/// A subrecord on the wire for games other than Morrowind.
fn sub(tag: &[u8; 4], data: &[u8]) -> Vec<u8> {
    let mut out = Vec::new();
    out.extend_from_slice(tag);
    push_u16(&mut out, data.len() as u16);
    out.extend_from_slice(data);
    out
}

/// A subrecord on the wire for Morrowind.
fn sub_mw(tag: &[u8; 4], data: &[u8]) -> Vec<u8> {
    let mut out = Vec::new();
    out.extend_from_slice(tag);
    push_u32(&mut out, data.len() as u32);
    out.extend_from_slice(data);
    out
}

/// A record on the wire for games other than Morrowind.
fn record(tag: &[u8; 4], flags: u32, form_id: u32, subs: &[Vec<u8>]) -> Vec<u8> {
    let payload: Vec<u8> = subs.concat();
    let mut out = Vec::new();
    out.extend_from_slice(tag);
    push_u32(&mut out, payload.len() as u32);
    push_u32(&mut out, flags);
    push_u32(&mut out, form_id);
    push_u32(&mut out, 0);
    push_u32(&mut out, 0);
    out.extend_from_slice(&payload);
    out
}

/// A record on the wire for Morrowind.
fn record_mw(tag: &[u8; 4], flags: u32, subs: &[Vec<u8>]) -> Vec<u8> {
    let payload: Vec<u8> = subs.concat();
    let mut out = Vec::new();
    out.extend_from_slice(tag);
    push_u32(&mut out, payload.len() as u32);
    push_u32(&mut out, 0);
    push_u32(&mut out, flags);
    out.extend_from_slice(&payload);
    out
}

/// A group on the wire; its size covers its own header.
fn group(label: &[u8; 4], entries: &[Vec<u8>]) -> Vec<u8> {
    let body: Vec<u8> = entries.concat();
    let mut out = Vec::new();
    out.extend_from_slice(b"GRUP");
    push_u32(&mut out, (24 + body.len()) as u32);
    out.extend_from_slice(label);
    push_u32(&mut out, 0);
    push_u32(&mut out, 0);
    push_u32(&mut out, 0);
    out.extend_from_slice(&body);
    out
}

/// The Morrowind `HEDR` payload: version, the master flag byte, the
/// description at byte 40, and the record count at byte 296.
fn hedr_mw(version_bits: u32, master: bool, description: &str, count: u32) -> Vec<u8> {
    let mut data = vec![0u8; 300];
    data[0..4].copy_from_slice(&version_bits.to_le_bytes());
    if master {
        data[4] = 1;
    }
    data[40..40 + description.len()].copy_from_slice(description.as_bytes());
    data[296..300].copy_from_slice(&count.to_le_bytes());
    data
}

/// A whole Morrowind plugin: a `TES3` header plus one record per editor
/// identifier.
fn morrowind_plugin(masters: &[&str], edids: &[&str], count: u32) -> Vec<u8> {
    let mut header_subs = vec![sub_mw(b"HEDR", &hedr_mw(0x3F99_999A, true, "v5.0", count))];
    for master in masters {
        let mut name = master.as_bytes().to_vec();
        name.push(0);
        header_subs.push(sub_mw(b"MAST", &name));
    }
    let mut out = record_mw(b"TES3", 0, &header_subs);
    for edid in edids {
        let mut name = edid.as_bytes().to_vec();
        name.push(0);
        out.extend_from_slice(&record_mw(b"MISC", 0, &[sub_mw(b"NAME", &name)]));
    }
    out
}

/// The `HEDR` payload for games other than Morrowind: version then count.
fn hedr(version_bits: u32, count: u32) -> Vec<u8> {
    let mut data = Vec::new();
    push_u32(&mut data, version_bits);
    push_u32(&mut data, count);
    data
}

/// A whole non-Morrowind plugin: a `TES4` header plus one group of
/// records with the given form identifiers.
fn tes4_plugin(flags: u32, version_bits: u32, count: u32, masters: &[&str], form_ids: &[u32])
    -> Vec<u8> {
    let mut header_subs = vec![sub(b"HEDR", &hedr(version_bits, count))];
    for master in masters {
        let mut name = master.as_bytes().to_vec();
        name.push(0);
        header_subs.push(sub(b"MAST", &name));
    }
    header_subs.push(sub(b"SNAM", b"v5.0\0"));
    let mut out = record(b"TES4", flags, 0, &header_subs);
    let entries: Vec<Vec<u8>> = form_ids
        .iter()
        .map(|f| record(b"BOOK", 0, *f, &[sub(b"EDID", b"x\0")]))
        .collect();
    out.extend_from_slice(&group(b"BOOK", &entries));
    out
}

fn parse(game: GameId, path: &str, bytes: &[u8]) -> Plugin {
    let mut plugin = Plugin::new(game, path);
    plugin.parse_bytes(bytes, ParseOptions::whole_plugin()).unwrap();
    plugin
}

#[test]
fn morrowind_whole_parse_should_collect_one_namespaced_id_per_named_record() {
    let edids = ["a0", "a1", "a2", "a3", "a4", "a5", "a6", "a7", "a8", "a9"];
    let bytes = morrowind_plugin(&[], &edids, 10);
    let plugin = parse(GameId::Morrowind, "Blank.esm", &bytes);

    match &plugin.data.record_ids {
        RecordIds::NamespacedIds(ids) => {
            assert_eq!(10, ids.len());
            for i in 0..ids.len() {
                for j in 0..i {
                    assert!(ids[i] != ids[j], "record identities should be unique");
                }
            }
        },
        _ => panic!("Expected namespaced record IDs"),
    }
    assert_eq!(10, plugin.record_and_group_count().unwrap());
    assert_eq!(0x3F99_999A, plugin.header_version_bits().unwrap());
    assert_eq!("v5.0", plugin.description().unwrap().unwrap());
    assert!(plugin.is_master_file());
    assert_eq!(0, plugin.masters().unwrap().len());
}

#[test]
fn morrowind_record_and_group_count_should_match_collected_id_count() {
    let edids = ["b0", "b1", "b2"];
    let bytes = morrowind_plugin(&[], &edids, 3);
    let plugin = parse(GameId::Morrowind, "Blank.esm", &bytes);

    let ids_len = match &plugin.data.record_ids {
        RecordIds::NamespacedIds(ids) => ids.len(),
        _ => panic!("Expected namespaced record IDs"),
    };
    assert_eq!(ids_len as u32, plugin.record_and_group_count().unwrap());
}

#[test]
fn morrowind_resolution_should_count_records_shared_with_masters_as_overrides() {
    let master_edids = ["a0", "a1", "a2", "a3", "a4", "a5", "a6", "a7", "a8", "a9"];
    let master_bytes = morrowind_plugin(&[], &master_edids, 10);
    let master = parse(GameId::Morrowind, "Blank.esm", &master_bytes);

    let dependent_edids = ["A0", "A1", "A2", "A3", "d0", "d1", "d2", "d3", "d4", "d5"];
    let dependent_bytes = morrowind_plugin(&["Blank.esm"], &dependent_edids, 10);
    let mut dependent = parse(GameId::Morrowind, "Dependent.esm", &dependent_bytes);

    match dependent.count_override_records().unwrap_err() {
        Error::UnresolvedRecordIds(path) => assert_eq!("Dependent.esm", path),
        _ => panic!("Expected unresolved record IDs error"),
    }

    let all_metadata = plugins_metadata(&vec![&master]).unwrap();
    dependent.resolve_record_ids(&all_metadata).unwrap();

    assert_eq!(4, dependent.count_override_records().unwrap());
}

#[test]
fn morrowind_overlap_size_should_count_each_record_once() {
    let master_edids = ["a0", "a1", "a2", "a3", "a4", "a5", "a6", "a7", "a8", "a9"];
    let master_bytes = morrowind_plugin(&[], &master_edids, 10);
    let master = parse(GameId::Morrowind, "Blank.esm", &master_bytes);

    let dependent_edids = ["A0", "A1", "A2", "A3", "d0", "d1"];
    let dependent_bytes = morrowind_plugin(&["Blank.esm"], &dependent_edids, 6);
    let dependent = parse(GameId::Morrowind, "Dependent.esm", &dependent_bytes);

    assert_eq!(4, master.overlap_size(&vec![&dependent, &dependent]).unwrap());
    assert_eq!(4, master.overlap_size(&vec![&dependent]).unwrap());
    assert_eq!(4, dependent.overlap_size(&vec![&master]).unwrap());
}

#[test]
fn morrowind_overlaps_with_should_be_reflexive_and_symmetric() {
    let bytes1 = morrowind_plugin(&[], &["a0", "a1"], 2);
    let plugin1 = parse(GameId::Morrowind, "Blank.esm", &bytes1);
    let bytes2 = morrowind_plugin(&[], &["b0", "b1"], 2);
    let plugin2 = parse(GameId::Morrowind, "Different.esm", &bytes2);
    let bytes3 = morrowind_plugin(&[], &["a1", "c0"], 2);
    let plugin3 = parse(GameId::Morrowind, "Third.esm", &bytes3);

    assert!(plugin1.overlaps_with(&plugin1).unwrap());
    assert!(!plugin1.overlaps_with(&plugin2).unwrap());
    assert_eq!(
        plugin1.overlaps_with(&plugin2).unwrap(),
        plugin2.overlaps_with(&plugin1).unwrap()
    );
    assert!(plugin1.overlaps_with(&plugin3).unwrap());
    assert_eq!(
        plugin1.overlaps_with(&plugin3).unwrap(),
        plugin3.overlaps_with(&plugin1).unwrap()
    );
}

#[test]
fn morrowind_info_records_should_be_named_by_their_inam_subrecord() {
    let mut master_bytes = morrowind_plugin(&[], &[], 1);
    master_bytes.extend_from_slice(&record_mw(b"INFO", 0, &[sub_mw(b"INAM", b"resp\0")]));
    let master = parse(GameId::Morrowind, "Blank.esm", &master_bytes);

    let mut dependent_bytes = morrowind_plugin(&["Blank.esm"], &[], 1);
    dependent_bytes.extend_from_slice(&record_mw(b"INFO", 0, &[sub_mw(b"INAM", b"RESP\0")]));
    let mut dependent = parse(GameId::Morrowind, "Dependent.esm", &dependent_bytes);

    let all_metadata = plugins_metadata(&vec![&master]).unwrap();
    dependent.resolve_record_ids(&all_metadata).unwrap();

    assert_eq!(1, dependent.count_override_records().unwrap());
}

#[test]
fn skyrim_whole_parse_should_resolve_record_ids_at_once() {
    let form_ids: Vec<u32> = (1..=10).collect();
    let bytes = tes4_plugin(0x1, 0x3F70_A3D7, 15, &[], &form_ids);
    let plugin = parse(GameId::Skyrim, "Blank.esm", &bytes);

    match &plugin.data.record_ids {
        RecordIds::Resolved(ids) => assert_eq!(10, ids.len()),
        _ => panic!("Expected resolved record IDs"),
    }
    assert_eq!(15, plugin.record_and_group_count().unwrap());
    assert_eq!(0x3F70_A3D7, plugin.header_version_bits().unwrap());
    assert_eq!("v5.0", plugin.description().unwrap().unwrap());
    assert!(plugin.is_master_file());
    assert_eq!(0, plugin.count_override_records().unwrap());
}

#[test]
fn skyrim_resolution_should_count_records_from_masters_as_overrides() {
    let form_ids = vec![0x0000_0CEC, 0x0000_0CED, 0x0100_0CEE, 0x0100_0CEF];
    let bytes = tes4_plugin(0, 0x3F70_A3D7, 4, &["Blank.esm"], &form_ids);
    let plugin = parse(GameId::Skyrim, "Dependent.esp", &bytes);

    assert_eq!(2, plugin.count_override_records().unwrap());
}

#[test]
fn resolve_record_ids_should_be_idempotent() {
    let form_ids = vec![0x0000_0CEC, 0x0100_0CEE];
    let bytes = tes4_plugin(0, 0x3F70_A3D7, 2, &["Blank.esm"], &form_ids);
    let mut plugin = parse(GameId::Skyrim, "Dependent.esp", &bytes);

    let before = plugin.count_override_records().unwrap();
    plugin.resolve_record_ids(&Vec::new()).unwrap();
    plugin.resolve_record_ids(&Vec::new()).unwrap();

    match &plugin.data.record_ids {
        RecordIds::Resolved(ids) => assert_eq!(2, ids.len()),
        _ => panic!("Expected resolved record IDs"),
    }
    assert_eq!(before, plugin.count_override_records().unwrap());
}

#[test]
fn starfield_whole_parse_should_leave_form_ids_unresolved() {
    let form_ids: Vec<u32> = (1..=10).collect();
    let bytes = tes4_plugin(0, 0x3F80_0000, 10, &[], &form_ids);
    let mut plugin = parse(GameId::Starfield, "Blank.full.esm", &bytes);

    match &plugin.data.record_ids {
        RecordIds::FormIds(ids) => assert_eq!(10, ids.len()),
        _ => panic!("Expected raw form IDs"),
    }
    match plugin.count_override_records().unwrap_err() {
        Error::UnresolvedRecordIds(path) => assert_eq!("Blank.full.esm", path),
        _ => panic!("Expected unresolved record IDs error"),
    }

    plugin.resolve_record_ids(&Vec::new()).unwrap();

    match &plugin.data.record_ids {
        RecordIds::Resolved(ids) => assert_eq!(10, ids.len()),
        _ => panic!("Expected resolved record IDs"),
    }
    assert_eq!(0, plugin.count_override_records().unwrap());
}

#[test]
fn skyrimse_valid_light_range_should_follow_the_header_version() {
    let bytes = tes4_plugin(0, 0x3F70_A3D7, 1, &[], &[0x0000_0CEC]);
    let plugin = parse(GameId::SkyrimSE, "Blank.esm", &bytes);
    assert_eq!((0x800, 0xFFF), plugin.valid_light_form_id_range());

    let bytes = tes4_plugin(0, 0x3FDA_E148, 1, &[], &[0x0000_0CEC]);
    let plugin = parse(GameId::SkyrimSE, "Blank.esm", &bytes);
    assert_eq!((0, 0xFFF), plugin.valid_light_form_id_range());
}

#[test]
fn skyrimse_is_valid_as_light_plugin_should_check_only_new_records() {
    // A new record inside the range and an override outside it: valid.
    let form_ids = vec![0x0100_0801, 0x00AB_CDEF];
    let bytes = tes4_plugin(0, 0x3F70_A3D7, 2, &["Blank.esm"], &form_ids);
    let plugin = parse(GameId::SkyrimSE, "Dependent.esp", &bytes);
    assert!(plugin.is_valid_as_light_plugin().unwrap());

    // A new record outside the range: invalid.
    let form_ids = vec![0x0100_1000];
    let bytes = tes4_plugin(0, 0x3F70_A3D7, 1, &["Blank.esm"], &form_ids);
    let plugin = parse(GameId::SkyrimSE, "Dependent.esp", &bytes);
    assert!(!plugin.is_valid_as_light_plugin().unwrap());

    // The wider range of newer headers accepts indexes below 0x800.
    let form_ids = vec![0x0100_07FF];
    let bytes = tes4_plugin(0, 0x3FDA_E148, 1, &["Blank.esm"], &form_ids);
    let plugin = parse(GameId::SkyrimSE, "Dependent.esp", &bytes);
    assert!(plugin.is_valid_as_light_plugin().unwrap());

    let form_ids = vec![0x0100_07FF];
    let bytes = tes4_plugin(0, 0x3F70_A3D7, 1, &["Blank.esm"], &form_ids);
    let plugin = parse(GameId::SkyrimSE, "Dependent.esp", &bytes);
    assert!(!plugin.is_valid_as_light_plugin().unwrap());
}

#[test]
fn parse_should_reject_a_wrong_header_tag() {
    let bytes = tes4_plugin(0, 0x3F70_A3D7, 1, &[], &[1]);
    let mut plugin = Plugin::new(GameId::Morrowind, "Blank.esm");

    match plugin.parse_bytes(&bytes, ParseOptions::whole_plugin()).unwrap_err() {
        Error::ParsingError(_, ParsingErrorKind::UnexpectedRecordType(_)) => {},
        e => panic!("Expected an unexpected record type error, got {:?}", e),
    }
}

#[test]
fn parse_should_reject_truncated_content() {
    let mut bytes = tes4_plugin(0, 0x3F70_A3D7, 1, &[], &[1]);
    bytes.truncate(10);
    let mut plugin = Plugin::new(GameId::Skyrim, "Blank.esm");

    match plugin.parse_bytes(&bytes, ParseOptions::whole_plugin()).unwrap_err() {
        Error::ParsingError(_, ParsingErrorKind::UnexpectedEndOfStream) => {},
        e => panic!("Expected an end of stream error, got {:?}", e),
    }
}

#[test]
fn parse_should_reject_a_group_smaller_than_its_header() {
    let mut bytes = record(b"TES4", 0, 0, &[sub(b"HEDR", &hedr(0x3F70_A3D7, 0))]);
    bytes.extend_from_slice(b"GRUP");
    bytes.extend_from_slice(&10u32.to_le_bytes());
    bytes.extend_from_slice(&[0u8; 16]);
    let mut plugin = Plugin::new(GameId::Skyrim, "Blank.esm");

    match plugin.parse_bytes(&bytes, ParseOptions::whole_plugin()).unwrap_err() {
        Error::ParsingError(_, ParsingErrorKind::GroupMalformed) => {},
        e => panic!("Expected a malformed group error, got {:?}", e),
    }
}

#[test]
fn morrowind_description_should_error_for_a_hedr_subrecord_that_is_too_small() {
    let bytes = record_mw(b"TES3", 0, &[sub_mw(b"HEDR", &[0x9A, 0x99, 0x99, 0x3F, 1, 0, 0, 0])]);
    let mut plugin = Plugin::new(GameId::Morrowind, "Blank.esm");
    plugin.parse_bytes(&bytes, ParseOptions::header_only()).unwrap();

    match plugin.description().unwrap_err() {
        Error::ParsingError(_, ParsingErrorKind::SubrecordDataTooShort(n)) => assert_eq!(40, n),
        e => panic!("Expected a subrecord too short error, got {:?}", e),
    }
    assert!(plugin.header_version_bits().is_some());
    assert!(plugin.record_and_group_count().is_none());
}

#[test]
fn parse_should_error_for_a_path_with_no_filename_when_resolution_is_needed() {
    let bytes = tes4_plugin(0, 0x3F70_A3D7, 1, &[], &[1]);
    let mut plugin = Plugin::new(GameId::Skyrim, "");

    match plugin.parse_bytes(&bytes, ParseOptions::whole_plugin()).unwrap_err() {
        Error::NoFilename(path) => assert_eq!("", path),
        e => panic!("Expected a missing filename error, got {:?}", e),
    }

    // A header-only parse never needs the filename.
    plugin.parse_bytes(&bytes, ParseOptions::header_only()).unwrap();
}

fn adler32(data: &[u8]) -> u32 {
    let mut a: u32 = 1;
    let mut b: u32 = 0;
    for byte in data {
        a = (a + u32::from(*byte)) % 65521;
        b = (b + a) % 65521;
    }
    (b << 16) | a
}

/// A zlib stream holding `data` in a single stored block.
fn zlib_stored(data: &[u8]) -> Vec<u8> {
    let mut out = vec![0x78, 0x01, 0x01];
    push_u16(&mut out, data.len() as u16);
    push_u16(&mut out, !(data.len() as u16));
    out.extend_from_slice(data);
    out.extend_from_slice(&adler32(data).to_be_bytes());
    out
}

#[test]
fn parse_should_decompress_a_compressed_record_payload() {
    let payload: Vec<u8> = [sub(b"HEDR", &hedr(0x3F80_0000, 7)), sub(b"SNAM", b"hi\0")].concat();
    let mut compressed = Vec::new();
    push_u32(&mut compressed, payload.len() as u32);
    compressed.extend_from_slice(&zlib_stored(&payload));

    let mut bytes = Vec::new();
    bytes.extend_from_slice(b"TES4");
    push_u32(&mut bytes, compressed.len() as u32);
    push_u32(&mut bytes, 0x0004_0000);
    push_u32(&mut bytes, 0);
    push_u32(&mut bytes, 0);
    push_u32(&mut bytes, 0);
    bytes.extend_from_slice(&compressed);

    let mut plugin = Plugin::new(GameId::Skyrim, "Blank.esm");
    plugin.parse_bytes(&bytes, ParseOptions::header_only()).unwrap();

    assert_eq!("hi", plugin.description().unwrap().unwrap());
    assert_eq!(7, plugin.record_and_group_count().unwrap());
}

#[test]
fn parse_should_reject_a_malformed_compressed_payload() {
    let mut compressed = Vec::new();
    push_u32(&mut compressed, 100);
    compressed.extend_from_slice(&[0xAA, 0xBB, 0xCC, 0xDD]);

    let mut bytes = Vec::new();
    bytes.extend_from_slice(b"TES4");
    push_u32(&mut bytes, compressed.len() as u32);
    push_u32(&mut bytes, 0x0004_0000);
    push_u32(&mut bytes, 0);
    push_u32(&mut bytes, 0);
    push_u32(&mut bytes, 0);
    bytes.extend_from_slice(&compressed);

    let mut plugin = Plugin::new(GameId::Skyrim, "Blank.esm");
    match plugin.parse_bytes(&bytes, ParseOptions::header_only()).unwrap_err() {
        Error::ParsingError(_, ParsingErrorKind::DecompressionFailed) => {},
        e => panic!("Expected a decompression error, got {:?}", e),
    }
}

#[test]
fn description_should_decode_windows_1252_bytes() {
    let bytes = record(
        b"TES4",
        0,
        0,
        &[sub(b"HEDR", &hedr(0x3F80_0000, 0)), sub(b"SNAM", &[0x80, 0x9A, 0x00])],
    );
    let mut plugin = Plugin::new(GameId::Skyrim, "Blank.esm");
    plugin.parse_bytes(&bytes, ParseOptions::header_only()).unwrap();

    assert_eq!("\u{20AC}\u{161}", plugin.description().unwrap().unwrap());
}

#[test]
fn subrecords_should_honour_the_large_subrecord_escape() {
    let mut escape = sub(b"XXXX", &5u32.to_le_bytes());
    let mut snam = Vec::new();
    snam.extend_from_slice(b"SNAM");
    push_u16(&mut snam, 0);
    snam.extend_from_slice(b"v5.0\0");
    escape.extend_from_slice(&snam);

    let bytes = record(b"TES4", 0, 0, &[sub(b"HEDR", &hedr(0x3F80_0000, 0)), escape]);
    let mut plugin = Plugin::new(GameId::Skyrim, "Blank.esm");
    plugin.parse_bytes(&bytes, ParseOptions::header_only()).unwrap();

    assert_eq!("v5.0", plugin.description().unwrap().unwrap());
}

#[test]
fn masters_should_trim_names_at_the_first_null() {
    let mut header_subs = vec![sub(b"HEDR", &hedr(0x3F70_A3D7, 0))];
    header_subs.push(sub(b"MAST", b"Blank\0.esm\0"));
    let bytes = record(b"TES4", 0, 0, &header_subs);
    let mut plugin = Plugin::new(GameId::Skyrim, "Dependent.esm");
    plugin.parse_bytes(&bytes, ParseOptions::header_only()).unwrap();

    let masters = plugin.masters().unwrap();
    assert_eq!(1, masters.len());
    assert_eq!("Blank", masters[0]);
}

#[test]
fn starfield_update_plugin_queries_should_follow_the_flags_and_masters() {
    // Update flag with a master and no light or medium flag: an update plugin.
    let bytes = tes4_plugin(0x200, 0x3F80_0000, 1, &["Blank.full.esm"], &[0x0000_0001]);
    let plugin = parse(GameId::Starfield, "Override.esm", &bytes);
    assert!(plugin.is_update_plugin());

    // The same flags with no masters: not an update plugin.
    let bytes = tes4_plugin(0x200, 0x3F80_0000, 1, &[], &[0x0000_0001]);
    let plugin = parse(GameId::Starfield, "Override.esm", &bytes);
    assert!(!plugin.is_update_plugin());

    // An update flag on an .esl path keeps the plugin from loading light.
    let bytes = tes4_plugin(0x200, 0x3F80_0000, 1, &["Blank.full.esm"], &[0x0000_0001]);
    let plugin = parse(GameId::Starfield, "Override.esl", &bytes);
    assert!(!plugin.is_light_plugin());

    // Without the update flag the .esl path forces the light form.
    let bytes = tes4_plugin(0, 0x3F80_0000, 1, &["Blank.full.esm"], &[0x0000_0001]);
    let plugin = parse(GameId::Starfield, "Override.esl", &bytes);
    assert!(plugin.is_light_plugin());
}

#[test]
fn starfield_is_valid_as_update_plugin_should_require_only_overrides() {
    let master_meta = esplugin::plugin::PluginMetadata {
        filename: "Blank.full.esm".to_owned(),
        scale: esplugin::plugin::PluginScale::Full,
        record_ids: Vec::new(),
    };

    let bytes = tes4_plugin(0x200, 0x3F80_0000, 1, &["Blank.full.esm"], &[0x0000_0001]);
    let mut plugin = parse(GameId::Starfield, "Override.esm", &bytes);
    plugin.resolve_record_ids(&vec![master_meta]).unwrap();
    assert!(plugin.is_valid_as_update_plugin().unwrap());

    let master_meta = esplugin::plugin::PluginMetadata {
        filename: "Blank.full.esm".to_owned(),
        scale: esplugin::plugin::PluginScale::Full,
        record_ids: Vec::new(),
    };
    let bytes = tes4_plugin(0x200, 0x3F80_0000, 2, &["Blank.full.esm"], &[
        0x0000_0001,
        0x0100_0002,
    ]);
    let mut plugin = parse(GameId::Starfield, "Override.esm", &bytes);
    plugin.resolve_record_ids(&vec![master_meta]).unwrap();
    assert!(!plugin.is_valid_as_update_plugin().unwrap());
}

#[test]
fn starfield_resolution_should_error_without_metadata_for_a_master() {
    let bytes = tes4_plugin(0, 0x3F80_0000, 1, &["Blank.full.esm"], &[0x0000_0001]);
    let mut plugin = parse(GameId::Starfield, "Dependent.esm", &bytes);

    match plugin.resolve_record_ids(&Vec::new()).unwrap_err() {
        Error::PluginMetadataNotFound(name) => assert_eq!("Blank.full.esm", name),
        e => panic!("Expected a missing metadata error, got {:?}", e),
    }
}

#[test]
fn header_only_parse_should_not_store_record_ids() {
    let bytes = tes4_plugin(0x1, 0x3F70_A3D7, 15, &[], &[1, 2, 3]);
    let mut plugin = Plugin::new(GameId::Skyrim, "Blank.esm");
    plugin.parse_bytes(&bytes, ParseOptions::header_only()).unwrap();

    assert!(matches!(plugin.data.record_ids, RecordIds::Unparsed));
}

#[test]
fn plugins_metadata_should_return_plugin_names_and_scales() {
    let full = parse(
        GameId::Starfield,
        "Blank.full.esm",
        &tes4_plugin(0, 0x3F80_0000, 1, &[], &[1]),
    );
    let medium = parse(
        GameId::Starfield,
        "Blank.medium.esm",
        &tes4_plugin(0x400, 0x3F80_0000, 1, &[], &[1]),
    );
    let small = parse(
        GameId::Starfield,
        "Blank.small.esm",
        &tes4_plugin(0x100, 0x3F80_0000, 1, &[], &[1]),
    );

    let all_metadata = plugins_metadata(&vec![&full, &medium, &small]).unwrap();

    assert_eq!(3, all_metadata.len());
    assert_eq!("Blank.full.esm", all_metadata[0].filename);
    assert_eq!(PluginScale::Full, all_metadata[0].scale);
    assert_eq!("Blank.medium.esm", all_metadata[1].filename);
    assert_eq!(PluginScale::Medium, all_metadata[1].scale);
    assert_eq!("Blank.small.esm", all_metadata[2].filename);
    assert_eq!(PluginScale::Small, all_metadata[2].scale);
}

#[test]
fn plugins_metadata_should_error_for_a_plugin_whose_path_has_no_filename() {
    let plugin = Plugin::new(GameId::Skyrim, "Data/");

    match plugins_metadata(&vec![&plugin]).unwrap_err() {
        Error::NoFilename(path) => assert_eq!("Data/", path),
        e => panic!("Expected a missing filename error, got {:?}", e),
    }
}

#[test]
fn starfield_overlap_queries_should_work_once_both_sides_are_resolved() {
    let master_bytes = tes4_plugin(0, 0x3F80_0000, 2, &[], &[0x0000_0001, 0x0000_0002]);
    let mut master = parse(GameId::Starfield, "Blank.full.esm", &master_bytes);

    let dependent_bytes = tes4_plugin(
        0,
        0x3F80_0000,
        2,
        &["Blank.full.esm"],
        &[0x0000_0001, 0x0100_0003],
    );
    let mut dependent = parse(GameId::Starfield, "Override.esp", &dependent_bytes);

    match dependent.overlaps_with(&master).unwrap_err() {
        Error::UnresolvedRecordIds(path) => assert_eq!("Override.esp", path),
        e => panic!("Expected unresolved record IDs error, got {:?}", e),
    }

    master.resolve_record_ids(&Vec::new()).unwrap();
    let all_metadata = plugins_metadata(&vec![&master]).unwrap();
    dependent.resolve_record_ids(&all_metadata).unwrap();

    assert!(dependent.overlaps_with(&master).unwrap());
    assert_eq!(
        dependent.overlaps_with(&master).unwrap(),
        master.overlaps_with(&dependent).unwrap()
    );
    assert_eq!(1, dependent.overlap_size(&vec![&master]).unwrap());
    assert_eq!(1, dependent.count_override_records().unwrap());
}

#[test]
fn whole_parse_of_a_plugin_with_no_records_should_store_an_empty_resolved_list() {
    let bytes = tes4_plugin(0x1, 0x3F70_A3D7, 0, &[], &[]);
    let plugin = parse(GameId::Skyrim, "Blank.esm", &bytes);

    match &plugin.data.record_ids {
        RecordIds::Resolved(ids) => assert_eq!(0, ids.len()),
        _ => panic!("Expected resolved record IDs"),
    }
    // A plugin with no records does not even overlap itself.
    assert!(!plugin.overlaps_with(&plugin).unwrap());
    assert_eq!(0, plugin.overlap_size(&vec![&plugin]).unwrap());
}

#[test]
fn morrowind_records_without_a_naming_subrecord_should_have_no_identity() {
    let mut bytes = morrowind_plugin(&[], &["named"], 2);
    bytes.extend_from_slice(&record_mw(b"TES3", 0, &[sub_mw(b"DATA", b"xy")]));
    let plugin = parse(GameId::Morrowind, "Blank.esm", &bytes);

    match &plugin.data.record_ids {
        RecordIds::NamespacedIds(ids) => assert_eq!(1, ids.len()),
        _ => panic!("Expected namespaced record IDs"),
    }
}
