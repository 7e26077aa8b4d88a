//! The identifier-resolution algebra: parent and master tables, the
//! Starfield per-scale layout, and case-insensitive name handling.

use esplugin::error::Error;
use esplugin::game_id::GameId;
use esplugin::plugin::{
    hashed_masters, hashed_masters_for_starfield, hashed_parent, resolve_form_ids, PluginMetadata,
    PluginScale,
};
use esplugin::record_id::{NamespacedId, ObjectIndexMask, ResolvedRecordId, SourcePlugin};

fn metadata(filename: &str, scale: PluginScale) -> PluginMetadata {
    PluginMetadata { filename: filename.to_owned(), scale, record_ids: Vec::new() }
}

#[test]
fn hashed_parent_should_use_full_object_index_mask_for_games_other_than_starfield() {
    let plugin = hashed_parent(GameId::SkyrimSE, &metadata("a", PluginScale::Full));

    assert_eq!(0, plugin.mod_index_mask);
    assert_eq!(u32::from(ObjectIndexMask::Full), plugin.object_index_mask);

    let plugin = hashed_parent(GameId::SkyrimSE, &metadata("a", PluginScale::Medium));

    assert_eq!(0, plugin.mod_index_mask);
    assert_eq!(u32::from(ObjectIndexMask::Full), plugin.object_index_mask);

    let plugin = hashed_parent(GameId::SkyrimSE, &metadata("a", PluginScale::Small));

    assert_eq!(0, plugin.mod_index_mask);
    assert_eq!(u32::from(ObjectIndexMask::Full), plugin.object_index_mask);
}

#[test]
fn hashed_parent_should_use_object_index_mask_matching_the_plugin_scale_for_starfield() {
    let plugin = hashed_parent(GameId::Starfield, &metadata("a", PluginScale::Full));

    assert_eq!(0, plugin.mod_index_mask);
    assert_eq!(u32::from(ObjectIndexMask::Full), plugin.object_index_mask);

    let plugin = hashed_parent(GameId::Starfield, &metadata("a", PluginScale::Medium));

    assert_eq!(0, plugin.mod_index_mask);
    assert_eq!(u32::from(ObjectIndexMask::Medium), plugin.object_index_mask);

    let plugin = hashed_parent(GameId::Starfield, &metadata("a", PluginScale::Small));

    assert_eq!(0, plugin.mod_index_mask);
    assert_eq!(u32::from(ObjectIndexMask::Small), plugin.object_index_mask);
}

#[test]
fn hashed_masters_should_use_vec_index_as_mod_index() {
    let masters = vec!["a".to_owned(), "b".to_owned(), "c".to_owned()];
    let hashed = hashed_masters(&masters);

    assert_eq!(
        vec![
            SourcePlugin::master("a", 0, ObjectIndexMask::Full),
            SourcePlugin::master("b", 0x0100_0000, ObjectIndexMask::Full),
            SourcePlugin::master("c", 0x0200_0000, ObjectIndexMask::Full),
        ],
        hashed
    );
}

#[test]
fn hashed_masters_for_starfield_should_error_if_it_cannot_find_a_masters_metadata() {
    let masters = vec!["a".to_owned(), "b".to_owned(), "c".to_owned()];
    let plugins_metadata = vec![
        metadata("a", PluginScale::Full),
        metadata("b", PluginScale::Full),
    ];

    match hashed_masters_for_starfield(&masters, &plugins_metadata).unwrap_err() {
        Error::PluginMetadataNotFound(master) => assert_eq!(masters[2], master),
        _ => panic!("Expected plugin metadata not found error"),
    }
}

#[test]
fn hashed_masters_for_starfield_should_match_names_to_metadata_case_insensitively() {
    let masters = vec!["a".to_owned()];
    let plugins_metadata = vec![metadata("A", PluginScale::Full)];

    let hashed = hashed_masters_for_starfield(&masters, &plugins_metadata).unwrap();

    assert_eq!(vec![SourcePlugin::master(&masters[0], 0, ObjectIndexMask::Full)], hashed);
}

#[test]
fn hashed_masters_for_starfield_should_count_mod_indexes_separately_for_different_plugin_scales() {
    let masters: Vec<String> = (0u8..7u8).map(|i| i.to_string()).collect();
    let plugins_metadata = vec![
        metadata(&masters[0], PluginScale::Full),
        metadata(&masters[1], PluginScale::Medium),
        metadata(&masters[2], PluginScale::Small),
        metadata(&masters[3], PluginScale::Medium),
        metadata(&masters[4], PluginScale::Full),
        metadata(&masters[5], PluginScale::Small),
        metadata(&masters[6], PluginScale::Small),
    ];

    let hashed = hashed_masters_for_starfield(&masters, &plugins_metadata).unwrap();

    assert_eq!(
        vec![
            SourcePlugin::master(&masters[0], 0, ObjectIndexMask::Full),
            SourcePlugin::master(&masters[1], 0xFD00_0000, ObjectIndexMask::Medium),
            SourcePlugin::master(&masters[2], 0xFE00_0000, ObjectIndexMask::Small),
            SourcePlugin::master(&masters[3], 0xFD01_0000, ObjectIndexMask::Medium),
            SourcePlugin::master(&masters[4], 0x0100_0000, ObjectIndexMask::Full),
            SourcePlugin::master(&masters[5], 0xFE00_1000, ObjectIndexMask::Small),
            SourcePlugin::master(&masters[6], 0xFE00_2000, ObjectIndexMask::Small),
        ],
        hashed
    );
}

#[test]
fn resolve_form_ids_should_use_plugin_names_case_insensitively() {
    let raw_form_ids = vec![0x0000_0001, 0x0100_0002];

    let masters = vec!["t\u{e9}st.esm".to_owned()];
    let form_ids = resolve_form_ids(
        GameId::SkyrimSE,
        &raw_form_ids,
        &metadata("Bl\u{e0}\u{f1}k.esp", PluginScale::Full),
        &masters,
        &Vec::new(),
    )
    .unwrap();

    let other_masters = vec!["T\u{c9}ST.ESM".to_owned()];
    let other_form_ids = resolve_form_ids(
        GameId::SkyrimSE,
        &raw_form_ids,
        &metadata("BL\u{c0}\u{d1}K.ESP", PluginScale::Full),
        &other_masters,
        &Vec::new(),
    )
    .unwrap();

    assert_eq!(form_ids, other_form_ids);
}

#[test]
fn resolve_form_ids_should_mark_masters_records_as_overrides() {
    let raw_form_ids = vec![0x0000_0001, 0x0100_0002, 0x0200_0003];

    let masters = vec!["first.esm".to_owned(), "second.esm".to_owned()];
    let form_ids = resolve_form_ids(
        GameId::Skyrim,
        &raw_form_ids,
        &metadata("child.esp", PluginScale::Full),
        &masters,
        &Vec::new(),
    )
    .unwrap();

    let overrides: Vec<bool> = form_ids.iter().map(|f| f.is_overridden_record()).collect();
    let count = overrides.iter().filter(|o| **o).count();
    assert_eq!(2, count);
}

#[test]
fn from_form_id_should_pick_the_master_whose_mod_index_matches() {
    let parent = SourcePlugin::parent("child.esp", ObjectIndexMask::Full);
    let masters = vec![
        SourcePlugin::master("first.esm", 0, ObjectIndexMask::Full),
        SourcePlugin::master("second.esm", 0x0100_0000, ObjectIndexMask::Full),
    ];

    let id = ResolvedRecordId::from_form_id(&parent, &masters, 0x0100_0ABC);
    assert!(id.is_overridden_record());
    assert!(id.is_object_index_in(0x0ABC, 0x0ABC));

    let id = ResolvedRecordId::from_form_id(&parent, &masters, 0x0500_0ABC);
    assert!(!id.is_overridden_record());
}

#[test]
fn namespaced_ids_with_editor_ids_differing_only_in_case_should_be_the_same_record() {
    let tag = 0x4353_494D;
    let a = NamespacedId::new(tag, "FlowerEdid");
    let b = NamespacedId::new(tag, "flowerEDID");

    assert!(a.same_id(&b));
    assert_eq!(a, b);

    let c = NamespacedId::new(tag, "other");
    assert!(!a.same_id(&c));
}

#[test]
fn from_namespaced_id_should_mark_ids_found_among_masters_as_overrides() {
    let tag = 0x4353_494D;
    let master_ids = vec![NamespacedId::new(tag, "shared")];

    let id = ResolvedRecordId::from_namespaced_id(&NamespacedId::new(tag, "SHARED"), &master_ids);
    assert!(id.is_overridden_record());

    let id = ResolvedRecordId::from_namespaced_id(&NamespacedId::new(tag, "own"), &master_ids);
    assert!(!id.is_overridden_record());
}
