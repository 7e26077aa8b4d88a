//! Queries that need no parsed content: game identity, path handling, and
//! the extension-driven plugin kinds.

use esplugin::game_id::GameId;
use esplugin::plugin::Plugin;

#[test]
fn game_id_should_return_the_plugins_associated_game_id() {
    let plugin = Plugin::new(GameId::Morrowind, "Data/Blank.esm");

    assert_eq!(GameId::Morrowind, plugin.game_id());
}

#[test]
fn plugin_game_id_should_return_the_plugins_associated_game_id() {
    let plugin = Plugin::new(GameId::Skyrim, "Data/Blank.esm");

    assert_eq!(GameId::Skyrim, plugin.game_id());
}

#[test]
fn path_should_return_the_full_plugin_path() {
    let path = "Data/Blank.esm";
    let plugin = Plugin::new(GameId::Skyrim, path);

    assert_eq!(path, plugin.path());
}

#[test]
fn is_light_plugin_should_be_false() {
    let plugin = Plugin::new(GameId::Morrowind, "Blank.esp");
    assert!(!plugin.is_light_plugin());
    let plugin = Plugin::new(GameId::Morrowind, "Blank.esm");
    assert!(!plugin.is_light_plugin());
    let plugin = Plugin::new(GameId::Morrowind, "Blank.esl");
    assert!(!plugin.is_light_plugin());
}

#[test]
fn plugin_is_light_plugin_should_be_false() {
    let plugin = Plugin::new(GameId::Oblivion, "Blank.esp");
    assert!(!plugin.is_light_plugin());
    let plugin = Plugin::new(GameId::Oblivion, "Blank.esm");
    assert!(!plugin.is_light_plugin());
    let plugin = Plugin::new(GameId::Oblivion, "Blank.esl");
    assert!(!plugin.is_light_plugin());
}

#[test]
fn skyrim_is_light_plugin_should_be_false() {
    let plugin = Plugin::new(GameId::Skyrim, "Blank.esp");
    assert!(!plugin.is_light_plugin());
    let plugin = Plugin::new(GameId::Skyrim, "Blank.esm");
    assert!(!plugin.is_light_plugin());
    let plugin = Plugin::new(GameId::Skyrim, "Blank.esl");
    assert!(!plugin.is_light_plugin());
}

#[test]
fn fallout3_is_light_plugin_should_be_false() {
    let plugin = Plugin::new(GameId::Fallout3, "Blank.esp");
    assert!(!plugin.is_light_plugin());
    let plugin = Plugin::new(GameId::Fallout3, "Blank.esm");
    assert!(!plugin.is_light_plugin());
    let plugin = Plugin::new(GameId::Fallout3, "Blank.esl");
    assert!(!plugin.is_light_plugin());
}

#[test]
fn falloutnv_is_light_plugin_should_be_false() {
    let plugin = Plugin::new(GameId::FalloutNV, "Blank.esp");
    assert!(!plugin.is_light_plugin());
    let plugin = Plugin::new(GameId::FalloutNV, "Blank.esm");
    assert!(!plugin.is_light_plugin());
    let plugin = Plugin::new(GameId::FalloutNV, "Blank.esl");
    assert!(!plugin.is_light_plugin());
}

#[test]
fn is_light_plugin_should_be_true_for_plugins_with_an_esl_file_extension() {
    let plugin = Plugin::new(GameId::SkyrimSE, "Blank.esp");
    assert!(!plugin.is_light_plugin());
    let plugin = Plugin::new(GameId::SkyrimSE, "Blank.esm");
    assert!(!plugin.is_light_plugin());
    let plugin = Plugin::new(GameId::SkyrimSE, "Blank.esl");
    assert!(plugin.is_light_plugin());
}

#[test]
fn plugin_is_light_plugin_should_be_true_for_plugins_with_an_esl_file_extension() {
    let plugin = Plugin::new(GameId::Fallout4, "Blank.esp");
    assert!(!plugin.is_light_plugin());
    let plugin = Plugin::new(GameId::Fallout4, "Blank.esm");
    assert!(!plugin.is_light_plugin());
    let plugin = Plugin::new(GameId::Fallout4, "Blank.esl");
    assert!(plugin.is_light_plugin());
}

#[test]
fn is_light_plugin_should_be_true_for_plugins_with_an_esl_file_extension_if_the_update_flag_is_not_set(
) {
    let plugin = Plugin::new(GameId::Starfield, "Blank.esp");
    assert!(!plugin.is_light_plugin());
    let plugin = Plugin::new(GameId::Starfield, "Blank.esm");
    assert!(!plugin.is_light_plugin());
    let plugin = Plugin::new(GameId::Starfield, "Blank.esl");
    assert!(plugin.is_light_plugin());
}

#[test]
fn is_light_plugin_should_be_true_for_a_ghosted_esl_file() {
    let plugin = Plugin::new(GameId::SkyrimSE, "Blank.esl.ghost");
    assert!(plugin.is_light_plugin());
}

#[test]
fn plugin_is_light_plugin_should_be_true_for_a_ghosted_esl_file() {
    let plugin = Plugin::new(GameId::Fallout4, "Blank.esl.ghost");
    assert!(plugin.is_light_plugin());
}

#[test]
fn starfield_is_light_plugin_should_be_true_for_a_ghosted_esl_file() {
    let plugin = Plugin::new(GameId::Starfield, "Blank.esl.ghost");
    assert!(plugin.is_light_plugin());
}

#[test]
fn is_medium_plugin_should_be_false() {
    let plugin = Plugin::new(GameId::Morrowind, "Blank.esp");
    assert!(!plugin.is_medium_plugin());
    let plugin = Plugin::new(GameId::Morrowind, "Blank.esm");
    assert!(!plugin.is_medium_plugin());
    let plugin = Plugin::new(GameId::Morrowind, "Blank.esl");
    assert!(!plugin.is_medium_plugin());
}

#[test]
fn plugin_is_medium_plugin_should_be_false() {
    let plugin = Plugin::new(GameId::Oblivion, "Blank.esp");
    assert!(!plugin.is_medium_plugin());
    let plugin = Plugin::new(GameId::Oblivion, "Blank.esm");
    assert!(!plugin.is_medium_plugin());
    let plugin = Plugin::new(GameId::Oblivion, "Blank.esl");
    assert!(!plugin.is_medium_plugin());
}

#[test]
fn skyrim_is_medium_plugin_should_be_false() {
    let plugin = Plugin::new(GameId::Skyrim, "Blank.esp");
    assert!(!plugin.is_medium_plugin());
    let plugin = Plugin::new(GameId::Skyrim, "Blank.esm");
    assert!(!plugin.is_medium_plugin());
    let plugin = Plugin::new(GameId::Skyrim, "Blank.esl");
    assert!(!plugin.is_medium_plugin());
}

#[test]
fn skyrimse_is_medium_plugin_should_be_false() {
    let plugin = Plugin::new(GameId::SkyrimSE, "Blank.esp");
    assert!(!plugin.is_medium_plugin());
    let plugin = Plugin::new(GameId::SkyrimSE, "Blank.esm");
    assert!(!plugin.is_medium_plugin());
    let plugin = Plugin::new(GameId::SkyrimSE, "Blank.esl");
    assert!(!plugin.is_medium_plugin());
}

#[test]
fn fallout3_is_medium_plugin_should_be_false() {
    let plugin = Plugin::new(GameId::Fallout3, "Blank.esp");
    assert!(!plugin.is_medium_plugin());
    let plugin = Plugin::new(GameId::Fallout3, "Blank.esm");
    assert!(!plugin.is_medium_plugin());
    let plugin = Plugin::new(GameId::Fallout3, "Blank.esl");
    assert!(!plugin.is_medium_plugin());
}

#[test]
fn falloutnv_is_medium_plugin_should_be_false() {
    let plugin = Plugin::new(GameId::FalloutNV, "Blank.esp");
    assert!(!plugin.is_medium_plugin());
    let plugin = Plugin::new(GameId::FalloutNV, "Blank.esm");
    assert!(!plugin.is_medium_plugin());
    let plugin = Plugin::new(GameId::FalloutNV, "Blank.esl");
    assert!(!plugin.is_medium_plugin());
}

#[test]
fn fallout4_is_medium_plugin_should_be_false() {
    let plugin = Plugin::new(GameId::Fallout4, "Blank.esp");
    assert!(!plugin.is_medium_plugin());
    let plugin = Plugin::new(GameId::Fallout4, "Blank.esm");
    assert!(!plugin.is_medium_plugin());
    let plugin = Plugin::new(GameId::Fallout4, "Blank.esl");
    assert!(!plugin.is_medium_plugin());
}

#[test]
fn is_medium_plugin_should_be_false_for_a_plugin_without_the_medium_flag_set() {
    let plugin = Plugin::new(GameId::Starfield, "Blank.esp");
    assert!(!plugin.is_medium_plugin());
    let plugin = Plugin::new(GameId::Starfield, "Blank.esm");
    assert!(!plugin.is_medium_plugin());
    let plugin = Plugin::new(GameId::Starfield, "Blank.esl");
    assert!(!plugin.is_medium_plugin());
}

#[test]
fn valid_light_form_id_range_should_be_0_to_0xfff() {
    let plugin = Plugin::new(GameId::Starfield, "Blank.esp");

    let range = plugin.valid_light_form_id_range();
    assert_eq!(0, range.0);
    assert_eq!(0xFFF, range.1);
}

#[test]
fn filename_should_return_filename_in_given_path() {
    let plugin = Plugin::new(GameId::Skyrim, "Blank.esm");

    assert_eq!("Blank.esm", plugin.filename().unwrap());

    let plugin = Plugin::new(GameId::Skyrim, "Blank.esp");

    assert_eq!("Blank.esp", plugin.filename().unwrap());
}

#[test]
fn filename_should_not_trim_dot_ghost_extension() {
    let plugin = Plugin::new(GameId::Skyrim, "Blank.esp.ghost");

    assert_eq!("Blank.esp.ghost", plugin.filename().unwrap());
}

#[test]
fn filename_should_return_none_for_a_path_with_no_final_component() {
    let plugin = Plugin::new(GameId::Skyrim, "Data/");

    assert!(plugin.filename().is_none());

    let plugin = Plugin::new(GameId::Skyrim, "");

    assert!(plugin.filename().is_none());
}

#[test]
fn until_first_null_should_return_the_full_input_when_no_null_is_present() {
    let bytes = [1u8, 2, 3, 4];

    assert_eq!(&bytes[..], esplugin::reader::until_first_null(&bytes));
}

#[test]
fn until_first_null_should_return_the_prefix_before_the_first_null() {
    let bytes = [1u8, 2, 0, 4, 0, 5];

    assert_eq!(&bytes[..2], esplugin::reader::until_first_null(&bytes));
    assert_eq!(&[] as &[u8], esplugin::reader::until_first_null(&[0u8, 7]));
}

#[test]
fn scale_queries_should_follow_the_flags_for_an_unparsed_starfield_plugin() {
    let plugin = Plugin::new(GameId::Starfield, "Blank.esm");

    assert!(!plugin.is_light_plugin());
    assert!(!plugin.is_medium_plugin());
    assert!(!plugin.is_update_plugin());
    assert!(!plugin.is_blueprint_plugin());
}
