use comp76fx_core::presets::{folder_base, FolderBase};
use std::collections::BTreeMap;

use comp76fx_core::presets::{
    captures, file_name, file_stem, find_saved, has_name, listed_name, name_taken, same_name,
    sort_by_name, Preset,
};

fn preset(name: &str, input: f32, built_in: bool) -> Preset<f32> {
    Preset {
        name: name.to_string(),
        values: BTreeMap::from([("input".to_string(), input)]),
        built_in,
    }
}

#[test]
fn a_windows_device_name_is_not_used_as_a_file_name() {
    assert_eq!(file_stem("Aux"), "Aux_");
    assert_eq!(file_stem("con"), "con_");
    assert_eq!(file_stem("Auxiliary"), "Auxiliary");
    assert_eq!(file_stem("Clean."), "Clean_");
}

#[test]
fn a_file_stem_keeps_only_safe_characters() {
    assert_eq!(file_stem("  A/B  "), "A_B");
    assert_eq!(file_stem("Vocal 4:1"), "Vocal 4_1");
    assert_eq!(file_stem("   "), "preset");
    assert_eq!(file_stem("LPT9"), "LPT9_");
    assert_eq!(file_stem("Grün-Kick_2"), "Grün-Kick_2");
}

#[test]
fn names_differ_neither_by_case_nor_by_padding() {
    assert!(same_name("Vocal", "vocal"));
    assert!(same_name("  Vocal ", "VOCAL"));
    assert!(!same_name("Vocal", "Vocals"));
}

#[test]
fn only_saved_presets_are_replaced() {
    let presets = vec![preset("Vocal 4:1", 0.5, true), preset("Mine", 0.2, false)];
    assert!(!name_taken("vocal 4:1", &presets), "a built-in is never replaced");
    assert!(name_taken(" MINE", &presets));
    assert!(!name_taken("Theirs", &presets));
}

#[test]
fn the_first_saved_preset_of_a_name_is_the_one_replaced() {
    let saved = vec![
        ("a.json", preset("A/B", 0.1, false)),
        ("b.json", preset("A_B", 0.2, false)),
        ("c.json", preset("a_b", 0.3, false)),
    ];
    assert_eq!(find_saved(&saved, "a/b"), Some(0));
    assert_eq!(find_saved(&saved, "A_b"), Some(1));
    assert_eq!(find_saved(&saved, "nothing"), None);
}

#[test]
fn a_blank_name_is_no_name() {
    assert!(!has_name("   "));
    assert!(!has_name(""));
    assert!(has_name(" x "));
}

#[test]
fn a_blank_stored_name_follows_the_file() {
    assert_eq!(listed_name("Kept".to_string(), Some("file".to_string())), Some("Kept".to_string()));
    assert_eq!(listed_name("  ".to_string(), Some("file".to_string())), Some("file".to_string()));
    assert_eq!(listed_name("".to_string(), None), None);
}

#[test]
fn oversampling_and_power_are_left_alone() {
    assert!(!captures("os"));
    assert!(!captures("power"));
    assert!(captures("input"));
    assert!(captures("ratio20"));
}

#[test]
fn file_names_count_up_from_the_stem() {
    assert_eq!(file_name("Vocal", 1), "Vocal.json");
    assert_eq!(file_name("Vocal", 0), "Vocal.json");
    assert_eq!(file_name("Vocal", 2), "Vocal 2.json");
    assert_eq!(file_name("A_B", 10), "A_B 10.json");
    assert_eq!(file_name("x", 4_294_967_295), "x 4294967295.json");
}

#[test]
fn saved_presets_list_by_name_whatever_the_case() {
    let sorted = sort_by_name(vec![
        preset("bass", 0.1, false),
        preset("Vocal", 0.2, false),
        preset("Air", 0.3, false),
        preset("vocal", 0.4, false),
        preset("BASS", 0.5, false),
    ]);
    let names: Vec<&str> = sorted.iter().map(|p| p.name.as_str()).collect();
    assert_eq!(names, vec!["Air", "bass", "BASS", "Vocal", "vocal"]);
    assert_eq!(sorted[1].values["input"], 0.1);
    assert!(sort_by_name(Vec::<Preset<f32>>::new()).is_empty());
}

#[test]
fn the_preset_folder_follows_the_setting_then_the_fallback() {
    // An absolute setting is enough on its own, and wins over the fallback.
    assert_eq!(folder_base(Some(true), None, true), Some(FolderBase::Setting));
    assert_eq!(folder_base(Some(true), Some(true), false), Some(FolderBase::Setting));
    // A cleared setting falls back.
    assert_eq!(folder_base(None, Some(true), true), Some(FolderBase::Fallback));
    assert_eq!(folder_base(None, None, true), None);
    // A relative setting is refused rather than followed.
    assert_eq!(folder_base(Some(false), None, true), None);
    assert_eq!(folder_base(Some(false), None, false), None);
    assert_eq!(folder_base(Some(false), Some(true), true), Some(FolderBase::Fallback));
    // Only where the rule asks for it must the fallback be absolute too.
    assert_eq!(folder_base(None, Some(false), true), None);
    assert_eq!(folder_base(None, Some(false), false), Some(FolderBase::Fallback));
}
