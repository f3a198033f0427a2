use waylandkb::layout::Language;
use waylandkb::system_layout::{
    desktop_name, environment_language, fcitx_input_method_language, first_source_language,
    gnome_current_index, gnome_layout_language, ibus_engine_language, input_method_is,
    parse_driftwm_state, parse_gsettings_sources, parse_layout_devices, parse_niri_layouts,
    layout_search_order, preferred_sources, LayoutSearch, LayoutSource,
};

#[test]
fn hyprland_prefers_main_keyboard() {
    let json = r#"{
        "keyboards": [
            {"name": "virtual", "active_keymap": "English (US)", "main": false},
            {"name": "built-in", "active_keymap": "Russian", "main": true}
        ]
    }"#;
    assert_eq!(
        parse_layout_devices(json, "active_keymap", true),
        Some(Language::Russian)
    );
}

#[test]
fn sway_layout_is_detected() {
    let json = r#"[
        {"identifier": "keyboard", "xkb_active_layout_name": "English (US)"}
    ]"#;
    assert_eq!(
        parse_layout_devices(json, "xkb_active_layout_name", false),
        Some(Language::English)
    );
}

#[test]
fn braces_inside_strings_do_not_break_object_detection() {
    let json = r#"{"keyboards":[{"name":"odd } name", "active_keymap":"Russian", "main":true}]}"#;
    assert_eq!(
        parse_layout_devices(json, "active_keymap", true),
        Some(Language::Russian)
    );
}

#[test]
fn driftwm_prefers_short_layout_name() {
    let state = "layout=Russian\nlayout_short=ru\nworkspace=1\n";
    assert_eq!(parse_driftwm_state(state), Some(Language::Russian));
}

#[test]
fn driftwm_uses_long_layout_name_as_fallback() {
    let state = "layout=English (US)\n";
    assert_eq!(parse_driftwm_state(state), Some(Language::English));
}

#[test]
fn niri_uses_current_layout_index() {
    let json = r#"{"names":["English (US)","Russian"],"current_idx":1}"#;
    assert_eq!(parse_niri_layouts(json), Some(Language::Russian));
}

#[test]
fn gnome_sources_keep_only_xkb_layouts() {
    let value = "[('xkb', 'us'), ('ibus', 'typing-booster'), ('xkb', 'ru')]";
    assert_eq!(parse_gsettings_sources(value), ["us", "ru"]);
}

#[test]
fn niri_index_out_of_range_gives_nothing() {
    let json = r#"{"names":["English (US)"],"current_idx":3}"#;
    assert_eq!(parse_niri_layouts(json), None);
}

#[test]
fn first_matching_device_wins_without_a_main_keyboard() {
    let json = r#"[
        {"identifier": "a", "xkb_active_layout_name": "Russian"},
        {"identifier": "b", "xkb_active_layout_name": "English (US)"}
    ]"#;
    assert_eq!(
        parse_layout_devices(json, "xkb_active_layout_name", false),
        Some(Language::Russian)
    );
    assert_eq!(parse_layout_devices("[]", "xkb_active_layout_name", false), None);
}

#[test]
fn unknown_driftwm_layout_gives_nothing() {
    assert_eq!(parse_driftwm_state("layout_short=de\n"), None);
    assert_eq!(parse_driftwm_state(""), None);
}

#[test]
fn ibus_and_fcitx_names_carry_the_layout() {
    assert_eq!(ibus_engine_language("xkb:ru::rus\n"), Some(Language::Russian));
    assert_eq!(ibus_engine_language("xkb:us::eng"), Some(Language::English));
    assert_eq!(ibus_engine_language("libpinyin"), None);
    assert_eq!(
        fcitx_input_method_language("keyboard-ru\n"),
        Some(Language::Russian)
    );
    assert_eq!(fcitx_input_method_language("keyboard-us"), Some(Language::English));
}

#[test]
fn environment_layout_lists_are_ambiguous() {
    assert_eq!(environment_language("ru"), Some(Language::Russian));
    assert_eq!(environment_language("us,ru"), None);
}

#[test]
fn gnome_current_source_is_read_from_the_index() {
    assert_eq!(gnome_current_index("uint32 1\n"), Some(1));
    assert_eq!(gnome_current_index("uint32 +2"), Some(2));
    assert_eq!(gnome_current_index("   "), None);
    assert_eq!(gnome_current_index("uint32 x"), None);
    let sources = "[('xkb', 'us'), ('xkb', 'ru')]";
    assert_eq!(gnome_layout_language(Some(1), sources), Some(Language::Russian));
    assert_eq!(gnome_layout_language(Some(2), sources), None);
    assert_eq!(gnome_layout_language(None, sources), None);
    assert_eq!(first_source_language(sources), Some(Language::English));
    assert_eq!(first_source_language("@a(ss) []"), None);
}

#[test]
fn desktop_names_are_joined_and_lowercased() {
    let values = vec!["GNOME".to_string(), "ubuntu:Wayland".to_string()];
    let name: String = desktop_name(&values).into_iter().collect();
    assert_eq!(name, "gnome:ubuntu:wayland");
    assert!(desktop_name(&[]).is_empty());
}

#[test]
fn input_method_variables_are_compared_in_lowercase() {
    let values = vec!["xim".to_string(), "@im=IBus".to_string()];
    assert!(input_method_is(&values, "ibus"));
    assert!(!input_method_is(&values, "fcitx"));
}

#[test]
fn desktop_sources_come_before_input_method_frameworks() {
    let desktop: Vec<char> = "kde".chars().collect();
    assert_eq!(
        preferred_sources(&desktop, false, true, false, true, false),
        vec![LayoutSource::Hyprland, LayoutSource::Kde, LayoutSource::Ibus]
    );
    let gnome: Vec<char> = "ubuntu:gnome".chars().collect();
    assert_eq!(
        preferred_sources(&gnome, false, false, false, false, true),
        vec![LayoutSource::Gnome, LayoutSource::Fcitx]
    );
}

#[test]
fn the_search_asks_the_override_first_and_the_fallbacks_last() {
    let desktop: Vec<char> = "sway".chars().collect();
    assert_eq!(
        layout_search_order(&desktop, false, false, false, false, false),
        vec![
            LayoutSource::OverrideFile,
            LayoutSource::Sway,
            LayoutSource::Driftwm,
            LayoutSource::X11,
            LayoutSource::Environment,
        ]
    );
}

#[test]
fn the_first_source_that_answers_wins() {
    let mut search = LayoutSearch::new(vec![
        LayoutSource::OverrideFile,
        LayoutSource::Gnome,
        LayoutSource::Environment,
    ]);
    assert_eq!(search.next_source(), Some(LayoutSource::OverrideFile));
    search.answer(None);
    assert_eq!(search.next_source(), Some(LayoutSource::Gnome));
    search.answer(Some(Language::Russian));
    assert_eq!(search.next_source(), None);
    assert_eq!(search.result(), Some(Language::Russian));
}

#[test]
fn a_search_without_answers_finds_nothing() {
    let mut search = LayoutSearch::new(vec![LayoutSource::X11]);
    search.answer(None);
    assert_eq!(search.next_source(), None);
    assert_eq!(search.result(), None);
}
