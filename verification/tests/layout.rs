use waylandkb::backend::KeyAction;
use waylandkb::layout::{Action, Key, Language, LayoutPage, Modifier, SplitRow};

fn all_keys(language: Language, page: LayoutPage) -> Vec<Key> {
    let mut keys = Vec::new();
    for row in language.rows(page) {
        keys.extend(row.left.iter().copied());
        keys.extend(row.right.iter().copied());
    }
    keys
}

fn half_width(rows: &[SplitRow], left: bool) -> i32 {
    rows.iter()
        .map(|row| {
            let keys = if left { &row.left } else { &row.right };
            keys.iter().map(|key| key.width).sum()
        })
        .max()
        .unwrap_or_default()
}

#[test]
fn system_layout_names_are_recognized() {
    assert_eq!(
        Language::from_layout_name("English (US)"),
        Some(Language::English)
    );
    assert_eq!(
        Language::from_layout_name("Russian"),
        Some(Language::Russian)
    );
    assert_eq!(Language::from_layout_name("ru"), Some(Language::Russian));
    assert_eq!(Language::from_layout_name("German"), None);
}

#[test]
fn both_letter_layouts_contain_controls() {
    for language in [Language::English, Language::Russian] {
        let keys = all_keys(language, LayoutPage::Letters);
        for modifier in [
            Modifier::Ctrl,
            Modifier::Super,
            Modifier::Alt,
            Modifier::Shift,
        ] {
            assert!(keys
                .iter()
                .any(|key| key.action == Action::Modifier(modifier)));
        }
        assert!(keys.iter().any(|key| key.action == Action::Hide));
        assert!(keys
            .iter()
            .any(|key| key.action == Action::SwitchPage(LayoutPage::Symbols)));
    }
}

#[test]
fn both_halves_have_the_same_maximum_width() {
    for language in [Language::English, Language::Russian] {
        for page in [
            LayoutPage::Letters,
            LayoutPage::Symbols,
            LayoutPage::Functions,
        ] {
            let rows = language.rows(page);
            assert_eq!(half_width(&rows, true), half_width(&rows, false));
        }
    }
}

#[test]
fn punctuation_is_kept_off_the_letter_page() {
    for language in [Language::English, Language::Russian] {
        assert!(!all_keys(language, LayoutPage::Letters)
            .iter()
            .any(|key| matches!(key.action, Action::Input(KeyAction::Symbol { .. }))));
    }
    assert!(all_keys(Language::English, LayoutPage::Symbols)
        .iter()
        .any(|key| matches!(
            key.action,
            Action::Input(KeyAction::Symbol { value: "?", .. })
        )));
}

#[test]
fn russian_shortcut_keys_follow_qwerty_positions() {
    assert!(all_keys(Language::Russian, LayoutPage::Letters)
        .iter()
        .any(|key| {
            key.action
                == Action::Input(KeyAction::Text {
                    value: "с",
                    physical_key: "c",
                    group: 1,
                })
        }));
}

#[test]
fn layout_names_are_case_insensitive_and_accept_short_codes() {
    assert_eq!(Language::from_layout_name("RUSSIAN"), Some(Language::Russian));
    assert_eq!(Language::from_layout_name("us"), Some(Language::English));
    assert_eq!(Language::from_layout_name(""), None);
}

#[test]
fn every_page_has_rows_on_both_halves() {
    for language in [Language::English, Language::Russian] {
        for page in [
            LayoutPage::Letters,
            LayoutPage::Symbols,
            LayoutPage::Functions,
        ] {
            let rows = language.rows(page);
            assert!(!rows.is_empty());
            assert!(rows.iter().all(|row| !row.left.is_empty() || !row.right.is_empty()));
        }
    }
}

#[test]
fn letter_pages_of_both_languages_have_the_same_shape() {
    let english = Language::English.rows(LayoutPage::Letters);
    let russian = Language::Russian.rows(LayoutPage::Letters);
    assert_eq!(english.len(), russian.len());
}
