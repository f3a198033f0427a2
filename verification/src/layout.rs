//! The split layouts: four rows per page, a left and a right half per row.
use vstd::prelude::*;

use crate::backend::{
    effective_shift, evdev_code, key_stroke, lemma_modifier_mask_bits, physical_key_of, KeyAction,
    Modifiers, MOD_ALT, MOD_CTRL, MOD_LOGO, MOD_SHIFT,
};
use crate::text::{
    ascii_lower, chars_are, chars_of, contains, contains_chars, has_prefix, starts_with_chars, to_lowercase,
    trim, trimmed, unicode_lowercase, lemma_trim_idempotent, find_from,
};

verus! {

#[derive(Clone, Copy, Debug, PartialEq, Eq, Structural)]
pub enum Language {
    English,
    Russian,
}

/// The language of a lowercase layout name.
pub open spec fn classify_layout(n: Seq<char>) -> Option<Language> {
    if n == "ru"@ || has_prefix(n, "ru "@) || contains(n, "russian"@) {
        Some(Language::Russian)
    } else if n == "us"@ || n == "en"@ || n == "gb"@ || has_prefix(n, "en "@) || contains(
        n,
        "english"@,
    ) {
        Some(Language::English)
    } else {
        None
    }
}

/// The language of a layout name as the system reports it: the name is
/// trimmed and lowercased before it is classified.
pub open spec fn layout_language(name: Seq<char>) -> Option<Language> {
    classify_layout(unicode_lowercase(trim(name)))
}

/// Surrounding white space never matters to the language of a layout name.
pub proof fn lemma_surrounding_space_never_matters(name: Seq<char>)
    ensures
        layout_language(trim(name)) == layout_language(name),
{
    lemma_trim_idempotent(name);
}

/// The short codes name their language, whatever the letter case and the
/// surrounding white space of the system's name: `us`, `en` and `gb` are
/// English, `ru` is Russian; so is any name that says `russian`.
pub proof fn lemma_layout_codes_name_their_language(name: Seq<char>)
    ensures
        ({
            let n = unicode_lowercase(trim(name));
            &&& n == "us"@ || n == "en"@ || n == "gb"@ ==> layout_language(name) == Some(
                Language::English,
            )
            &&& n == "ru"@ || contains(n, "russian"@) ==> layout_language(name) == Some(
                Language::Russian,
            )
        }),
{
    let n = unicode_lowercase(trim(name));
    reveal_strlit("us");
    reveal_strlit("en");
    reveal_strlit("gb");
    reveal_strlit("ru");
    reveal_strlit("ru ");
    reveal_strlit("russian");
    if n == "us"@ || n == "en"@ || n == "gb"@ {
        assert(n[0] != 'r');
        assert("ru"@[0] == 'r');
        assert(n != "ru"@);
        assert(!has_prefix(n, "ru "@));
        assert(find_from(n, "russian"@, 0) is None);
    }
}

impl Language {
    /// The language of a layout name such as `English (US)`, `ru` or `Russian`.
    pub fn from_layout_name(name: &str) -> (r: Option<Self>)
        ensures
            r == layout_language(name@),
    {
        let chars = chars_of(name);
        Self::from_layout_chars(&chars)
    }

    /// `from_layout_name` on characters.
    pub fn from_layout_chars(name: &[char]) -> (r: Option<Self>)
        ensures
            r == layout_language(name@),
    {
        let lower = to_lowercase(&trimmed(name));
        Self::from_lowercase_name(&lower)
    }

    /// The language of an already trimmed and lowercased layout name.
    pub fn from_lowercase_name(name: &[char]) -> (r: Option<Self>)
        ensures
            r == classify_layout(name@),
    {
        if chars_are(name, "ru") || starts_with_chars(name, &chars_of("ru ")) || contains_chars(
            name,
            &chars_of("russian"),
        ) {
            Some(Language::Russian)
        } else if chars_are(name, "us") || chars_are(name, "en") || chars_are(name, "gb")
            || starts_with_chars(name, &chars_of("en ")) || contains_chars(
            name,
            &chars_of("english"),
        ) {
            Some(Language::English)
        } else {
            None
        }
    }

    /// The rows of a page of this language.
    pub fn rows(self, page: LayoutPage) -> (r: Vec<SplitRow>)
        ensures
            r@.map_values(|row: SplitRow| row@) == layout_rows(self, page),
    {
        match page {
            LayoutPage::Letters => match self {
                Language::English => build_english_rows(),
                Language::Russian => build_russian_rows(),
            },
            LayoutPage::Symbols => build_symbol_rows(),
            LayoutPage::Functions => build_function_rows(),
        }
    }
}

#[derive(Clone, Copy, Debug, PartialEq, Eq, Structural)]
pub enum LayoutPage {
    Letters,
    Symbols,
    Functions,
}

impl Default for LayoutPage {
    fn default() -> (r: Self)
        ensures
            r == LayoutPage::Letters,
    {
        LayoutPage::Letters
    }
}

#[derive(Clone, Copy, Debug, PartialEq, Eq, Structural)]
pub enum Modifier {
    Ctrl,
    Super,
    Alt,
    Shift,
}

#[derive(Clone, Copy, Debug, PartialEq, Eq)]
pub enum Action {
    Input(KeyAction),
    Modifier(Modifier),
    SwitchPage(LayoutPage),
    Hide,
}

#[derive(Clone, Copy, Debug, PartialEq, Eq)]
pub struct Key {
    pub label: &'static str,
    pub action: Action,
    pub width: i32,
}

#[derive(Clone, Debug)]
pub struct SplitRow {
    pub left: Vec<Key>,
    pub right: Vec<Key>,
}

impl View for SplitRow {
    type V = (Seq<Key>, Seq<Key>);

    open spec fn view(&self) -> (Seq<Key>, Seq<Key>) {
        (self.left@, self.right@)
    }
}

fn split_row(left: Vec<Key>, right: Vec<Key>) -> (r: SplitRow)
    ensures
        r@ == (left@, right@),
{
    SplitRow { left, right }
}

/// The rows of a page.
pub open spec fn layout_rows(language: Language, page: LayoutPage) -> Seq<(Seq<Key>, Seq<Key>)> {
    match page {
        LayoutPage::Letters => match language {
            Language::English => english_rows(),
            Language::Russian => russian_rows(),
        },
        LayoutPage::Symbols => symbol_rows(),
        LayoutPage::Functions => function_rows(),
    }
}

pub open spec fn text_value_key(
    label: &'static str,
    value: &'static str,
    physical_key: &'static str,
    group: u32,
    width: i32,
) -> Key {
    Key { label, action: Action::Input(KeyAction::Text { value, physical_key, group }), width }
}

pub open spec fn text_key(label: &'static str, physical_key: &'static str) -> Key {
    text_value_key(label, label, physical_key, 0, 1)
}

pub open spec fn russian_text_key(label: &'static str, physical_key: &'static str) -> Key {
    text_value_key(label, label, physical_key, 1, 1)
}

pub open spec fn symbol_key(label: &'static str, physical_key: &'static str, shifted: bool) -> Key {
    Key {
        label,
        action: Action::Input(KeyAction::Symbol { value: label, physical_key, shifted }),
        width: 1,
    }
}

pub open spec fn input_key_key(label: &'static str, name: &'static str, width: i32) -> Key {
    Key { label, action: Action::Input(KeyAction::Key(name)), width }
}

pub open spec fn modifier_key(label: &'static str, modifier: Modifier) -> Key {
    Key { label, action: Action::Modifier(modifier), width: 1 }
}

pub open spec fn switch_page_key(label: &'static str, page: LayoutPage) -> Key {
    Key { label, action: Action::SwitchPage(page), width: 1 }
}

pub open spec fn hide_key() -> Key {
    Key { label: "⌄", action: Action::Hide, width: 1 }
}

/// A letter of the first group.
pub fn text(label: &'static str, physical_key: &'static str) -> (k: Key)
    ensures
        k == text_key(label, physical_key),
{
    text_value(label, label, physical_key, 0, 1)
}

/// A letter of the second (Russian) group.
pub fn russian_text(label: &'static str, physical_key: &'static str) -> (k: Key)
    ensures
        k == russian_text_key(label, physical_key),
{
    text_value(label, label, physical_key, 1, 1)
}

pub fn text_value(
    label: &'static str,
    value: &'static str,
    physical_key: &'static str,
    group: u32,
    width: i32,
) -> (k: Key)
    ensures
        k == text_value_key(label, value, physical_key, group, width),
{
    Key { label, action: Action::Input(KeyAction::Text { value, physical_key, group }), width }
}

pub fn symbol(label: &'static str, physical_key: &'static str, shifted: bool) -> (k: Key)
    ensures
        k == symbol_key(label, physical_key, shifted),
{
    Key {
        label,
        action: Action::Input(KeyAction::Symbol { value: label, physical_key, shifted }),
        width: 1,
    }
}

pub fn input_key(label: &'static str, name: &'static str, width: i32) -> (k: Key)
    ensures
        k == input_key_key(label, name, width),
{
    Key { label, action: Action::Input(KeyAction::Key(name)), width }
}

pub fn modifier(label: &'static str, which: Modifier) -> (k: Key)
    ensures
        k == modifier_key(label, which),
{
    Key { label, action: Action::Modifier(which), width: 1 }
}

pub fn switch_page(label: &'static str, page: LayoutPage) -> (k: Key)
    ensures
        k == switch_page_key(label, page),
{
    Key { label, action: Action::SwitchPage(page), width: 1 }
}

pub fn hide_control() -> (k: Key)
    ensures
        k == hide_key(),
{
    Key { label: "⌄", action: Action::Hide, width: 1 }
}

/// The rows of the english page.
pub open spec fn english_rows() -> Seq<(Seq<Key>, Seq<Key>)> {
    seq![
        (
            seq![text_key("q", "q"), text_key("w", "w"), text_key("e", "e"), text_key("r", "r"), text_key("t", "t")],
            seq![text_key("y", "y"), text_key("u", "u"), text_key("i", "i"), text_key("o", "o"), text_key("p", "p")],
        ),
        (
            seq![text_key("a", "a"), text_key("s", "s"), text_key("d", "d"), text_key("f", "f"), text_key("g", "g")],
            seq![text_key("h", "h"), text_key("j", "j"), text_key("k", "k"), text_key("l", "l"), input_key_key("⏎", "Return", 1)],
        ),
        (
            seq![modifier_key("Shift", Modifier::Shift), text_key("z", "z"), text_key("x", "x"), text_key("c", "c"), text_key("v", "v")],
            seq![text_key("b", "b"), text_key("n", "n"), text_key("m", "m"), input_key_key("⌫", "BackSpace", 2)],
        ),
        (
            seq![switch_page_key("?123", LayoutPage::Symbols), switch_page_key("Fn", LayoutPage::Functions), modifier_key("Ctrl", Modifier::Ctrl), modifier_key("Super", Modifier::Super), modifier_key("Alt", Modifier::Alt), text_value_key("space", " ", "space", 0, 2)],
            seq![text_value_key("space", " ", "space", 0, 2), modifier_key("Shift", Modifier::Shift), modifier_key("Alt", Modifier::Alt), modifier_key("Super", Modifier::Super), modifier_key("Ctrl", Modifier::Ctrl), hide_key()],
        ),
    ]
}

/// The rows of the russian page.
pub open spec fn russian_rows() -> Seq<(Seq<Key>, Seq<Key>)> {
    seq![
        (
            seq![russian_text_key("й", "q"), russian_text_key("ц", "w"), russian_text_key("у", "e"), russian_text_key("к", "r"), russian_text_key("е", "t"), russian_text_key("н", "y")],
            seq![russian_text_key("г", "u"), russian_text_key("ш", "i"), russian_text_key("щ", "o"), russian_text_key("з", "p"), russian_text_key("х", "bracketleft"), russian_text_key("ъ", "bracketright")],
        ),
        (
            seq![russian_text_key("ф", "a"), russian_text_key("ы", "s"), russian_text_key("в", "d"), russian_text_key("а", "f"), russian_text_key("п", "g"), russian_text_key("р", "h")],
            seq![russian_text_key("о", "j"), russian_text_key("л", "k"), russian_text_key("д", "l"), russian_text_key("ж", "semicolon"), russian_text_key("э", "apostrophe"), input_key_key("⏎", "Return", 1)],
        ),
        (
            seq![modifier_key("Shift", Modifier::Shift), russian_text_key("я", "z"), russian_text_key("ч", "x"), russian_text_key("с", "c"), russian_text_key("м", "v"), russian_text_key("и", "b")],
            seq![russian_text_key("т", "n"), russian_text_key("ь", "m"), russian_text_key("б", "comma"), russian_text_key("ю", "period"), input_key_key("⌫", "BackSpace", 2)],
        ),
        (
            seq![switch_page_key("?123", LayoutPage::Symbols), switch_page_key("Fn", LayoutPage::Functions), modifier_key("Ctrl", Modifier::Ctrl), modifier_key("Super", Modifier::Super), modifier_key("Alt", Modifier::Alt), text_value_key("пробел", " ", "space", 1, 2)],
            seq![text_value_key("пробел", " ", "space", 1, 2), modifier_key("Shift", Modifier::Shift), modifier_key("Alt", Modifier::Alt), modifier_key("Super", Modifier::Super), modifier_key("Ctrl", Modifier::Ctrl), hide_key()],
        ),
    ]
}

/// The rows of the symbol page.
pub open spec fn symbol_rows() -> Seq<(Seq<Key>, Seq<Key>)> {
    seq![
        (
            seq![symbol_key("1", "1", false), symbol_key("2", "2", false), symbol_key("3", "3", false), symbol_key("4", "4", false), symbol_key("5", "5", false)],
            seq![symbol_key("6", "6", false), symbol_key("7", "7", false), symbol_key("8", "8", false), symbol_key("9", "9", false), symbol_key("0", "0", false)],
        ),
        (
            seq![symbol_key("@", "2", true), symbol_key("#", "3", true), symbol_key("$", "4", true), symbol_key("%", "5", true), symbol_key("&", "7", true)],
            seq![symbol_key("-", "minus", false), symbol_key("+", "equal", true), symbol_key("(", "9", true), symbol_key(")", "0", true), input_key_key("⌫", "BackSpace", 1)],
        ),
        (
            seq![symbol_key(",", "comma", false), symbol_key(".", "period", false), symbol_key(":", "semicolon", true), symbol_key(";", "semicolon", false), symbol_key("/", "slash", false)],
            seq![symbol_key("!", "1", true), symbol_key("?", "slash", true), symbol_key("'", "apostrophe", false), symbol_key("\"", "apostrophe", true), input_key_key("⏎", "Return", 1)],
        ),
        (
            seq![switch_page_key("ABC", LayoutPage::Letters), switch_page_key("Fn", LayoutPage::Functions), modifier_key("Ctrl", Modifier::Ctrl), modifier_key("Super", Modifier::Super), modifier_key("Alt", Modifier::Alt), text_value_key("space", " ", "space", 0, 2)],
            seq![text_value_key("space", " ", "space", 0, 2), modifier_key("Shift", Modifier::Shift), modifier_key("Alt", Modifier::Alt), modifier_key("Super", Modifier::Super), modifier_key("Ctrl", Modifier::Ctrl), hide_key()],
        ),
    ]
}

/// The rows of the function page.
pub open spec fn function_rows() -> Seq<(Seq<Key>, Seq<Key>)> {
    seq![
        (
            seq![input_key_key("Esc", "Escape", 1), input_key_key("Tab", "Tab", 1), input_key_key("F1", "F1", 1), input_key_key("F2", "F2", 1), input_key_key("F3", "F3", 1)],
            seq![input_key_key("F4", "F4", 1), input_key_key("F5", "F5", 1), input_key_key("F6", "F6", 1), input_key_key("F7", "F7", 1), input_key_key("F8", "F8", 1)],
        ),
        (
            seq![input_key_key("F9", "F9", 1), input_key_key("F10", "F10", 1), input_key_key("F11", "F11", 1), input_key_key("F12", "F12", 1), input_key_key("Ins", "Insert", 1)],
            seq![input_key_key("Home", "Home", 1), input_key_key("↑", "Up", 1), input_key_key("End", "End", 1), input_key_key("PgUp", "PageUp", 1), input_key_key("Del", "Delete", 1)],
        ),
        (
            seq![symbol_key("`", "grave", false), symbol_key("\\", "backslash", false), symbol_key("[", "bracketleft", false), symbol_key("]", "bracketright", false), symbol_key("=", "equal", false)],
            seq![input_key_key("←", "Left", 1), input_key_key("↓", "Down", 1), input_key_key("→", "Right", 1), input_key_key("PgDn", "PageDown", 1), input_key_key("⏎", "Return", 1)],
        ),
        (
            seq![switch_page_key("ABC", LayoutPage::Letters), switch_page_key("?123", LayoutPage::Symbols), modifier_key("Ctrl", Modifier::Ctrl), modifier_key("Super", Modifier::Super), modifier_key("Alt", Modifier::Alt), text_value_key("space", " ", "space", 0, 2)],
            seq![text_value_key("space", " ", "space", 0, 2), modifier_key("Shift", Modifier::Shift), modifier_key("Alt", Modifier::Alt), modifier_key("Super", Modifier::Super), modifier_key("Ctrl", Modifier::Ctrl), hide_key()],
        ),
    ]
}

fn build_english_rows() -> (r: Vec<SplitRow>)
    ensures
        r@.map_values(|row: SplitRow| row@) == english_rows(),
{
    let r = vec![
        split_row(
            vec![text("q", "q"), text("w", "w"), text("e", "e"), text("r", "r"), text("t", "t")],
            vec![text("y", "y"), text("u", "u"), text("i", "i"), text("o", "o"), text("p", "p")],
        ),
        split_row(
            vec![text("a", "a"), text("s", "s"), text("d", "d"), text("f", "f"), text("g", "g")],
            vec![text("h", "h"), text("j", "j"), text("k", "k"), text("l", "l"), input_key("⏎", "Return", 1)],
        ),
        split_row(
            vec![modifier("Shift", Modifier::Shift), text("z", "z"), text("x", "x"), text("c", "c"), text("v", "v")],
            vec![text("b", "b"), text("n", "n"), text("m", "m"), input_key("⌫", "BackSpace", 2)],
        ),
        split_row(
            vec![switch_page("?123", LayoutPage::Symbols), switch_page("Fn", LayoutPage::Functions), modifier("Ctrl", Modifier::Ctrl), modifier("Super", Modifier::Super), modifier("Alt", Modifier::Alt), text_value("space", " ", "space", 0, 2)],
            vec![text_value("space", " ", "space", 0, 2), modifier("Shift", Modifier::Shift), modifier("Alt", Modifier::Alt), modifier("Super", Modifier::Super), modifier("Ctrl", Modifier::Ctrl), hide_control()],
        ),
    ];
    assert(r@.map_values(|row: SplitRow| row@) =~= english_rows());
    r
}

fn build_russian_rows() -> (r: Vec<SplitRow>)
    ensures
        r@.map_values(|row: SplitRow| row@) == russian_rows(),
{
    let r = vec![
        split_row(
            vec![russian_text("й", "q"), russian_text("ц", "w"), russian_text("у", "e"), russian_text("к", "r"), russian_text("е", "t"), russian_text("н", "y")],
            vec![russian_text("г", "u"), russian_text("ш", "i"), russian_text("щ", "o"), russian_text("з", "p"), russian_text("х", "bracketleft"), russian_text("ъ", "bracketright")],
        ),
        split_row(
            vec![russian_text("ф", "a"), russian_text("ы", "s"), russian_text("в", "d"), russian_text("а", "f"), russian_text("п", "g"), russian_text("р", "h")],
            vec![russian_text("о", "j"), russian_text("л", "k"), russian_text("д", "l"), russian_text("ж", "semicolon"), russian_text("э", "apostrophe"), input_key("⏎", "Return", 1)],
        ),
        split_row(
            vec![modifier("Shift", Modifier::Shift), russian_text("я", "z"), russian_text("ч", "x"), russian_text("с", "c"), russian_text("м", "v"), russian_text("и", "b")],
            vec![russian_text("т", "n"), russian_text("ь", "m"), russian_text("б", "comma"), russian_text("ю", "period"), input_key("⌫", "BackSpace", 2)],
        ),
        split_row(
            vec![switch_page("?123", LayoutPage::Symbols), switch_page("Fn", LayoutPage::Functions), modifier("Ctrl", Modifier::Ctrl), modifier("Super", Modifier::Super), modifier("Alt", Modifier::Alt), text_value("пробел", " ", "space", 1, 2)],
            vec![text_value("пробел", " ", "space", 1, 2), modifier("Shift", Modifier::Shift), modifier("Alt", Modifier::Alt), modifier("Super", Modifier::Super), modifier("Ctrl", Modifier::Ctrl), hide_control()],
        ),
    ];
    assert(r@.map_values(|row: SplitRow| row@) =~= russian_rows());
    r
}

fn build_symbol_rows() -> (r: Vec<SplitRow>)
    ensures
        r@.map_values(|row: SplitRow| row@) == symbol_rows(),
{
    let r = vec![
        split_row(
            vec![symbol("1", "1", false), symbol("2", "2", false), symbol("3", "3", false), symbol("4", "4", false), symbol("5", "5", false)],
            vec![symbol("6", "6", false), symbol("7", "7", false), symbol("8", "8", false), symbol("9", "9", false), symbol("0", "0", false)],
        ),
        split_row(
            vec![symbol("@", "2", true), symbol("#", "3", true), symbol("$", "4", true), symbol("%", "5", true), symbol("&", "7", true)],
            vec![symbol("-", "minus", false), symbol("+", "equal", true), symbol("(", "9", true), symbol(")", "0", true), input_key("⌫", "BackSpace", 1)],
        ),
        split_row(
            vec![symbol(",", "comma", false), symbol(".", "period", false), symbol(":", "semicolon", true), symbol(";", "semicolon", false), symbol("/", "slash", false)],
            vec![symbol("!", "1", true), symbol("?", "slash", true), symbol("'", "apostrophe", false), symbol("\"", "apostrophe", true), input_key("⏎", "Return", 1)],
        ),
        split_row(
            vec![switch_page("ABC", LayoutPage::Letters), switch_page("Fn", LayoutPage::Functions), modifier("Ctrl", Modifier::Ctrl), modifier("Super", Modifier::Super), modifier("Alt", Modifier::Alt), text_value("space", " ", "space", 0, 2)],
            vec![text_value("space", " ", "space", 0, 2), modifier("Shift", Modifier::Shift), modifier("Alt", Modifier::Alt), modifier("Super", Modifier::Super), modifier("Ctrl", Modifier::Ctrl), hide_control()],
        ),
    ];
    assert(r@.map_values(|row: SplitRow| row@) =~= symbol_rows());
    r
}

fn build_function_rows() -> (r: Vec<SplitRow>)
    ensures
        r@.map_values(|row: SplitRow| row@) == function_rows(),
{
    let r = vec![
        split_row(
            vec![input_key("Esc", "Escape", 1), input_key("Tab", "Tab", 1), input_key("F1", "F1", 1), input_key("F2", "F2", 1), input_key("F3", "F3", 1)],
            vec![input_key("F4", "F4", 1), input_key("F5", "F5", 1), input_key("F6", "F6", 1), input_key("F7", "F7", 1), input_key("F8", "F8", 1)],
        ),
        split_row(
            vec![input_key("F9", "F9", 1), input_key("F10", "F10", 1), input_key("F11", "F11", 1), input_key("F12", "F12", 1), input_key("Ins", "Insert", 1)],
            vec![input_key("Home", "Home", 1), input_key("↑", "Up", 1), input_key("End", "End", 1), input_key("PgUp", "PageUp", 1), input_key("Del", "Delete", 1)],
        ),
        split_row(
            vec![symbol("`", "grave", false), symbol("\\", "backslash", false), symbol("[", "bracketleft", false), symbol("]", "bracketright", false), symbol("=", "equal", false)],
            vec![input_key("←", "Left", 1), input_key("↓", "Down", 1), input_key("→", "Right", 1), input_key("PgDn", "PageDown", 1), input_key("⏎", "Return", 1)],
        ),
        split_row(
            vec![switch_page("ABC", LayoutPage::Letters), switch_page("?123", LayoutPage::Symbols), modifier("Ctrl", Modifier::Ctrl), modifier("Super", Modifier::Super), modifier("Alt", Modifier::Alt), text_value("space", " ", "space", 0, 2)],
            vec![text_value("space", " ", "space", 0, 2), modifier("Shift", Modifier::Shift), modifier("Alt", Modifier::Alt), modifier("Super", Modifier::Super), modifier("Ctrl", Modifier::Ctrl), hide_control()],
        ),
    ];
    assert(r@.map_values(|row: SplitRow| row@) =~= function_rows());
    r
}

/// Total width of the first `n` keys.
pub open spec fn width_of(keys: Seq<Key>, n: int) -> int
    decreases n,
{
    if n <= 0 {
        0
    } else {
        width_of(keys, n - 1) + keys[n - 1].width
    }
}

/// Total width of a half row.
pub open spec fn keys_width(keys: Seq<Key>) -> int {
    width_of(keys, keys.len() as int)
}

/// One half of a row.
pub open spec fn half(row: (Seq<Key>, Seq<Key>), left: bool) -> Seq<Key> {
    if left {
        row.0
    } else {
        row.1
    }
}

/// Widest half among the first `n` rows (0 for no rows).
pub open spec fn widest_half_upto(rows: Seq<(Seq<Key>, Seq<Key>)>, left: bool, n: int) -> int
    decreases n,
{
    if n <= 0 {
        0
    } else {
        let w = keys_width(half(rows[n - 1], left));
        let rest = widest_half_upto(rows, left, n - 1);
        if w >= rest {
            w
        } else {
            rest
        }
    }
}

/// Width of the widest left (or right) half of a page.
pub open spec fn half_width(rows: Seq<(Seq<Key>, Seq<Key>)>, left: bool) -> int {
    widest_half_upto(rows, left, rows.len() as int)
}

/// Both halves of every page are equally wide, so the split panels line up.
pub proof fn lemma_halves_have_equal_width(language: Language, page: LayoutPage)
    ensures
        half_width(layout_rows(language, page), true) == half_width(
            layout_rows(language, page),
            false,
        ),
{
    reveal_with_fuel(width_of, 7);
    reveal_with_fuel(widest_half_upto, 5);
}

/// Whether some key of the page has the given action.
pub open spec fn page_has_action(rows: Seq<(Seq<Key>, Seq<Key>)>, a: Action) -> bool {
    exists|i: int, j: int|
        0 <= i < rows.len() && ((0 <= j < rows[i].0.len() && #[trigger] rows[i].0[j].action == a)
            || (0 <= j < rows[i].1.len() && rows[i].1[j].action == a))
}

/// The letter pages of both languages hold all four modifiers, the hide key
/// and the switch to the symbol page.
pub proof fn lemma_letter_pages_have_controls(language: Language)
    ensures
        page_has_action(layout_rows(language, LayoutPage::Letters), Action::Modifier(Modifier::Ctrl)),
        page_has_action(
            layout_rows(language, LayoutPage::Letters),
            Action::Modifier(Modifier::Super),
        ),
        page_has_action(layout_rows(language, LayoutPage::Letters), Action::Modifier(Modifier::Alt)),
        page_has_action(
            layout_rows(language, LayoutPage::Letters),
            Action::Modifier(Modifier::Shift),
        ),
        page_has_action(layout_rows(language, LayoutPage::Letters), Action::Hide),
        page_has_action(
            layout_rows(language, LayoutPage::Letters),
            Action::SwitchPage(LayoutPage::Symbols),
        ),
{
    let rows = layout_rows(language, LayoutPage::Letters);
    assert(rows[3].0[2].action == Action::Modifier(Modifier::Ctrl));
    assert(rows[3].0[3].action == Action::Modifier(Modifier::Super));
    assert(rows[3].0[4].action == Action::Modifier(Modifier::Alt));
    assert(rows[2].0[0].action == Action::Modifier(Modifier::Shift));
    assert(rows[3].1[5].action == Action::Hide);
    assert(rows[3].0[0].action == Action::SwitchPage(LayoutPage::Symbols));
}

/// The first `n` keys all satisfy `p`.
pub open spec fn keys_all(keys: Seq<Key>, n: int, p: spec_fn(Key) -> bool) -> bool
    decreases n,
{
    n <= 0 || (keys_all(keys, n - 1, p) && p(keys[n - 1]))
}

/// Every key of the first `n` rows satisfies `p`.
pub open spec fn rows_all(rows: Seq<(Seq<Key>, Seq<Key>)>, n: int, p: spec_fn(Key) -> bool) -> bool
    decreases n,
{
    n <= 0 || (rows_all(rows, n - 1, p) && keys_all(rows[n - 1].0, rows[n - 1].0.len() as int, p)
        && keys_all(rows[n - 1].1, rows[n - 1].1.len() as int, p))
}

proof fn lemma_keys_all(keys: Seq<Key>, n: int, p: spec_fn(Key) -> bool)
    requires
        keys_all(keys, n, p),
        n <= keys.len(),
    ensures
        forall|j: int| 0 <= j < n ==> p(#[trigger] keys[j]),
    decreases n,
{
    if n > 0 {
        lemma_keys_all(keys, n - 1, p);
    }
}

proof fn lemma_rows_all(rows: Seq<(Seq<Key>, Seq<Key>)>, n: int, p: spec_fn(Key) -> bool)
    requires
        rows_all(rows, n, p),
        n <= rows.len(),
    ensures
        forall|i: int, j: int|
            0 <= i < n && 0 <= j < rows[i].0.len() ==> p(#[trigger] rows[i].0[j]),
        forall|i: int, j: int|
            0 <= i < n && 0 <= j < rows[i].1.len() ==> p(#[trigger] rows[i].1[j]),
    decreases n,
{
    if n > 0 {
        lemma_rows_all(rows, n - 1, p);
        lemma_keys_all(rows[n - 1].0, rows[n - 1].0.len() as int, p);
        lemma_keys_all(rows[n - 1].1, rows[n - 1].1.len() as int, p);
    }
}

/// The key types a symbol.
pub open spec fn is_symbol_key(k: Key) -> bool {
    k.action matches Action::Input(KeyAction::Symbol { .. })
}

/// Punctuation lives on the symbol page: no letter page holds a symbol key.
pub proof fn lemma_letter_pages_have_no_symbols(language: Language)
    ensures
        forall|i: int, j: int|
            0 <= i < layout_rows(language, LayoutPage::Letters).len() && 0 <= j < layout_rows(
                language,
                LayoutPage::Letters,
            )[i].0.len() ==> !is_symbol_key(
                #[trigger] layout_rows(language, LayoutPage::Letters)[i].0[j],
            ),
        forall|i: int, j: int|
            0 <= i < layout_rows(language, LayoutPage::Letters).len() && 0 <= j < layout_rows(
                language,
                LayoutPage::Letters,
            )[i].1.len() ==> !is_symbol_key(
                #[trigger] layout_rows(language, LayoutPage::Letters)[i].1[j],
            ),
{
    let rows = layout_rows(language, LayoutPage::Letters);
    let p = |k: Key| !is_symbol_key(k);
    reveal_with_fuel(keys_all, 7);
    reveal_with_fuel(rows_all, 5);
    assert(rows_all(rows, rows.len() as int, p));
    lemma_rows_all(rows, rows.len() as int, p);
}

/// Every physical key name that the layouts use has an evdev code.
#[verifier::spinoff_prover]
#[verifier::rlimit(50)]
proof fn lemma_layout_key_names_have_codes()
    ensures
        evdev_code("q"@) is Some,
        evdev_code("w"@) is Some,
        evdev_code("e"@) is Some,
        evdev_code("r"@) is Some,
        evdev_code("t"@) is Some,
        evdev_code("y"@) is Some,
        evdev_code("u"@) is Some,
        evdev_code("i"@) is Some,
        evdev_code("o"@) is Some,
        evdev_code("p"@) is Some,
        evdev_code("a"@) is Some,
        evdev_code("s"@) is Some,
        evdev_code("d"@) is Some,
        evdev_code("f"@) is Some,
        evdev_code("g"@) is Some,
        evdev_code("h"@) is Some,
        evdev_code("j"@) is Some,
        evdev_code("k"@) is Some,
        evdev_code("l"@) is Some,
        evdev_code("Return"@) is Some,
        evdev_code("z"@) is Some,
        evdev_code("x"@) is Some,
        evdev_code("c"@) is Some,
        evdev_code("v"@) is Some,
        evdev_code("b"@) is Some,
        evdev_code("n"@) is Some,
        evdev_code("m"@) is Some,
        evdev_code("BackSpace"@) is Some,
        evdev_code("space"@) is Some,
        evdev_code("bracketleft"@) is Some,
        evdev_code("bracketright"@) is Some,
        evdev_code("semicolon"@) is Some,
        evdev_code("apostrophe"@) is Some,
        evdev_code("comma"@) is Some,
        evdev_code("period"@) is Some,
        evdev_code("1"@) is Some,
        evdev_code("2"@) is Some,
        evdev_code("3"@) is Some,
        evdev_code("4"@) is Some,
        evdev_code("5"@) is Some,
        evdev_code("6"@) is Some,
        evdev_code("7"@) is Some,
        evdev_code("8"@) is Some,
        evdev_code("9"@) is Some,
        evdev_code("0"@) is Some,
        evdev_code("minus"@) is Some,
        evdev_code("equal"@) is Some,
        evdev_code("slash"@) is Some,
        evdev_code("Escape"@) is Some,
        evdev_code("Tab"@) is Some,
        evdev_code("F1"@) is Some,
        evdev_code("F2"@) is Some,
        evdev_code("F3"@) is Some,
        evdev_code("F4"@) is Some,
        evdev_code("F5"@) is Some,
        evdev_code("F6"@) is Some,
        evdev_code("F7"@) is Some,
        evdev_code("F8"@) is Some,
        evdev_code("F9"@) is Some,
        evdev_code("F10"@) is Some,
        evdev_code("F11"@) is Some,
        evdev_code("F12"@) is Some,
        evdev_code("Insert"@) is Some,
        evdev_code("Home"@) is Some,
        evdev_code("Up"@) is Some,
        evdev_code("End"@) is Some,
        evdev_code("PageUp"@) is Some,
        evdev_code("Delete"@) is Some,
        evdev_code("grave"@) is Some,
        evdev_code("backslash"@) is Some,
        evdev_code("Left"@) is Some,
        evdev_code("Down"@) is Some,
        evdev_code("Right"@) is Some,
        evdev_code("PageDown"@) is Some,
{
    reveal_strlit("q");
    assert(ascii_lower("q"@) =~= "q"@);
    reveal_strlit("w");
    assert(ascii_lower("w"@) =~= "w"@);
    reveal_strlit("e");
    assert(ascii_lower("e"@) =~= "e"@);
    reveal_strlit("r");
    assert(ascii_lower("r"@) =~= "r"@);
    reveal_strlit("t");
    assert(ascii_lower("t"@) =~= "t"@);
    reveal_strlit("y");
    assert(ascii_lower("y"@) =~= "y"@);
    reveal_strlit("u");
    assert(ascii_lower("u"@) =~= "u"@);
    reveal_strlit("i");
    assert(ascii_lower("i"@) =~= "i"@);
    reveal_strlit("o");
    assert(ascii_lower("o"@) =~= "o"@);
    reveal_strlit("p");
    assert(ascii_lower("p"@) =~= "p"@);
    reveal_strlit("a");
    assert(ascii_lower("a"@) =~= "a"@);
    reveal_strlit("s");
    assert(ascii_lower("s"@) =~= "s"@);
    reveal_strlit("d");
    assert(ascii_lower("d"@) =~= "d"@);
    reveal_strlit("f");
    assert(ascii_lower("f"@) =~= "f"@);
    reveal_strlit("g");
    assert(ascii_lower("g"@) =~= "g"@);
    reveal_strlit("h");
    assert(ascii_lower("h"@) =~= "h"@);
    reveal_strlit("j");
    assert(ascii_lower("j"@) =~= "j"@);
    reveal_strlit("k");
    assert(ascii_lower("k"@) =~= "k"@);
    reveal_strlit("l");
    assert(ascii_lower("l"@) =~= "l"@);
    reveal_strlit("Return");
    reveal_strlit("return");
    assert(ascii_lower("Return"@) =~= "return"@);
    reveal_strlit("z");
    assert(ascii_lower("z"@) =~= "z"@);
    reveal_strlit("x");
    assert(ascii_lower("x"@) =~= "x"@);
    reveal_strlit("c");
    assert(ascii_lower("c"@) =~= "c"@);
    reveal_strlit("v");
    assert(ascii_lower("v"@) =~= "v"@);
    reveal_strlit("b");
    assert(ascii_lower("b"@) =~= "b"@);
    reveal_strlit("n");
    assert(ascii_lower("n"@) =~= "n"@);
    reveal_strlit("m");
    assert(ascii_lower("m"@) =~= "m"@);
    reveal_strlit("BackSpace");
    reveal_strlit("backspace");
    assert(ascii_lower("BackSpace"@) =~= "backspace"@);
    reveal_strlit("space");
    assert(ascii_lower("space"@) =~= "space"@);
    reveal_strlit("bracketleft");
    assert(ascii_lower("bracketleft"@) =~= "bracketleft"@);
    reveal_strlit("bracketright");
    assert(ascii_lower("bracketright"@) =~= "bracketright"@);
    reveal_strlit("semicolon");
    assert(ascii_lower("semicolon"@) =~= "semicolon"@);
    reveal_strlit("apostrophe");
    assert(ascii_lower("apostrophe"@) =~= "apostrophe"@);
    reveal_strlit("comma");
    assert(ascii_lower("comma"@) =~= "comma"@);
    reveal_strlit("period");
    assert(ascii_lower("period"@) =~= "period"@);
    reveal_strlit("1");
    assert(ascii_lower("1"@) =~= "1"@);
    reveal_strlit("2");
    assert(ascii_lower("2"@) =~= "2"@);
    reveal_strlit("3");
    assert(ascii_lower("3"@) =~= "3"@);
    reveal_strlit("4");
    assert(ascii_lower("4"@) =~= "4"@);
    reveal_strlit("5");
    assert(ascii_lower("5"@) =~= "5"@);
    reveal_strlit("6");
    assert(ascii_lower("6"@) =~= "6"@);
    reveal_strlit("7");
    assert(ascii_lower("7"@) =~= "7"@);
    reveal_strlit("8");
    assert(ascii_lower("8"@) =~= "8"@);
    reveal_strlit("9");
    assert(ascii_lower("9"@) =~= "9"@);
    reveal_strlit("0");
    assert(ascii_lower("0"@) =~= "0"@);
    reveal_strlit("minus");
    assert(ascii_lower("minus"@) =~= "minus"@);
    reveal_strlit("equal");
    assert(ascii_lower("equal"@) =~= "equal"@);
    reveal_strlit("slash");
    assert(ascii_lower("slash"@) =~= "slash"@);
    reveal_strlit("Escape");
    reveal_strlit("escape");
    assert(ascii_lower("Escape"@) =~= "escape"@);
    reveal_strlit("Tab");
    reveal_strlit("tab");
    assert(ascii_lower("Tab"@) =~= "tab"@);
    reveal_strlit("F1");
    reveal_strlit("f1");
    assert(ascii_lower("F1"@) =~= "f1"@);
    reveal_strlit("F2");
    reveal_strlit("f2");
    assert(ascii_lower("F2"@) =~= "f2"@);
    reveal_strlit("F3");
    reveal_strlit("f3");
    assert(ascii_lower("F3"@) =~= "f3"@);
    reveal_strlit("F4");
    reveal_strlit("f4");
    assert(ascii_lower("F4"@) =~= "f4"@);
    reveal_strlit("F5");
    reveal_strlit("f5");
    assert(ascii_lower("F5"@) =~= "f5"@);
    reveal_strlit("F6");
    reveal_strlit("f6");
    assert(ascii_lower("F6"@) =~= "f6"@);
    reveal_strlit("F7");
    reveal_strlit("f7");
    assert(ascii_lower("F7"@) =~= "f7"@);
    reveal_strlit("F8");
    reveal_strlit("f8");
    assert(ascii_lower("F8"@) =~= "f8"@);
    reveal_strlit("F9");
    reveal_strlit("f9");
    assert(ascii_lower("F9"@) =~= "f9"@);
    reveal_strlit("F10");
    reveal_strlit("f10");
    assert(ascii_lower("F10"@) =~= "f10"@);
    reveal_strlit("F11");
    reveal_strlit("f11");
    assert(ascii_lower("F11"@) =~= "f11"@);
    reveal_strlit("F12");
    reveal_strlit("f12");
    assert(ascii_lower("F12"@) =~= "f12"@);
    reveal_strlit("Insert");
    reveal_strlit("insert");
    assert(ascii_lower("Insert"@) =~= "insert"@);
    reveal_strlit("Home");
    reveal_strlit("home");
    assert(ascii_lower("Home"@) =~= "home"@);
    reveal_strlit("Up");
    reveal_strlit("up");
    assert(ascii_lower("Up"@) =~= "up"@);
    reveal_strlit("End");
    reveal_strlit("end");
    assert(ascii_lower("End"@) =~= "end"@);
    reveal_strlit("PageUp");
    reveal_strlit("pageup");
    assert(ascii_lower("PageUp"@) =~= "pageup"@);
    reveal_strlit("Delete");
    reveal_strlit("delete");
    assert(ascii_lower("Delete"@) =~= "delete"@);
    reveal_strlit("grave");
    assert(ascii_lower("grave"@) =~= "grave"@);
    reveal_strlit("backslash");
    assert(ascii_lower("backslash"@) =~= "backslash"@);
    reveal_strlit("Left");
    reveal_strlit("left");
    assert(ascii_lower("Left"@) =~= "left"@);
    reveal_strlit("Down");
    reveal_strlit("down");
    assert(ascii_lower("Down"@) =~= "down"@);
    reveal_strlit("Right");
    reveal_strlit("right");
    assert(ascii_lower("Right"@) =~= "right"@);
    reveal_strlit("PageDown");
    reveal_strlit("pagedown");
    assert(ascii_lower("PageDown"@) =~= "pagedown"@);
}

/// The key can be typed: an input key names a physical key with an evdev code.
pub open spec fn is_typeable(k: Key) -> bool {
    k.action matches Action::Input(a) ==> evdev_code(physical_key_of(a)@) is Some
}

/// Every key on every page can be typed: no visible key is rejected by the
/// virtual keyboard.
pub proof fn lemma_visible_keys_are_typeable(language: Language, page: LayoutPage)
    ensures
        forall|i: int, j: int|
            0 <= i < layout_rows(language, page).len() && 0 <= j < layout_rows(
                language,
                page,
            )[i].0.len() ==> is_typeable(#[trigger] layout_rows(language, page)[i].0[j]),
        forall|i: int, j: int|
            0 <= i < layout_rows(language, page).len() && 0 <= j < layout_rows(
                language,
                page,
            )[i].1.len() ==> is_typeable(#[trigger] layout_rows(language, page)[i].1[j]),
{
    lemma_layout_key_names_have_codes();
    let rows = layout_rows(language, page);
    let p = |k: Key| is_typeable(k);
    reveal_with_fuel(keys_all, 7);
    reveal_with_fuel(rows_all, 5);
    assert(rows_all(rows, rows.len() as int, p));
    lemma_rows_all(rows, rows.len() as int, p);
}

/// Whatever modifiers are active, every visible input key yields a stroke that
/// carries each of Ctrl, Super, Alt and Shift that is active (Caps Lock off).
pub proof fn lemma_visible_keys_accept_every_modifier(
    language: Language,
    page: LayoutPage,
    i: int,
    j: int,
    left: bool,
    m: Modifiers,
)
    requires
        0 <= i < layout_rows(language, page).len(),
        0 <= j < half(layout_rows(language, page)[i], left).len(),
        half(layout_rows(language, page)[i], left)[j].action is Input,
        !m.caps_lock,
    ensures
        ({
            let a = half(layout_rows(language, page)[i], left)[j].action->Input_0;
            key_stroke(a, m) matches Ok(s) && ((s.depressed_modifiers & MOD_CTRL != 0) == m.ctrl)
                && ((s.depressed_modifiers & MOD_LOGO != 0) == m.super_key) && ((
            s.depressed_modifiers & MOD_ALT != 0) == m.alt) && (m.shift ==> s.depressed_modifiers
                & MOD_SHIFT != 0)
        }),
{
    lemma_visible_keys_are_typeable(language, page);
    let a = half(layout_rows(language, page)[i], left)[j].action->Input_0;
    lemma_modifier_mask_bits(m.ctrl, m.super_key, m.alt, effective_shift(a, m));
}
} // verus!
