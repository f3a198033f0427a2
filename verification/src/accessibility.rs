//! Decisions of the accessibility (AT-SPI) focus monitor. Only focus metadata
//! is looked at: the role and state bits of the focused widget, the desktop
//! category of its application, and which widget holds focus. No text is read.
use vstd::prelude::*;

use crate::input_method::TextInputVisibility;
use crate::text::{
    chars_of, has_suffix, same_chars, same_str, slice_chars, split, split_chars, string_of,
};

verus! {

/// AT-SPI state bit: the widget accepts edits.
pub const STATE_EDITABLE: u32 = 7;

/// AT-SPI state bit: the widget is gone.
pub const STATE_DEFUNCT: u32 = 6;

/// AT-SPI state bit: the widget's content cannot be changed.
pub const STATE_READ_ONLY: u32 = 43;

/// AT-SPI role of a terminal widget.
pub const ROLE_TERMINAL: u32 = 60;

/// Whether the state bit `flag` is set in the AT-SPI state words: bit
/// `flag % 32` of word `flag / 32`; a missing word has no bit set.
pub open spec fn has_state(state: Seq<u32>, flag: u32) -> bool {
    let word = (flag / 32) as int;
    word < state.len() && state[word] & (1u32 << (flag % 32)) != 0
}

/// Roles under which GPU terminals expose their canvas (filler, frame,
/// panel, drawing area): inputs only inside a terminal application.
pub open spec fn is_canvas_role(role: u32) -> bool {
    role == 6 || role == 18 || role == 39 || role == 67
}

/// Whether a focused widget takes typed text: a live terminal, a canvas of a
/// terminal application, or an editable widget that is not read-only.
pub open spec fn takes_input(role: u32, state: Seq<u32>, terminal_app: bool) -> bool {
    &&& !has_state(state, STATE_DEFUNCT)
    &&& {
        ||| role == ROLE_TERMINAL
        ||| terminal_app && is_canvas_role(role)
        ||| !has_state(state, STATE_READ_ONLY) && has_state(state, STATE_EDITABLE)
    }
}

fn has_state_bit(state: &[u32], flag: u32) -> (r: bool)
    ensures
        r == has_state(state@, flag),
{
    let word = (flag / 32) as usize;
    word < state.len() && state[word] & (1u32 << (flag % 32)) != 0
}

/// Whether the focused widget, by its role and state words, takes typed text.
pub fn accepts_input(role: u32, state: &[u32], terminal_app: bool) -> (r: bool)
    ensures
        r == takes_input(role, state@, terminal_app),
{
    if has_state_bit(state, STATE_DEFUNCT) {
        return false;
    }
    role == ROLE_TERMINAL || (terminal_app && (role == 6 || role == 18 || role == 39 || role
        == 67)) || (!has_state_bit(state, STATE_READ_ONLY) && has_state_bit(state, STATE_EDITABLE))
}

/// The components of a Unix path that name something: the pieces between
/// `/` that are neither empty nor `.`.
pub open spec fn named_components(path: Seq<char>) -> Seq<Seq<char>> {
    split(path, '/').filter(|c: Seq<char>| c.len() > 0 && c != seq!['.'])
}

/// `Path::file_name` of a Unix path: its last component, if that component
/// is a name (not the root, not `.`, not `..`).
pub open spec fn file_name(path: Seq<char>) -> Option<Seq<char>> {
    let c = named_components(path);
    if c.len() == 0 || c.last() == seq!['.', '.'] {
        None
    } else {
        Some(c.last())
    }
}

/// `Path::file_name`: the final component of the path, `None` where there is
/// none or it is `..`. The name of a `&str` path is valid UTF-8, so it comes
/// back as a `String` without loss.
#[verifier::external_body]
fn path_file_name(path: &str) -> (r: Option<String>)
    ensures
        match r {
            Some(name) => file_name(path@) == Some(name@),
            None => file_name(path@) is None,
        },
{
    match std::path::Path::new(path).file_name() {
        Some(name) => Some(name.to_string_lossy().into_owned()),
        None => None,
    }
}

/// `str::trim_start_matches` with one character: drops every leading `c`.
pub open spec fn trim_start_char(s: Seq<char>, c: char) -> Seq<char>
    decreases s.len(),
{
    if s.len() > 0 && s[0] == c {
        trim_start_char(s.skip(1), c)
    } else {
        s
    }
}

/// `str::trim_end_matches` with a non-empty pattern: drops the pattern from
/// the end for as long as the text ends with it.
pub open spec fn trim_end_pattern(s: Seq<char>, p: Seq<char>) -> Seq<char>
    decreases s.len(),
{
    if p.len() > 0 && has_suffix(s, p) {
        trim_end_pattern(s.take(s.len() - p.len()), p)
    } else {
        s
    }
}

/// The name of an executable as desktop files give it: the file name without
/// leading dots and without `-wrapped` suffixes (which wrapper scripts add).
pub open spec fn executable_name_of(path: Seq<char>) -> Seq<char> {
    let name = match file_name(path) {
        Some(n) => n,
        None => Seq::empty(),
    };
    trim_end_pattern(trim_start_char(name, '.'), "-wrapped"@)
}

fn trim_start_dots(s: &[char]) -> (r: Vec<char>)
    ensures
        r@ == trim_start_char(s@, '.'),
{
    let mut i: usize = 0;
    assert(s@.skip(0) =~= s@);
    while i < s.len() && s[i] == '.'
        invariant
            i <= s@.len(),
            trim_start_char(s@.skip(i as int), '.') == trim_start_char(s@, '.'),
        decreases s@.len() - i,
    {
        assert(s@.skip(i as int).skip(1) =~= s@.skip(i + 1));
        i = i + 1;
    }
    slice_chars(s, i, s.len())
}

fn trim_end_suffix(s: &[char], p: &[char]) -> (r: Vec<char>)
    requires
        p@.len() > 0,
    ensures
        r@ == trim_end_pattern(s@, p@),
{
    let mut end: usize = s.len();
    assert(s@.take(end as int) =~= s@);
    loop
        invariant
            end <= s@.len(),
            p@.len() > 0,
            trim_end_pattern(s@.take(end as int), p@) == trim_end_pattern(s@, p@),
        decreases end,
    {
        let head = slice_chars(s, 0, end);
        assert(head@ =~= s@.take(end as int));
        if p.len() <= end && same_chars(&slice_chars(s, end - p.len(), end), p) {
            assert(s@.take(end as int).skip(end - p@.len()) =~= s@.subrange(
                end - p@.len(),
                end as int,
            ));
            assert(s@.take(end as int).take(end - p@.len()) =~= s@.take(end - p@.len()));
            end = end - p.len();
        } else {
            assert(!has_suffix(s@.take(end as int), p@)) by {
                if p@.len() <= end {
                    assert(s@.take(end as int).skip(end - p@.len()) =~= s@.subrange(
                        end - p@.len(),
                        end as int,
                    ));
                }
            }
            return head;
        }
    }
}

/// The executable name of a path, for matching a running program against
/// the `Exec` of desktop files.
pub fn executable_name(path: &str) -> (r: String)
    ensures
        r@ == executable_name_of(path@),
{
    let name = match path_file_name(path) {
        Some(n) => chars_of(n.as_str()),
        None => Vec::new(),
    };
    let suffix = chars_of("-wrapped");
    proof {
        reveal_strlit("-wrapped");
    }
    let trimmed = trim_end_suffix(&trim_start_dots(&name), &suffix);
    string_of(&trimmed)
}

/// Whether a `;`-separated category list names `TerminalEmulator`.
pub open spec fn lists_terminal(categories: Seq<char>) -> bool {
    split(categories, ';').contains("TerminalEmulator"@)
}

fn names_terminal(categories: &str) -> (r: bool)
    ensures
        r == lists_terminal(categories@),
{
    let pieces = split_chars(&chars_of(categories), ';');
    let wanted = chars_of("TerminalEmulator");
    let ghost views = pieces@.map_values(|v: Vec<char>| v@);
    let mut i: usize = 0;
    while i < pieces.len()
        invariant
            i <= pieces@.len(),
            views == pieces@.map_values(|v: Vec<char>| v@),
            views == split(categories@, ';'),
            wanted@ == "TerminalEmulator"@,
            forall|j: int| 0 <= j < i ==> views[j] != wanted@,
        decreases pieces@.len() - i,
    {
        if same_chars(&pieces[i], &wanted) {
            assert(views[i as int] == wanted@);
            return true;
        }
        i = i + 1;
    }
    assert(!views.contains(wanted@));
    false
}

/// Whether a desktop entry, by its categories and `Exec` program, describes
/// the running executable as a terminal emulator.
pub open spec fn is_terminal_entry_of(
    categories: Option<Seq<char>>,
    desktop_executable: Seq<char>,
    executable: Seq<char>,
) -> bool {
    &&& categories matches Some(c) && lists_terminal(c)
    &&& executable_name_of(desktop_executable) == executable_name_of(executable)
}

/// Whether a desktop entry (its `Categories` and `Exec` program) marks the
/// executable as a terminal emulator.
pub fn is_terminal_entry(categories: Option<&str>, desktop_executable: &str, executable: &str) -> (r:
    bool)
    ensures
        r == is_terminal_entry_of(
            match categories {
                Some(c) => Some(c@),
                None => None,
            },
            desktop_executable@,
            executable@,
        ),
{
    let listed = match categories {
        Some(c) => names_terminal(c),
        None => false,
    };
    listed && executable_name(desktop_executable) == executable_name(executable)
}

/// Which widget holds focus, by the bus name of its application and its
/// object path.
pub struct FocusState {
    pub target: Option<(String, String)>,
}

/// A focus target as text.
pub open spec fn target_view(t: Option<(String, String)>) -> Option<(Seq<char>, Seq<char>)> {
    match t {
        Some(p) => Some((p.0@, p.1@)),
        None => None,
    }
}

impl View for FocusState {
    type V = Option<(Seq<char>, Seq<char>)>;

    open spec fn view(&self) -> Option<(Seq<char>, Seq<char>)> {
        target_view(self.target)
    }
}

impl Default for FocusState {
    fn default() -> (r: Self)
        ensures
            r@ is None,
    {
        FocusState { target: None }
    }
}

/// A focus change: a newly focused widget becomes the target and shows or
/// hides the keyboard by whether it takes input; losing focus hides the
/// keyboard only if that widget is still the target (a late blur of an old
/// widget is ignored).
pub open spec fn updated_focus(
    old: Option<(Seq<char>, Seq<char>)>,
    target: (Seq<char>, Seq<char>),
    focused: bool,
    input: bool,
) -> (Option<(Seq<char>, Seq<char>)>, Option<TextInputVisibility>) {
    if focused {
        (
            Some(target),
            Some(
                if input {
                    TextInputVisibility::Show
                } else {
                    TextInputVisibility::Hide
                },
            ),
        )
    } else if old == Some(target) {
        (None, Some(TextInputVisibility::Hide))
    } else {
        (old, None)
    }
}

/// An application leaves (its window is deactivated or it quits): the
/// target is dropped, and reported, only if that application owned it.
pub open spec fn deactivated_focus(old: Option<(Seq<char>, Seq<char>)>, bus: Seq<char>) -> (
    Option<(Seq<char>, Seq<char>)>,
    bool,
) {
    match old {
        Some(t) => if t.0 == bus {
            (None, true)
        } else {
            (old, false)
        },
        None => (old, false),
    }
}

impl FocusState {
    /// Records a focus change of `target` and says what the keyboard does.
    pub fn update(&mut self, target: (String, String), focused: bool, input: bool) -> (r: Option<
        TextInputVisibility,
    >)
        ensures
            (final(self)@, r) == updated_focus(old(self)@, (target.0@, target.1@), focused, input),
    {
        if focused {
            self.target = Some(target);
            Some(
                if input {
                    TextInputVisibility::Show
                } else {
                    TextInputVisibility::Hide
                },
            )
        } else {
            let same = match &self.target {
                Some(t) => t.0 == target.0 && t.1 == target.1,
                None => false,
            };
            if same {
                self.target = None;
                Some(TextInputVisibility::Hide)
            } else {
                None
            }
        }
    }

    /// Drops the target if the application on `bus` owns it; true if it did.
    pub fn deactivate(&mut self, bus: &str) -> (r: bool)
        ensures
            (final(self)@, r) == deactivated_focus(old(self)@, bus@),
    {
        let owned = match &self.target {
            Some(t) => same_str(t.0.as_str(), bus),
            None => false,
        };
        if owned {
            self.target = None;
        }
        owned
    }
}

/// What the accessibility bus reports, reduced to what the decision needs.
pub enum FocusEvent {
    /// A widget gained or lost focus; `takes_input` says whether it takes
    /// typed text (only asked when it gained focus).
    FocusChanged { bus: String, path: String, focused: bool, takes_input: bool, from_self: bool },
    /// A window was activated; `terminal_app` says whether its application
    /// is a terminal emulator, whose canvas may never report focus itself.
    WindowActivated { bus: String, path: String, terminal_app: bool, from_self: bool },
    /// A window of the application on `bus` lost activation.
    WindowDeactivated { bus: String },
    /// The bus name `name` changed owner; an empty owner means it left.
    OwnerChanged { name: String, new_owner: String },
}

/// What an event does to the focus target, and what it tells the keyboard.
/// Events about this keyboard's own windows are ignored.
pub open spec fn focus_event_effect(old: Option<(Seq<char>, Seq<char>)>, e: FocusEvent) -> (
    Option<(Seq<char>, Seq<char>)>,
    Option<TextInputVisibility>,
) {
    match e {
        FocusEvent::FocusChanged { bus, path, focused, takes_input, from_self } => if from_self {
            (old, None)
        } else {
            updated_focus(old, (bus@, path@), focused, focused && takes_input)
        },
        FocusEvent::WindowActivated { bus, path, terminal_app, from_self } => if !from_self
            && terminal_app {
            (Some((bus@, path@)), Some(TextInputVisibility::Show))
        } else {
            (old, None)
        },
        FocusEvent::WindowDeactivated { bus } => {
            let (t, left) = deactivated_focus(old, bus@);
            (
                t,
                if left {
                    Some(TextInputVisibility::Hide)
                } else {
                    None
                },
            )
        },
        FocusEvent::OwnerChanged { name, new_owner } => if new_owner@.len() == 0 {
            let (t, left) = deactivated_focus(old, name@);
            (
                t,
                if left {
                    Some(TextInputVisibility::Hide)
                } else {
                    None
                },
            )
        } else {
            (old, None)
        },
    }
}

impl FocusState {
    /// Applies one accessibility event; the result is what to tell the
    /// keyboard, if anything.
    pub fn handle(&mut self, event: FocusEvent) -> (r: Option<TextInputVisibility>)
        ensures
            (final(self)@, r) == focus_event_effect(old(self)@, event),
    {
        match event {
            FocusEvent::FocusChanged { bus, path, focused, takes_input, from_self } => {
                if from_self {
                    None
                } else {
                    self.update((bus, path), focused, focused && takes_input)
                }
            },
            FocusEvent::WindowActivated { bus, path, terminal_app, from_self } => {
                if !from_self && terminal_app {
                    self.update((bus, path), true, true);
                    Some(TextInputVisibility::Show)
                } else {
                    None
                }
            },
            FocusEvent::WindowDeactivated { bus } => {
                if self.deactivate(bus.as_str()) {
                    Some(TextInputVisibility::Hide)
                } else {
                    None
                }
            },
            FocusEvent::OwnerChanged { name, new_owner } => {
                if new_owner.as_str().unicode_len() == 0 && self.deactivate(name.as_str()) {
                    Some(TextInputVisibility::Hide)
                } else {
                    None
                }
            },
        }
    }
}

/// A late blur of a widget that lost focus to another one leaves the new
/// widget focused and the keyboard as it is.
pub proof fn lemma_stale_blur_keeps_new_focus(
    s: Option<(Seq<char>, Seq<char>)>,
    earlier: (Seq<char>, Seq<char>),
    later: (Seq<char>, Seq<char>),
    input: bool,
    blur_input: bool,
)
    requires
        earlier != later,
    ensures
        ({
            let (focused, _) = updated_focus(s, later, true, input);
            updated_focus(focused, earlier, false, blur_input) == (Some(later), None::<
                TextInputVisibility,
            >)
        }),
{
}

/// The focused widget losing focus hides the keyboard and clears the target.
pub proof fn lemma_blur_of_focused_widget_hides(
    s: Option<(Seq<char>, Seq<char>)>,
    target: (Seq<char>, Seq<char>),
    input: bool,
    blur_input: bool,
)
    ensures
        ({
            let (focused, _) = updated_focus(s, target, true, input);
            updated_focus(focused, target, false, blur_input) == (None::<(Seq<char>, Seq<char>)>, Some(
                TextInputVisibility::Hide,
            ))
        }),
{
}

/// The terminal fallback of a window activation gives way to real focus: a
/// widget of the activated window that gains focus and takes no text hides
/// the keyboard.
pub proof fn lemma_focused_button_overrides_terminal_window(
    s: Option<(Seq<char>, Seq<char>)>,
    bus: String,
    window: String,
    widget: String,
)
    ensures
        ({
            let (activated, shown) = focus_event_effect(
                s,
                FocusEvent::WindowActivated {
                    bus,
                    path: window,
                    terminal_app: true,
                    from_self: false,
                },
            );
            let (_, after) = focus_event_effect(
                activated,
                FocusEvent::FocusChanged {
                    bus,
                    path: widget,
                    focused: true,
                    takes_input: false,
                    from_self: false,
                },
            );
            shown == Some(TextInputVisibility::Show) && after == Some(TextInputVisibility::Hide)
        }),
{
}

/// Deactivating the application that owns the focus hides the keyboard;
/// deactivating any other application changes nothing.
pub proof fn lemma_only_owner_deactivation_hides(
    target: (Seq<char>, Seq<char>),
    bus: Seq<char>,
)
    ensures
        deactivated_focus(Some(target), bus) == (if bus == target.0 {
            (None::<(Seq<char>, Seq<char>)>, true)
        } else {
            (Some(target), false)
        }),
{
}

/// The first remembered answer for `bus`, if any.
pub open spec fn remembered(entries: Seq<(Seq<char>, bool)>, bus: Seq<char>) -> Option<bool>
    decreases entries.len(),
{
    if entries.len() == 0 {
        None
    } else if entries[0].0 == bus {
        Some(entries[0].1)
    } else {
        remembered(entries.skip(1), bus)
    }
}

proof fn lemma_remembered_push(entries: Seq<(Seq<char>, bool)>, e: (Seq<char>, bool), bus: Seq<char>)
    ensures
        remembered(entries.push(e), bus) == match remembered(entries, bus) {
            Some(v) => Some(v),
            None => if e.0 == bus {
                Some(e.1)
            } else {
                None
            },
        },
    decreases entries.len(),
{
    if entries.len() > 0 {
        assert(entries.push(e)[0] == entries[0]);
        assert(entries.push(e).skip(1) =~= entries.skip(1).push(e));
        lemma_remembered_push(entries.skip(1), e, bus);
    } else {
        assert(entries.push(e).skip(1) =~= Seq::<(Seq<char>, bool)>::empty());
        assert(remembered(entries.push(e).skip(1), bus) is None);
    }
}

/// Which applications, by bus name, are terminal emulators: asked once per
/// application, since finding out reads its desktop files.
pub struct TerminalApps {
    entries: Vec<(String, bool)>,
}

impl TerminalApps {
    /// The remembered answers, oldest first.
    pub closed spec fn entries_view(&self) -> Seq<(Seq<char>, bool)> {
        self.entries@.map_values(|e: (String, bool)| (e.0@, e.1))
    }

    /// What is remembered about the application on `bus`.
    pub open spec fn known(&self, bus: Seq<char>) -> Option<bool> {
        remembered(self.entries_view(), bus)
    }

    /// Nothing is remembered yet.
    pub fn new() -> (r: Self)
        ensures
            forall|bus: Seq<char>| r.known(bus) is None,
    {
        let r = TerminalApps { entries: Vec::new() };
        assert(r.entries_view() =~= Seq::empty());
        r
    }

    /// The remembered answer for the application on `bus`.
    pub fn lookup(&self, bus: &str) -> (r: Option<bool>)
        ensures
            r == self.known(bus@),
    {
        let ghost v = self.entries_view();
        let mut i: usize = 0;
        assert(v.skip(0) =~= v);
        while i < self.entries.len()
            invariant
                v == self.entries_view(),
                i <= self.entries@.len(),
                remembered(v.skip(i as int), bus@) == remembered(v, bus@),
            decreases self.entries@.len() - i,
        {
            assert(v.skip(i as int)[0] == v[i as int]);
            if same_str(self.entries[i].0.as_str(), bus) {
                return Some(self.entries[i].1);
            }
            assert(v.skip(i as int).skip(1) =~= v.skip(i + 1));
            i = i + 1;
        }
        None
    }

    /// Remembers `terminal` for `bus` unless an answer is already known, and
    /// gives the answer that now stands.
    pub fn remember(&mut self, bus: &str, terminal: bool) -> (r: bool)
        ensures
            r == match old(self).known(bus@) {
                Some(v) => v,
                None => terminal,
            },
            final(self).known(bus@) == Some(r),
            forall|other: Seq<char>| other != bus@ ==> final(self).known(other) == old(self).known(other),
    {
        match self.lookup(bus) {
            Some(v) => v,
            None => {
                let ghost before = self.entries_view();
                let name = string_of(&chars_of(bus));
                self.entries.push((name, terminal));
                proof {
                    assert(self.entries_view() =~= before.push((bus@, terminal)));
                    assert forall|other: Seq<char>| #[trigger] remembered(self.entries_view(), other) == match remembered(before, other) {
                        Some(v) => Some(v),
                        None => if bus@ == other {
                            Some(terminal)
                        } else {
                            None
                        },
                    } by {
                        lemma_remembered_push(before, (bus@, terminal), other);
                    }
                }
                terminal
            },
        }
    }
}

} // verus!
