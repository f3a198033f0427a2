//! Reading the active keyboard layout from what desktops and input-method
//! frameworks report.
use vstd::prelude::*;

use crate::json::{
    bool_field, field_marker, json_bool_field, json_object_char_ranges, json_string_array_field,
    json_string_field, json_usize_field, marker_of, match_positions, object_ranges,
    parse_usize, parse_usize_chars, smallest_enclosing, string_array_field, string_field,
    usize_field,
};
use crate::layout::{layout_language, Language};
use crate::text::{
    chars_are, chars_of, contains, contains_chars, find, find_chars, find_chars_from,
    is_white_space, lemma_find_from_bounds, slice_chars, split, split_chars, split_once,
    split_once_chars, string_of, strip_prefix, strip_prefix_chars, to_lowercase, trim, trim_end,
    trimmed, trailing_space, trailing_space_len, unicode_lowercase, white_space,
};

verus! {

/// The value of the first `key=value` line whose trimmed key is `key`, trimmed.
pub open spec fn first_value(lines: Seq<Seq<char>>, key: Seq<char>) -> Option<Seq<char>>
    decreases lines.len(),
{
    if lines.len() == 0 {
        None
    } else {
        match split_once(lines[0], seq!['=']) {
            Some((k, v)) => if trim(k) == key {
                Some(trim(v))
            } else {
                first_value(lines.drop_first(), key)
            },
            None => first_value(lines.drop_first(), key),
        }
    }
}

/// The value of `key` in a `key=value` state file. Lines end at a newline; a
/// carriage return before it is white space and trimmed with the value.
pub open spec fn state_value(state: Seq<char>, key: Seq<char>) -> Option<Seq<char>> {
    first_value(split(state, '\n'), key)
}

/// The value of `key` in a `key=value` state file.
pub fn state_value_chars(state: &[char], key: &[char]) -> (r: Option<Vec<char>>)
    ensures
        match state_value(state@, key@) {
            Some(v) => r matches Some(x) && x@ == v,
            None => r is None,
        },
{
    let lines = split_chars(state, '\n');
    let ghost all = lines@.map_values(|v: Vec<char>| v@);
    let equals = vec!['='];
    assert(equals@ =~= seq!['=']);
    let mut i: usize = 0;
    assert(all.skip(0) =~= all);
    while i < lines.len()
        invariant
            i <= lines@.len(),
            all == lines@.map_values(|v: Vec<char>| v@),
            all == split(state@, '\n'),
            equals@ == seq!['='],
            state_value(state@, key@) == first_value(all.skip(i as int), key@),
        decreases lines@.len() - i,
    {
        assert(all.skip(i as int)[0] == lines@[i as int]@);
        assert(all.skip(i as int).drop_first() =~= all.skip(i + 1));
        match split_once_chars(&lines[i], &equals) {
            Some((k, v)) => {
                let tk = trimmed(&k);
                if crate::text::same_chars(&tk, key) {
                    return Some(trimmed(&v));
                }
            },
            None => {},
        }
        i = i + 1;
    }
    None
}

/// The language of a driftwm state file: its short layout name, else its long one.
pub open spec fn driftwm_state_language(state: Seq<char>) -> Option<Language> {
    let short = match state_value(state, "layout_short"@) {
        Some(v) => layout_language(v),
        None => None,
    };
    match short {
        Some(l) => Some(l),
        None => match state_value(state, "layout"@) {
            Some(v) => layout_language(v),
            None => None,
        },
    }
}

/// The language of a driftwm state file.
pub fn parse_driftwm_state(state: &str) -> (r: Option<Language>)
    ensures
        r == driftwm_state_language(state@),
{
    let state = chars_of(state);
    let short = match state_value_chars(&state, &chars_of("layout_short")) {
        Some(v) => Language::from_layout_chars(&v),
        None => None,
    };
    match short {
        Some(l) => Some(l),
        None => match state_value_chars(&state, &chars_of("layout")) {
            Some(v) => Language::from_layout_chars(&v),
            None => None,
        },
    }
}

/// The language of niri's layout list: the name at its current index.
pub open spec fn niri_layouts_language(json: Seq<char>) -> Option<Language> {
    match usize_field(json, "current_idx"@) {
        Some(index) => match string_array_field(json, "names"@) {
            Some(names) => if index < names.len() {
                layout_language(names[index as int])
            } else {
                None
            },
            None => None,
        },
        None => None,
    }
}

/// The language of niri's layout list.
pub fn parse_niri_layouts(json: &str) -> (r: Option<Language>)
    ensures
        r == niri_layouts_language(json@),
{
    let json = chars_of(json);
    let index = match json_usize_field(&json, &chars_of("current_idx")) {
        Some(i) => i,
        None => {
            return None;
        },
    };
    let names = match json_string_array_field(&json, &chars_of("names")) {
        Some(n) => n,
        None => {
            return None;
        },
    };
    if index < names.len() {
        Language::from_layout_chars(&names[index])
    } else {
        None
    }
}

/// The quoted parts of a text: the pieces between odd and even quotes.
pub open spec fn quoted_parts(pieces: Seq<Seq<char>>) -> Seq<Seq<char>> {
    Seq::new(pieces.len() / 2, |i: int| pieces[2 * i + 1])
}

/// The second members of the pairs whose first member is `xkb`.
pub open spec fn xkb_layouts(q: Seq<Seq<char>>) -> Seq<Seq<char>>
    decreases q.len(),
{
    if q.len() < 2 {
        Seq::empty()
    } else {
        (if q[0] == "xkb"@ {
            seq![q[1]]
        } else {
            Seq::empty()
        }) + xkb_layouts(q.skip(2))
    }
}

/// The XKB layouts of a GSettings list of `('kind', 'name')` input sources.
pub open spec fn gsettings_layouts(value: Seq<char>) -> Seq<Seq<char>> {
    xkb_layouts(quoted_parts(split(value, '\'')))
}

fn gsettings_layout_chars(value: &[char]) -> (r: Vec<Vec<char>>)
    ensures
        r@.map_values(|v: Vec<char>| v@) == gsettings_layouts(value@),
{
    let pieces = split_chars(value, '\'');
    let ghost p = pieces@.map_values(|v: Vec<char>| v@);
    let ghost q = quoted_parts(p);
    let xkb = chars_of("xkb");
    let mut result: Vec<Vec<char>> = Vec::new();
    let mut j: usize = 0;
    let pairs = pieces.len() / 4;
    assert(q.skip(0) =~= q);
    assert(result@.map_values(|v: Vec<char>| v@) =~= Seq::<Seq<char>>::empty());
    while j < pairs
        invariant
            pairs == pieces.len() / 4,
            j <= pairs,
            p == pieces@.map_values(|v: Vec<char>| v@),
            q == quoted_parts(p),
            xkb@ == "xkb"@,
            xkb_layouts(q) == result@.map_values(|v: Vec<char>| v@) + xkb_layouts(q.skip(2 * j)),
        decreases pairs - j,
    {
        let ghost before = result@.map_values(|v: Vec<char>| v@);
        let ghost rest = q.skip(2 * j);
        assert(4 * j + 3 < pieces.len()) by (nonlinear_arith)
            requires
                j < pairs,
                pairs == pieces.len() / 4,
        ;
        assert(rest.len() >= 2);
        assert(rest[0] == p[4 * j + 1]);
        assert(rest[1] == p[4 * j + 3]);
        assert(rest.skip(2) =~= q.skip(2 * j + 2));
        if crate::text::same_chars(&pieces[4 * j + 1], &xkb) {
            let layout = slice_chars(&pieces[4 * j + 3], 0, pieces[4 * j + 3].len());
            assert(layout@ =~= p[4 * j + 3]);
            result.push(layout);
            assert(result@.map_values(|v: Vec<char>| v@) =~= before.push(rest[1]));
            assert(before.push(rest[1]) + xkb_layouts(rest.skip(2)) =~= before + (seq![rest[1]]
                + xkb_layouts(rest.skip(2))));
        } else {
            assert(before + xkb_layouts(rest.skip(2)) =~= before + (Seq::empty() + xkb_layouts(
                rest.skip(2),
            )));
        }
        j = j + 1;
    }
    assert(q.skip(2 * j).len() < 2);
    assert(result@.map_values(|v: Vec<char>| v@) + Seq::<Seq<char>>::empty() =~= result@.map_values(
        |v: Vec<char>| v@,
    ));
    result
}

/// The XKB layouts of a GSettings input-source list, e.g. `[('xkb', 'us')]`.
pub fn parse_gsettings_sources(value: &str) -> (r: Vec<String>)
    ensures
        r@.map_values(|s: String| s@) == gsettings_layouts(value@),
{
    let layouts = gsettings_layout_chars(&chars_of(value));
    let ghost want = layouts@.map_values(|v: Vec<char>| v@);
    let mut result: Vec<String> = Vec::new();
    let mut i: usize = 0;
    while i < layouts.len()
        invariant
            i <= layouts@.len(),
            want == layouts@.map_values(|v: Vec<char>| v@),
            result@.map_values(|s: String| s@) == want.take(i as int),
        decreases layouts@.len() - i,
    {
        let ghost before = result@.map_values(|s: String| s@);
        let s = string_of(&layouts[i]);
        result.push(s);
        assert(result@.map_values(|s: String| s@) =~= before.push(want[i as int]));
        assert(want.take(i + 1) =~= want.take(i as int).push(want[i as int]));
        i = i + 1;
    }
    assert(want.take(want.len() as int) =~= want);
    result
}

/// The language of the layout that a device list reports. The field is read
/// from the smallest object around each occurrence of its name; with
/// `prefer_main`, the device marked `"main": true` wins, otherwise the first
/// recognized layout. An occurrence outside any object ends the search.
pub open spec fn devices_language(
    s: Seq<char>,
    field: Seq<char>,
    prefer_main: bool,
    ranges: Seq<(int, int)>,
    positions: Seq<int>,
    fallback: Option<Language>,
) -> Option<Language>
    decreases positions.len(),
{
    if positions.len() == 0 {
        fallback
    } else {
        match smallest_enclosing(ranges, positions[0], ranges.len() as int) {
            None => None,
            Some(r) => {
                let object = s.subrange(r.0, r.1 + 1);
                let language = match string_field(object, field) {
                    Some(name) => layout_language(name),
                    None => None,
                };
                if prefer_main && bool_field(object, "main"@) == Some(true) && language is Some {
                    language
                } else {
                    devices_language(
                        s,
                        field,
                        prefer_main,
                        ranges,
                        positions.drop_first(),
                        if fallback is Some {
                            fallback
                        } else {
                            language
                        },
                    )
                }
            },
        }
    }
}

/// The layout language of a compositor's JSON device list.
pub open spec fn layout_devices(json: Seq<char>, field: Seq<char>, prefer_main: bool) -> Option<
    Language,
> {
    devices_language(
        json,
        field,
        prefer_main,
        object_ranges(json),
        match_positions(json, field_marker(field), 0),
        None,
    )
}

/// The smallest object around `pos`.
fn smallest_enclosing_range(ranges: &Vec<(usize, usize)>, pos: usize, len: usize) -> (r: Option<
    (usize, usize),
>)
    requires
        forall|k: int| 0 <= k < ranges@.len() ==> (#[trigger] ranges@[k]).0 < ranges@[k].1 < len,
    ensures
        match smallest_enclosing(
            ranges@.map_values(|p: (usize, usize)| (p.0 as int, p.1 as int)),
            pos as int,
            ranges@.len() as int,
        ) {
            Some(b) => r matches Some(x) && x.0 as int == b.0 && x.1 as int == b.1,
            None => r is None,
        },
        r matches Some(x) ==> x.0 < x.1 < len,
{
    let ghost rs = ranges@.map_values(|p: (usize, usize)| (p.0 as int, p.1 as int));
    let mut best: Option<(usize, usize)> = None;
    let mut i: usize = 0;
    while i < ranges.len()
        invariant
            i <= ranges@.len(),
            rs == ranges@.map_values(|p: (usize, usize)| (p.0 as int, p.1 as int)),
            forall|k: int| 0 <= k < ranges@.len() ==> (#[trigger] ranges@[k]).0 < ranges@[k].1 < len,
            match smallest_enclosing(rs, pos as int, i as int) {
                Some(b) => best matches Some(x) && x.0 as int == b.0 && x.1 as int == b.1,
                None => best is None,
            },
            best matches Some(x) ==> x.0 < x.1 < len,
        decreases ranges@.len() - i,
    {
        let (start, end) = ranges[i];
        assert(rs[i as int] == (start as int, end as int));
        if start < pos && pos < end {
            match best {
                Some((bs, be)) => {
                    if end - start < be - bs {
                        best = Some((start, end));
                    }
                },
                None => {
                    best = Some((start, end));
                },
            }
        }
        i = i + 1;
    }
    best
}

/// The layout language of a compositor's JSON device list, from the string
/// field `layout_field` of each device.
pub fn parse_layout_devices(json: &str, layout_field: &str, prefer_main: bool) -> (r: Option<
    Language,
>)
    ensures
        r == layout_devices(json@, layout_field@, prefer_main),
{
    let text = chars_of(json);
    let field = chars_of(layout_field);
    let marker = marker_of(&field);
    let main = chars_of("main");
    let ranges = json_object_char_ranges(&text);
    let ghost rs = object_ranges(text@);
    let mut fallback: Option<Language> = None;
    let mut from: usize = 0;
    loop
        invariant
            from <= text@.len(),
            text@ == json@,
            field@ == layout_field@,
            marker@ == crate::json::field_marker(field@),
            main@ == "main"@,
            rs == ranges@.map_values(|p: (usize, usize)| (p.0 as int, p.1 as int)),
            rs == object_ranges(text@),
            forall|k: int| 0 <= k < ranges@.len() ==> (#[trigger] ranges@[k]).0 < ranges@[k].1
                < text@.len(),
            layout_devices(text@, field@, prefer_main) == devices_language(
                text@,
                field@,
                prefer_main,
                rs,
                match_positions(text@, marker@, from as int),
                fallback,
            ),
        decreases text@.len() + 1 - from,
    {
        let found = find_chars_from(&text, &marker, from);
        proof {
            lemma_find_from_bounds(text@, marker@, from as int);
        }
        assert(marker@.len() >= 2);
        let position = match found {
            Some(p) => p,
            None => {
                assert(match_positions(text@, marker@, from as int) =~= Seq::<int>::empty());
                return fallback;
            },
        };
        let ghost rest = match_positions(text@, marker@, position + marker@.len());
        assert(match_positions(text@, marker@, from as int) == seq![position as int] + rest);
        assert((seq![position as int] + rest).drop_first() =~= rest);
        assert((seq![position as int] + rest)[0] == position as int);
        assert(rs.len() == ranges@.len());
        let (start, end) = match smallest_enclosing_range(&ranges, position, text.len()) {
            Some(b) => b,
            None => {
                return None;
            },
        };
        let ghost b = smallest_enclosing(rs, position as int, rs.len() as int);
        assert(b == Some((start as int, end as int)));
        let text_len = text.len();
        assert(end < text_len);
        let object = slice_chars(&text, start, end + 1);
        let language = match json_string_field(&object, &field) {
            Some(name) => Language::from_layout_chars(&name),
            None => None,
        };
        let is_main = match json_bool_field(&object, &main) {
            Some(v) => v,
            None => false,
        };
        if prefer_main && is_main && language.is_some() {
            return language;
        }
        if fallback.is_none() {
            fallback = language;
        }
        let marker_len = marker.len();
        assert(position + marker_len <= text_len);
        from = position + marker_len;
    }
}

/// The part before the first occurrence of `c` (`str::split(c).next()`).
pub open spec fn first_piece(s: Seq<char>, c: char) -> Seq<char> {
    match find(s, seq![c]) {
        Some(k) => s.take(k),
        None => s,
    }
}

/// The layout name of an IBus engine: `xkb:us::eng` names `us`.
pub open spec fn ibus_layout(engine: Seq<char>) -> Seq<char> {
    let t = trim(engine);
    match strip_prefix(t, "xkb:"@) {
        Some(v) => first_piece(v, ':'),
        None => t,
    }
}

/// The language of the IBus engine that `ibus engine` prints.
pub fn ibus_engine_language(engine: &str) -> (r: Option<Language>)
    ensures
        r == layout_language(ibus_layout(engine@)),
{
    let t = trimmed(&chars_of(engine));
    let layout = match strip_prefix_chars(&t, &chars_of("xkb:")) {
        Some(v) => {
            let colon = vec![':'];
            assert(colon@ =~= seq![':']);
            match find_chars(&v, &colon) {
                Some(k) => slice_chars(&v, 0, k),
                None => v,
            }
        },
        None => t,
    };
    Language::from_layout_chars(&layout)
}

/// The layout name of an Fcitx input method: `keyboard-ru` names `ru`.
pub open spec fn fcitx_layout(name: Seq<char>) -> Seq<char> {
    let t = trim(name);
    match strip_prefix(t, "keyboard-"@) {
        Some(v) => v,
        None => t,
    }
}

/// The language of the Fcitx input method that `fcitx5-remote -n` prints.
pub fn fcitx_input_method_language(name: &str) -> (r: Option<Language>)
    ensures
        r == layout_language(fcitx_layout(name@)),
{
    let t = trimmed(&chars_of(name));
    let layout = match strip_prefix_chars(&t, &chars_of("keyboard-")) {
        Some(v) => v,
        None => t,
    };
    Language::from_layout_chars(&layout)
}

/// The language of `XKB_DEFAULT_LAYOUT`; a list of several layouts says
/// nothing about the active one.
pub fn environment_language(layout: &str) -> (r: Option<Language>)
    ensures
        r == (if contains(layout@, ","@) {
            None
        } else {
            layout_language(layout@)
        }),
{
    let l = chars_of(layout);
    if contains_chars(&l, &chars_of(",")) {
        None
    } else {
        Language::from_layout_chars(&l)
    }
}

/// Number of trailing characters that are not white space.
pub open spec fn trailing_word(s: Seq<char>) -> nat
    decreases s.len(),
{
    if s.len() > 0 && !is_white_space(s.last()) {
        1 + trailing_word(s.drop_last())
    } else {
        0
    }
}

/// The last white-space separated word (`split_whitespace().last()`).
pub open spec fn last_word(s: Seq<char>) -> Option<Seq<char>> {
    let t = trim_end(s);
    if t.len() == 0 {
        None
    } else {
        Some(t.skip(t.len() - trailing_word(t)))
    }
}

proof fn lemma_trailing_word_take(s: Seq<char>, i: int)
    requires
        0 <= i <= s.len(),
        forall|j: int| s.len() - i <= j < s.len() ==> !is_white_space(#[trigger] s[j]),
    ensures
        trailing_word(s) == i + trailing_word(s.take(s.len() - i)),
    decreases i,
{
    if i > 0 {
        assert(s.drop_last().take(s.drop_last().len() - (i - 1)) =~= s.take(s.len() - i));
        lemma_trailing_word_take(s.drop_last(), i - 1);
    } else {
        assert(s.take(s.len() as int) =~= s);
    }
}

/// The index that `gsettings get ... current` prints, e.g. `uint32 1`.
pub fn gnome_current_index(value: &str) -> (r: Option<usize>)
    ensures
        r == (match last_word(value@) {
            Some(w) => parse_usize(w),
            None => None,
        }),
{
    let v = chars_of(value);
    let k = trailing_space_len(&v);
    let t = slice_chars(&v, 0, v.len() - k);
    if t.len() == 0 {
        return None;
    }
    let mut i: usize = 0;
    while i < t.len() && !white_space(t[t.len() - 1 - i])
        invariant
            i <= t@.len(),
            forall|j: int| t@.len() - i <= j < t@.len() ==> !is_white_space(#[trigger] t@[j]),
        decreases t@.len() - i,
    {
        i = i + 1;
    }
    proof {
        lemma_trailing_word_take(t@, i as int);
        let u = t@.take(t@.len() - i);
        if u.len() > 0 {
            assert(u.last() == t@[t@.len() - 1 - i]);
        }
    }
    let word = slice_chars(&t, t.len() - i, t.len());
    parse_usize_chars(&word)
}

/// The language of the current GNOME input source: the XKB source at the
/// current index.
pub fn gnome_layout_language(current: Option<usize>, sources: &str) -> (r: Option<Language>)
    ensures
        r == (match current {
            Some(index) => if index < gsettings_layouts(sources@).len() {
                layout_language(gsettings_layouts(sources@)[index as int])
            } else {
                None
            },
            None => None,
        }),
{
    let layouts = gsettings_layout_chars(&chars_of(sources));
    match current {
        Some(index) => if index < layouts.len() {
            Language::from_layout_chars(&layouts[index])
        } else {
            None
        },
        None => None,
    }
}

/// The language of the first XKB source of a list (the most recently used one).
pub fn first_source_language(sources: &str) -> (r: Option<Language>)
    ensures
        r == (if gsettings_layouts(sources@).len() > 0 {
            layout_language(gsettings_layouts(sources@)[0])
        } else {
            None
        }),
{
    let layouts = gsettings_layout_chars(&chars_of(sources));
    if layouts.len() > 0 {
        Language::from_layout_chars(&layouts[0])
    } else {
        None
    }
}

/// The values joined with a separator.
pub open spec fn joined(values: Seq<Seq<char>>, sep: char) -> Seq<char>
    decreases values.len(),
{
    if values.len() == 0 {
        Seq::empty()
    } else if values.len() == 1 {
        values[0]
    } else {
        joined(values.drop_last(), sep) + seq![sep] + values.last()
    }
}

/// The desktop names (`XDG_CURRENT_DESKTOP` and the like) joined with `:`
/// and lowercased.
pub fn desktop_name(values: &[String]) -> (r: Vec<char>)
    ensures
        r@ == unicode_lowercase(joined(values@.map_values(|s: String| s@), ':')),
{
    let ghost all = values@.map_values(|s: String| s@);
    let mut acc: Vec<char> = Vec::new();
    let mut i: usize = 0;
    while i < values.len()
        invariant
            i <= values@.len(),
            all == values@.map_values(|s: String| s@),
            acc@ == joined(all.take(i as int), ':'),
        decreases values@.len() - i,
    {
        let piece = chars_of(values[i].as_str());
        assert(all.take(i + 1).drop_last() =~= all.take(i as int));
        if i > 0 {
            acc.push(':');
        }
        let mut j: usize = 0;
        let ghost base = acc@;
        while j < piece.len()
            invariant
                j <= piece@.len(),
                acc@ == base + piece@.take(j as int),
            decreases piece@.len() - j,
        {
            acc.push(piece[j]);
            assert(base + piece@.take(j + 1) =~= (base + piece@.take(j as int)).push(piece@[j as int]));
            j = j + 1;
        }
        assert(piece@.take(piece@.len() as int) =~= piece@);
        assert(all.take(i + 1).last() == values@[i as int]@);
        if i == 0 {
            assert(acc@ =~= joined(all.take(1), ':'));
        }
        i = i + 1;
    }
    assert(all.take(values@.len() as int) =~= all);
    to_lowercase(&acc)
}

/// Whether some input-method variable (`GTK_IM_MODULE` and the like) names
/// the framework, compared in lowercase.
pub fn input_method_is(values: &[String], name: &str) -> (r: bool)
    ensures
        r == exists|i: int|
            0 <= i < values@.len() && contains(
                unicode_lowercase(#[trigger] values@[i]@),
                name@,
            ),
{
    let n = chars_of(name);
    let mut i: usize = 0;
    while i < values.len()
        invariant
            i <= values@.len(),
            n@ == name@,
            forall|k: int| 0 <= k < i ==> !contains(unicode_lowercase(#[trigger] values@[k]@), name@),
        decreases values@.len() - i,
    {
        let lower = to_lowercase(&chars_of(values[i].as_str()));
        if contains_chars(&lower, &n) {
            return true;
        }
        i = i + 1;
    }
    false
}

/// A source of the active layout.
#[derive(Clone, Copy, Debug, PartialEq, Eq, Structural)]
pub enum LayoutSource {
    /// The file named by `WAYLANDKB_LAYOUT_FILE`.
    OverrideFile,
    Driftwm,
    Niri,
    Hyprland,
    Sway,
    Kde,
    Gnome,
    Ibus,
    Fcitx,
    /// `xkb-switch` on an X11 display.
    X11,
    /// `XKB_DEFAULT_LAYOUT`.
    Environment,
}

/// The sources to ask, in order: the running desktop's own first, then the
/// input-method frameworks in use.
pub open spec fn source_order(
    desktop: Seq<char>,
    niri_socket: bool,
    hyprland_signature: bool,
    sway_socket: bool,
    ibus: bool,
    fcitx: bool,
) -> Seq<LayoutSource> {
    (if contains(desktop, "driftwm"@) {
        seq![LayoutSource::Driftwm]
    } else {
        Seq::empty()
    }) + (if contains(desktop, "niri"@) || niri_socket {
        seq![LayoutSource::Niri]
    } else {
        Seq::empty()
    }) + (if contains(desktop, "hyprland"@) || hyprland_signature {
        seq![LayoutSource::Hyprland]
    } else {
        Seq::empty()
    }) + (if contains(desktop, "sway"@) || sway_socket {
        seq![LayoutSource::Sway]
    } else {
        Seq::empty()
    }) + (if contains(desktop, "kde"@) || contains(desktop, "plasma"@) {
        seq![LayoutSource::Kde]
    } else {
        Seq::empty()
    }) + (if contains(desktop, "gnome"@) {
        seq![LayoutSource::Gnome]
    } else {
        Seq::empty()
    }) + (if ibus {
        seq![LayoutSource::Ibus]
    } else {
        Seq::empty()
    }) + (if fcitx {
        seq![LayoutSource::Fcitx]
    } else {
        Seq::empty()
    })
}

fn push_if(r: &mut Vec<LayoutSource>, cond: bool, source: LayoutSource)
    ensures
        final(r)@ == old(r)@ + (if cond {
            seq![source]
        } else {
            Seq::empty()
        }),
{
    if cond {
        r.push(source);
    } else {
        assert(old(r)@ + Seq::empty() =~= old(r)@);
    }
}

/// The sources to ask, in order, for a lowercase desktop name and the
/// presence of the compositors' sockets and of the input-method frameworks.
pub fn preferred_sources(
    desktop: &[char],
    niri_socket: bool,
    hyprland_signature: bool,
    sway_socket: bool,
    ibus: bool,
    fcitx: bool,
) -> (r: Vec<LayoutSource>)
    ensures
        r@ == source_order(desktop@, niri_socket, hyprland_signature, sway_socket, ibus, fcitx),
{
    let driftwm = contains_chars(desktop, &chars_of("driftwm"));
    let niri = contains_chars(desktop, &chars_of("niri")) || niri_socket;
    let hyprland = contains_chars(desktop, &chars_of("hyprland")) || hyprland_signature;
    let sway = contains_chars(desktop, &chars_of("sway")) || sway_socket;
    let kde = contains_chars(desktop, &chars_of("kde")) || contains_chars(
        desktop,
        &chars_of("plasma"),
    );
    let gnome = contains_chars(desktop, &chars_of("gnome"));
    let mut r: Vec<LayoutSource> = Vec::new();
    push_if(&mut r, driftwm, LayoutSource::Driftwm);
    assert(r@ =~= (if driftwm {
        seq![LayoutSource::Driftwm]
    } else {
        Seq::empty()
    }));
    push_if(&mut r, niri, LayoutSource::Niri);
    push_if(&mut r, hyprland, LayoutSource::Hyprland);
    push_if(&mut r, sway, LayoutSource::Sway);
    push_if(&mut r, kde, LayoutSource::Kde);
    push_if(&mut r, gnome, LayoutSource::Gnome);
    push_if(&mut r, ibus, LayoutSource::Ibus);
    push_if(&mut r, fcitx, LayoutSource::Fcitx);
    r
}

/// The whole order in which the sources are asked: the override file, the
/// preferred sources, then the fallbacks (driftwm's state file, which also
/// works without a desktop name, X11, and the environment).
pub open spec fn search_order(
    desktop: Seq<char>,
    niri_socket: bool,
    hyprland_signature: bool,
    sway_socket: bool,
    ibus: bool,
    fcitx: bool,
) -> Seq<LayoutSource> {
    seq![LayoutSource::OverrideFile] + source_order(
        desktop,
        niri_socket,
        hyprland_signature,
        sway_socket,
        ibus,
        fcitx,
    ) + seq![LayoutSource::Driftwm, LayoutSource::X11, LayoutSource::Environment]
}

/// The sources to ask for the active layout, in order.
pub fn layout_search_order(
    desktop: &[char],
    niri_socket: bool,
    hyprland_signature: bool,
    sway_socket: bool,
    ibus: bool,
    fcitx: bool,
) -> (r: Vec<LayoutSource>)
    ensures
        r@ == search_order(desktop@, niri_socket, hyprland_signature, sway_socket, ibus, fcitx),
{
    let mut r = vec![LayoutSource::OverrideFile];
    let preferred = preferred_sources(
        desktop,
        niri_socket,
        hyprland_signature,
        sway_socket,
        ibus,
        fcitx,
    );
    let mut i: usize = 0;
    while i < preferred.len()
        invariant
            i <= preferred@.len(),
            r@ == seq![LayoutSource::OverrideFile] + preferred@.take(i as int),
        decreases preferred@.len() - i,
    {
        r.push(preferred[i]);
        assert(preferred@.take(i + 1) =~= preferred@.take(i as int).push(preferred@[i as int]));
        i = i + 1;
    }
    assert(preferred@.take(preferred@.len() as int) =~= preferred@);
    r.push(LayoutSource::Driftwm);
    r.push(LayoutSource::X11);
    r.push(LayoutSource::Environment);
    assert(r@ =~= search_order(desktop@, niri_socket, hyprland_signature, sway_socket, ibus, fcitx));
    r
}

/// The first answer that names a language.
pub open spec fn first_answer(answers: Seq<Option<Language>>) -> Option<Language>
    decreases answers.len(),
{
    if answers.len() == 0 {
        None
    } else {
        match answers[0] {
            Some(l) => Some(l),
            None => first_answer(answers.drop_first()),
        }
    }
}

/// A search for the active layout: sources are asked one at a time, in
/// order, and the first one that names a language ends it. Later sources
/// are never asked (asking means running their programs).
pub struct LayoutSearch {
    pub order: Vec<LayoutSource>,
    /// How many sources have answered.
    pub answered: usize,
    /// The language found, once a source named one.
    pub found: Option<Language>,
}

impl LayoutSearch {
    /// A search over `order` that has asked nothing yet.
    pub fn new(order: Vec<LayoutSource>) -> (r: Self)
        ensures
            r.order@ == order@,
            r.answered == 0,
            r.found is None,
    {
        LayoutSearch { order, answered: 0, found: None }
    }

    /// The source to ask next: none once a language was found or every
    /// source has answered.
    pub fn next_source(&self) -> (r: Option<LayoutSource>)
        ensures
            r == (if self.found is None && self.answered < self.order@.len() {
                Some(self.order@[self.answered as int])
            } else {
                None
            }),
    {
        if self.found.is_none() && self.answered < self.order.len() {
            Some(self.order[self.answered])
        } else {
            None
        }
    }

    /// Records the answer of the source that `next_source` named.
    pub fn answer(&mut self, language: Option<Language>)
        requires
            old(self).found is None,
            old(self).answered < old(self).order@.len(),
        ensures
            final(self).order@ == old(self).order@,
            final(self).answered == old(self).answered + 1,
            final(self).found == language,
    {
        let total = self.order.len();
        assert(self.answered < total);
        self.answered = self.answered + 1;
        self.found = language;
    }

    /// The language found, if any.
    pub fn result(&self) -> (r: Option<Language>)
        ensures
            r == self.found,
    {
        self.found
    }
}

proof fn lemma_first_answer_push(answers: Seq<Option<Language>>, a: Option<Language>)
    requires
        first_answer(answers) is None,
    ensures
        first_answer(answers.push(a)) == a,
    decreases answers.len(),
{
    if answers.len() > 0 {
        assert(answers.push(a)[0] == answers[0]);
        assert(answers.push(a).drop_first() =~= answers.drop_first().push(a));
        lemma_first_answer_push(answers.drop_first(), a);
    } else {
        assert(answers.push(a).drop_first() =~= Seq::<Option<Language>>::empty());
        assert(first_answer(Seq::<Option<Language>>::empty()) is None);
        assert(answers.push(a)[0] == a);
    }
}

/// The first source that answers wins. A search takes an answer only while
/// nothing was found (`answer` requires it, and `next_source` names no source
/// after a find), so the answers it takes are all empty but perhaps the last;
/// the language it ends with, the last answer, is then the first language
/// among them, and when it found none, no source named one.
pub proof fn lemma_first_answer_wins(order: Seq<LayoutSource>, answers: Seq<Option<Language>>)
    requires
        answers.len() <= order.len(),
        forall|i: int| 0 <= i < answers.len() - 1 ==> #[trigger] answers[i] is None,
    ensures
        answers.len() > 0 ==> first_answer(answers) == answers.last(),
        first_answer(answers) is None ==> forall|i: int| 0 <= i < answers.len() ==> #[trigger] answers[i] is None,
    decreases answers.len(),
{
    if answers.len() > 0 {
        let prefix = answers.drop_last();
        assert forall|i: int| 0 <= i < prefix.len() - 1 implies #[trigger] prefix[i] is None by {
            assert(prefix[i] == answers[i]);
        }
        lemma_first_answer_wins(order, prefix);
        assert forall|i: int| 0 <= i < prefix.len() implies #[trigger] prefix[i] is None by {
            assert(prefix[i] == answers[i]);
        }
        lemma_none_answers(prefix);
        assert(answers =~= prefix.push(answers.last()));
        lemma_first_answer_push(prefix, answers.last());
    }
}

proof fn lemma_none_answers(answers: Seq<Option<Language>>)
    requires
        forall|i: int| 0 <= i < answers.len() ==> #[trigger] answers[i] is None,
    ensures
        first_answer(answers) is None,
    decreases answers.len(),
{
    if answers.len() > 0 {
        assert forall|i: int| 0 <= i < answers.drop_first().len() implies #[trigger] answers.drop_first()[i] is None by {
            assert(answers.drop_first()[i] == answers[i + 1]);
        }
        lemma_none_answers(answers.drop_first());
    }
}

/// The language of the device whose object is the smallest one around the
/// field occurrence at `pos`, if that object names a recognized layout.
pub open spec fn device_language(
    s: Seq<char>,
    field: Seq<char>,
    ranges: Seq<(int, int)>,
    pos: int,
) -> Option<Language> {
    match smallest_enclosing(ranges, pos, ranges.len() as int) {
        Some(r) => match string_field(s.subrange(r.0, r.1 + 1), field) {
            Some(name) => layout_language(name),
            None => None,
        },
        None => None,
    }
}

/// Whether the device object around `pos` is marked `"main": true`.
pub open spec fn device_is_main(s: Seq<char>, ranges: Seq<(int, int)>, pos: int) -> bool {
    match smallest_enclosing(ranges, pos, ranges.len() as int) {
        Some(r) => bool_field(s.subrange(r.0, r.1 + 1), "main"@) == Some(true),
        None => false,
    }
}

proof fn lemma_main_device_wins_from(
    s: Seq<char>,
    field: Seq<char>,
    ranges: Seq<(int, int)>,
    positions: Seq<int>,
    fallback: Option<Language>,
    k: int,
)
    requires
        0 <= k < positions.len(),
        forall|j: int|
            0 <= j <= k ==> #[trigger] smallest_enclosing(ranges, positions[j], ranges.len() as int)
                is Some,
        forall|j: int|
            0 <= j < k ==> !(device_is_main(s, ranges, #[trigger] positions[j]) && device_language(
                s,
                field,
                ranges,
                positions[j],
            ) is Some),
        device_is_main(s, ranges, positions[k]),
        device_language(s, field, ranges, positions[k]) is Some,
    ensures
        devices_language(s, field, true, ranges, positions, fallback) == device_language(
            s,
            field,
            ranges,
            positions[k],
        ),
    decreases k,
{
    assert(smallest_enclosing(ranges, positions[0], ranges.len() as int) is Some);
    if k > 0 {
        let rest = positions.drop_first();
        assert forall|j: int| 0 <= j <= k - 1 implies #[trigger] smallest_enclosing(
            ranges,
            rest[j],
            ranges.len() as int,
        ) is Some by {
            assert(rest[j] == positions[j + 1]);
        }
        assert forall|j: int| 0 <= j < k - 1 implies !(device_is_main(
            s,
            ranges,
            #[trigger] rest[j],
        ) && device_language(s, field, ranges, rest[j]) is Some) by {
            assert(rest[j] == positions[j + 1]);
        }
        assert(rest[k - 1] == positions[k]);
        assert(!(device_is_main(s, ranges, positions[0]) && device_language(
            s,
            field,
            ranges,
            positions[0],
        ) is Some));
        let language = device_language(s, field, ranges, positions[0]);
        lemma_main_device_wins_from(
            s,
            field,
            ranges,
            rest,
            if fallback is Some {
                fallback
            } else {
                language
            },
            k - 1,
        );
    }
}

/// With `prefer_main`, the main keyboard decides: if the device around the
/// `k`-th occurrence of the layout field is marked `"main": true` and names a
/// recognized layout, and no device before it is both, the result is that
/// device's language, whatever the layouts of the other devices and whether
/// they come before or after it (as long as every occurrence up to it lies
/// inside an object).
pub proof fn lemma_main_keyboard_wins(json: Seq<char>, field: Seq<char>, k: int)
    requires
        0 <= k < match_positions(json, field_marker(field), 0).len(),
        forall|j: int|
            0 <= j <= k ==> #[trigger] smallest_enclosing(
                object_ranges(json),
                match_positions(json, field_marker(field), 0)[j],
                object_ranges(json).len() as int,
            ) is Some,
        forall|j: int|
            0 <= j < k ==> !(device_is_main(
                json,
                object_ranges(json),
                #[trigger] match_positions(json, field_marker(field), 0)[j],
            ) && device_language(
                json,
                field,
                object_ranges(json),
                match_positions(json, field_marker(field), 0)[j],
            ) is Some),
        device_is_main(json, object_ranges(json), match_positions(json, field_marker(field), 0)[k]),
        device_language(
            json,
            field,
            object_ranges(json),
            match_positions(json, field_marker(field), 0)[k],
        ) is Some,
    ensures
        layout_devices(json, field, true) == device_language(
            json,
            field,
            object_ranges(json),
            match_positions(json, field_marker(field), 0)[k],
        ),
{
    lemma_main_device_wins_from(
        json,
        field,
        object_ranges(json),
        match_positions(json, field_marker(field), 0),
        None,
        k,
    );
}

proof fn lemma_first_device_wins_from(
    s: Seq<char>,
    field: Seq<char>,
    ranges: Seq<(int, int)>,
    positions: Seq<int>,
    fallback: Option<Language>,
    k: int,
)
    requires
        forall|j: int|
            0 <= j < positions.len() ==> #[trigger] smallest_enclosing(
                ranges,
                positions[j],
                ranges.len() as int,
            ) is Some,
        fallback is Some || (0 <= k < positions.len() && device_language(
            s,
            field,
            ranges,
            positions[k],
        ) is Some && forall|j: int|
            0 <= j < k ==> device_language(s, field, ranges, #[trigger] positions[j]) is None),
    ensures
        devices_language(s, field, false, ranges, positions, fallback) == if fallback is Some {
            fallback
        } else {
            device_language(s, field, ranges, positions[k])
        },
    decreases positions.len(),
{
    if positions.len() > 0 {
        assert(smallest_enclosing(ranges, positions[0], ranges.len() as int) is Some);
        let rest = positions.drop_first();
        assert forall|j: int| 0 <= j < rest.len() implies #[trigger] smallest_enclosing(
            ranges,
            rest[j],
            ranges.len() as int,
        ) is Some by {
            assert(rest[j] == positions[j + 1]);
        }
        let language = device_language(s, field, ranges, positions[0]);
        if fallback is Some || language is Some {
            lemma_first_device_wins_from(
                s,
                field,
                ranges,
                rest,
                if fallback is Some {
                    fallback
                } else {
                    language
                },
                0,
            );
        } else {
            assert(k > 0);
            assert forall|j: int| 0 <= j < k - 1 implies device_language(
                s,
                field,
                ranges,
                #[trigger] rest[j],
            ) is None by {
                assert(rest[j] == positions[j + 1]);
            }
            assert(rest[k - 1] == positions[k]);
            lemma_first_device_wins_from(s, field, ranges, rest, fallback, k - 1);
        }
    }
}

/// Without `prefer_main`, the first device that names a recognized layout
/// decides, whatever the devices after it name (as long as every occurrence of
/// the field lies inside an object).
pub proof fn lemma_first_recognized_device_wins(json: Seq<char>, field: Seq<char>, k: int)
    requires
        0 <= k < match_positions(json, field_marker(field), 0).len(),
        forall|j: int|
            0 <= j < match_positions(json, field_marker(field), 0).len() ==> #[trigger] smallest_enclosing(
                object_ranges(json),
                match_positions(json, field_marker(field), 0)[j],
                object_ranges(json).len() as int,
            ) is Some,
        forall|j: int|
            0 <= j < k ==> device_language(
                json,
                field,
                object_ranges(json),
                #[trigger] match_positions(json, field_marker(field), 0)[j],
            ) is None,
        device_language(
            json,
            field,
            object_ranges(json),
            match_positions(json, field_marker(field), 0)[k],
        ) is Some,
    ensures
        layout_devices(json, field, false) == device_language(
            json,
            field,
            object_ranges(json),
            match_positions(json, field_marker(field), 0)[k],
        ),
{
    lemma_first_device_wins_from(
        json,
        field,
        object_ranges(json),
        match_positions(json, field_marker(field), 0),
        None,
        k,
    );
}

proof fn lemma_contains_in_either(a: Seq<LayoutSource>, b: Seq<LayoutSource>, x: LayoutSource)
    requires
        a.contains(x) || b.contains(x),
    ensures
        (a + b).contains(x),
{
    if a.contains(x) {
        let i = choose|i: int| 0 <= i < a.len() && a[i] == x;
        assert((a + b)[i] == x);
    } else {
        let i = choose|i: int| 0 <= i < b.len() && b[i] == x;
        assert((a + b)[a.len() + i] == x);
    }
}

/// A running compositor or input-method framework is always asked: when its
/// socket, instance or use is detected, its source is in the order, whatever
/// the desktop name; and so is the source that the desktop name names.
pub proof fn lemma_detected_sources_are_asked(
    desktop: Seq<char>,
    niri_socket: bool,
    hyprland_signature: bool,
    sway_socket: bool,
    ibus: bool,
    fcitx: bool,
)
    ensures
        ({
            let order = source_order(
                desktop,
                niri_socket,
                hyprland_signature,
                sway_socket,
                ibus,
                fcitx,
            );
            &&& niri_socket || contains(desktop, "niri"@) ==> order.contains(LayoutSource::Niri)
            &&& hyprland_signature || contains(desktop, "hyprland"@) ==> order.contains(
                LayoutSource::Hyprland,
            )
            &&& sway_socket || contains(desktop, "sway"@) ==> order.contains(LayoutSource::Sway)
            &&& contains(desktop, "driftwm"@) ==> order.contains(LayoutSource::Driftwm)
            &&& contains(desktop, "kde"@) || contains(desktop, "plasma"@) ==> order.contains(
                LayoutSource::Kde,
            )
            &&& contains(desktop, "gnome"@) ==> order.contains(LayoutSource::Gnome)
            &&& ibus ==> order.contains(LayoutSource::Ibus)
            &&& fcitx ==> order.contains(LayoutSource::Fcitx)
            &&& search_order(
                desktop,
                niri_socket,
                hyprland_signature,
                sway_socket,
                ibus,
                fcitx,
            )[0] == LayoutSource::OverrideFile
        }),
{
    let p1: Seq<LayoutSource> = if contains(desktop, "driftwm"@) {
        seq![LayoutSource::Driftwm]
    } else {
        Seq::empty()
    };
    let p2: Seq<LayoutSource> = if contains(desktop, "niri"@) || niri_socket {
        seq![LayoutSource::Niri]
    } else {
        Seq::empty()
    };
    let p3: Seq<LayoutSource> = if contains(desktop, "hyprland"@) || hyprland_signature {
        seq![LayoutSource::Hyprland]
    } else {
        Seq::empty()
    };
    let p4: Seq<LayoutSource> = if contains(desktop, "sway"@) || sway_socket {
        seq![LayoutSource::Sway]
    } else {
        Seq::empty()
    };
    let p5: Seq<LayoutSource> = if contains(desktop, "kde"@) || contains(desktop, "plasma"@) {
        seq![LayoutSource::Kde]
    } else {
        Seq::empty()
    };
    let p6: Seq<LayoutSource> = if contains(desktop, "gnome"@) {
        seq![LayoutSource::Gnome]
    } else {
        Seq::empty()
    };
    let p7: Seq<LayoutSource> = if ibus {
        seq![LayoutSource::Ibus]
    } else {
        Seq::empty()
    };
    let p8: Seq<LayoutSource> = if fcitx {
        seq![LayoutSource::Fcitx]
    } else {
        Seq::empty()
    };
    let order = source_order(desktop, niri_socket, hyprland_signature, sway_socket, ibus, fcitx);
    assert(order == p1 + p2 + p3 + p4 + p5 + p6 + p7 + p8);
    let all = seq![
        LayoutSource::Driftwm,
        LayoutSource::Niri,
        LayoutSource::Hyprland,
        LayoutSource::Sway,
        LayoutSource::Kde,
        LayoutSource::Gnome,
        LayoutSource::Ibus,
        LayoutSource::Fcitx,
    ];
    assert forall|x: LayoutSource|
        #![trigger all.contains(x)]
        p1.contains(x) || p2.contains(x) || p3.contains(x) || p4.contains(x) || p5.contains(x)
            || p6.contains(x) || p7.contains(x) || p8.contains(x) implies order.contains(x) by {
        if p1.contains(x) || p2.contains(x) || p3.contains(x) || p4.contains(x) || p5.contains(x)
            || p6.contains(x) || p7.contains(x) {
            if p1.contains(x) || p2.contains(x) || p3.contains(x) || p4.contains(x) || p5.contains(
                x,
            ) || p6.contains(x) {
                if p1.contains(x) || p2.contains(x) || p3.contains(x) || p4.contains(x)
                    || p5.contains(x) {
                    if p1.contains(x) || p2.contains(x) || p3.contains(x) || p4.contains(x) {
                        if p1.contains(x) || p2.contains(x) || p3.contains(x) {
                            if p1.contains(x) || p2.contains(x) {
                                lemma_contains_in_either(p1, p2, x);
                            }
                            lemma_contains_in_either(p1 + p2, p3, x);
                        }
                        lemma_contains_in_either(p1 + p2 + p3, p4, x);
                    }
                    lemma_contains_in_either(p1 + p2 + p3 + p4, p5, x);
                }
                lemma_contains_in_either(p1 + p2 + p3 + p4 + p5, p6, x);
            }
            lemma_contains_in_either(p1 + p2 + p3 + p4 + p5 + p6, p7, x);
        }
        lemma_contains_in_either(p1 + p2 + p3 + p4 + p5 + p6 + p7, p8, x);
    }
    if niri_socket || contains(desktop, "niri"@) {
        assert(p2[0] == LayoutSource::Niri);
        assert(all.contains(LayoutSource::Niri));
    }
    if hyprland_signature || contains(desktop, "hyprland"@) {
        assert(p3[0] == LayoutSource::Hyprland);
        assert(all.contains(LayoutSource::Hyprland));
    }
    if sway_socket || contains(desktop, "sway"@) {
        assert(p4[0] == LayoutSource::Sway);
        assert(all.contains(LayoutSource::Sway));
    }
    if contains(desktop, "driftwm"@) {
        assert(p1[0] == LayoutSource::Driftwm);
        assert(all.contains(LayoutSource::Driftwm));
    }
    if contains(desktop, "kde"@) || contains(desktop, "plasma"@) {
        assert(p5[0] == LayoutSource::Kde);
        assert(all.contains(LayoutSource::Kde));
    }
    if contains(desktop, "gnome"@) {
        assert(p6[0] == LayoutSource::Gnome);
        assert(all.contains(LayoutSource::Gnome));
    }
    if ibus {
        assert(p7[0] == LayoutSource::Ibus);
        assert(all.contains(LayoutSource::Ibus));
    }
    if fcitx {
        assert(p8[0] == LayoutSource::Fcitx);
        assert(all.contains(LayoutSource::Fcitx));
    }
}

} // verus!
