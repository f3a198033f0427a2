//! The small amount of JSON reading that the layout queries need: object
//! extents, and the value of a named string, boolean, number or string-array
//! field. Positions are character positions, except for the object extents
//! of a text, which are also given as byte offsets.
use vstd::prelude::*;

use crate::text::{
    chars_of, find, find_chars_from, has_prefix, lemma_find_from_bounds, slice_chars, split_once,
    split_once_chars, starts_with_chars, string_of, strip_prefix_chars, trim_start, trimmed_start,
};

verus! {

/// The scanner's state after some characters: inside a string, after a
/// backslash in a string, the positions of the open braces, and the objects
/// closed so far as (open, close) positions.
pub type ScanState = (bool, bool, Seq<int>, Seq<(int, int)>);

/// One character of the scan.
pub open spec fn scan_step(st: ScanState, i: int, c: char) -> ScanState {
    let (in_string, escaped, stack, ranges) = st;
    if in_string {
        if escaped {
            (true, false, stack, ranges)
        } else if c == '\\' {
            (true, true, stack, ranges)
        } else if c == '"' {
            (false, false, stack, ranges)
        } else {
            st
        }
    } else if c == '"' {
        (true, escaped, stack, ranges)
    } else if c == '{' {
        (false, escaped, stack.push(i), ranges)
    } else if c == '}' {
        if stack.len() > 0 {
            (false, escaped, stack.drop_last(), ranges.push((stack.last(), i)))
        } else {
            st
        }
    } else {
        st
    }
}

/// The scan of the first `n` characters.
pub open spec fn scan(s: Seq<char>, n: int) -> ScanState
    decreases n,
{
    if n <= 0 {
        (false, false, Seq::empty(), Seq::empty())
    } else {
        scan_step(scan(s, n - 1), n - 1, s[n - 1])
    }
}

/// The objects of a JSON text: each `{` matched with its `}`, braces inside
/// strings excluded, in the order in which they close.
pub open spec fn object_ranges(s: Seq<char>) -> Seq<(int, int)> {
    scan(s, s.len() as int).3
}

proof fn lemma_scan_bounds(s: Seq<char>, n: int)
    requires
        0 <= n <= s.len(),
    ensures
        forall|k: int| 0 <= k < scan(s, n).2.len() ==> 0 <= #[trigger] scan(s, n).2[k] < n,
        forall|k: int|
            0 <= k < scan(s, n).3.len() ==> 0 <= (#[trigger] scan(s, n).3[k]).0 < scan(
                s,
                n,
            ).3[k].1 < n,
    decreases n,
{
    if n > 0 {
        lemma_scan_bounds(s, n - 1);
        let prev = scan(s, n - 1);
        let st = scan(s, n);
        assert(st == scan_step(prev, n - 1, s[n - 1]));
        assert forall|k: int| 0 <= k < st.2.len() implies 0 <= #[trigger] st.2[k] < n by {
            if k < prev.2.len() && !(st.2.len() == prev.2.len() + 1 && k == prev.2.len()) {
                assert(st.2[k] == prev.2[k]);
            }
        }
        assert forall|k: int| 0 <= k < st.3.len() implies 0 <= (#[trigger] st.3[k]).0 < st.3[k].1
            < n by {
            if k < prev.3.len() {
                assert(st.3[k] == prev.3[k]);
            } else {
                assert(prev.2.len() > 0);
                assert(prev.2[prev.2.len() - 1] < n - 1);
            }
        }
    }
}

/// The open braces on the stack and the objects found so far all sit at
/// braces outside strings.
proof fn lemma_scan_objects_delimited(s: Seq<char>, n: int)
    requires
        0 <= n <= s.len(),
    ensures
        forall|k: int|
            0 <= k < scan(s, n).2.len() ==> s[#[trigger] scan(s, n).2[k]] == '{' && !scan(
                s,
                scan(s, n).2[k],
            ).0,
        forall|k: int|
            0 <= k < scan(s, n).3.len() ==> s[(#[trigger] scan(s, n).3[k]).0] == '{' && s[scan(
                s,
                n,
            ).3[k].1] == '}' && !scan(s, scan(s, n).3[k].0).0 && !scan(s, scan(s, n).3[k].1).0,
    decreases n,
{
    if n > 0 {
        lemma_scan_objects_delimited(s, n - 1);
        lemma_scan_bounds(s, n - 1);
        let prev = scan(s, n - 1);
        let st = scan(s, n);
        assert(st == scan_step(prev, n - 1, s[n - 1]));
        assert forall|k: int| 0 <= k < st.2.len() implies s[#[trigger] st.2[k]] == '{' && !scan(
            s,
            st.2[k],
        ).0 by {
            if k < prev.2.len() && !(st.2.len() == prev.2.len() + 1 && k == prev.2.len()) {
                assert(st.2[k] == prev.2[k]);
            }
        }
        assert forall|k: int| 0 <= k < st.3.len() implies s[(#[trigger] st.3[k]).0] == '{' && s[
            st.3[k].1] == '}' && !scan(s, st.3[k].0).0 && !scan(s, st.3[k].1).0 by {
            if k < prev.3.len() {
                assert(st.3[k] == prev.3[k]);
            } else {
                assert(prev.2.len() > 0);
                let top = prev.2.len() - 1;
                assert(s[prev.2[top]] == '{' && !scan(s, prev.2[top]).0);
            }
        }
    }
}

/// Braces inside strings never delimit an object: every object found opens
/// with a `{` and closes with a `}`, neither of them inside a string.
pub proof fn lemma_objects_are_delimited_outside_strings(s: Seq<char>)
    ensures
        forall|k: int|
            0 <= k < object_ranges(s).len() ==> {
                let (open, close) = #[trigger] object_ranges(s)[k];
                &&& 0 <= open < close < s.len()
                &&& s[open] == '{'
                &&& s[close] == '}'
                &&& !scan(s, open).0
                &&& !scan(s, close).0
            },
{
    lemma_scan_bounds(s, s.len() as int);
    lemma_scan_objects_delimited(s, s.len() as int);
}

/// The objects of a JSON text, as (open, close) character positions.
pub fn json_object_char_ranges(json: &[char]) -> (r: Vec<(usize, usize)>)
    ensures
        r@.map_values(|p: (usize, usize)| (p.0 as int, p.1 as int)) == object_ranges(json@),
        forall|k: int| 0 <= k < r@.len() ==> (#[trigger] r@[k]).0 < r@[k].1 < json@.len(),
{
    let mut ranges: Vec<(usize, usize)> = Vec::new();
    let mut stack: Vec<usize> = Vec::new();
    let mut in_string = false;
    let mut escaped = false;
    let mut index: usize = 0;
    while index < json.len()
        invariant
            index <= json@.len(),
            (in_string, escaped, stack@.map_values(|x: usize| x as int), ranges@.map_values(
                |p: (usize, usize)| (p.0 as int, p.1 as int),
            )) == scan(json@, index as int),
        decreases json@.len() - index,
    {
        let byte = json[index];
        let ghost before = scan(json@, index as int);
        proof {
            lemma_scan_bounds(json@, index as int);
        }
        if in_string {
            if escaped {
                escaped = false;
            } else if byte == '\\' {
                escaped = true;
            } else if byte == '"' {
                in_string = false;
            }
        } else if byte == '"' {
            in_string = true;
        } else if byte == '{' {
            stack.push(index);
            assert(stack@.map_values(|x: usize| x as int) =~= before.2.push(index as int));
        } else if byte == '}' {
            if stack.len() > 0 {
                let start = stack.pop().unwrap();
                assert(stack@.map_values(|x: usize| x as int) =~= before.2.drop_last());
                ranges.push((start, index));
                assert(ranges@.map_values(|p: (usize, usize)| (p.0 as int, p.1 as int))
                    =~= before.3.push((before.2.last(), index as int)));
            }
        }
        index = index + 1;
    }
    proof {
        lemma_scan_bounds(json@, json@.len() as int);
        let sc = scan(json@, json@.len() as int);
        let mapped = ranges@.map_values(|p: (usize, usize)| (p.0 as int, p.1 as int));
        assert(mapped == sc.3);
        assert forall|k: int| 0 <= k < ranges@.len() implies (#[trigger] ranges@[k]).0
            < ranges@[k].1 < json@.len() by {
            assert(mapped[k] == (ranges@[k].0 as int, ranges@[k].1 as int));
            assert(0 <= sc.3[k].0 < sc.3[k].1 < json@.len());
        }
    }
    ranges
}

/// The number of bytes of a character in UTF-8.
pub open spec fn utf8_width(c: char) -> nat {
    let u = c as u32;
    if u < 0x80 {
        1
    } else if u < 0x800 {
        2
    } else if u < 0x10000 {
        3
    } else {
        4
    }
}

/// The byte offset in UTF-8 of the character at position `i`.
pub open spec fn byte_offset(s: Seq<char>, i: int) -> nat
    decreases i,
{
    if i <= 0 {
        0
    } else {
        byte_offset(s, i - 1) + utf8_width(s[i - 1])
    }
}

fn utf8_width_of(c: char) -> (r: usize)
    ensures
        r == utf8_width(c),
{
    let u = c as u32;
    if u < 0x80 {
        1
    } else if u < 0x800 {
        2
    } else if u < 0x10000 {
        3
    } else {
        4
    }
}

proof fn lemma_byte_offset_grows(s: Seq<char>, i: int, j: int)
    requires
        0 <= i <= j,
    ensures
        byte_offset(s, i) <= byte_offset(s, j),
    decreases j - i,
{
    if i < j {
        lemma_byte_offset_grows(s, i, j - 1);
    }
}

/// The objects of a JSON text, as (open, close) byte offsets of their braces
/// in the text's UTF-8 encoding, in the order in which they close. A text's
/// length in bytes fits in `usize`.
pub fn json_object_ranges(json: &str) -> (r: Vec<(usize, usize)>)
    requires
        byte_offset(json@, json@.len() as int) <= usize::MAX,
    ensures
        r@.map_values(|p: (usize, usize)| (p.0 as int, p.1 as int)) == object_ranges(
            json@,
        ).map_values(|p: (int, int)| (byte_offset(json@, p.0) as int, byte_offset(json@, p.1) as int)),
{
    let chars = chars_of(json);
    let ranges = json_object_char_ranges(&chars);
    let mut offsets: Vec<usize> = Vec::new();
    let mut total: usize = 0;
    let mut i: usize = 0;
    while i < chars.len()
        invariant
            chars@ == json@,
            i <= chars@.len(),
            offsets@.len() == i,
            total == byte_offset(json@, i as int),
            byte_offset(json@, json@.len() as int) <= usize::MAX,
            forall|k: int| 0 <= k < i ==> #[trigger] offsets@[k] == byte_offset(json@, k),
        decreases chars@.len() - i,
    {
        offsets.push(total);
        proof {
            lemma_byte_offset_grows(json@, i + 1, json@.len() as int);
        }
        total = total + utf8_width_of(chars[i]);
        i = i + 1;
    }
    let ghost char_ranges = object_ranges(json@);
    let mut r: Vec<(usize, usize)> = Vec::new();
    let mut k: usize = 0;
    while k < ranges.len()
        invariant
            chars@ == json@,
            offsets@.len() == json@.len(),
            forall|j: int| 0 <= j < json@.len() ==> #[trigger] offsets@[j] == byte_offset(json@, j),
            ranges@.map_values(|p: (usize, usize)| (p.0 as int, p.1 as int)) == char_ranges,
            forall|j: int| 0 <= j < ranges@.len() ==> (#[trigger] ranges@[j]).0 < ranges@[j].1 < json@.len(),
            k <= ranges@.len(),
            r@.map_values(|p: (usize, usize)| (p.0 as int, p.1 as int)) == char_ranges.take(
                k as int,
            ).map_values(|p: (int, int)| (byte_offset(json@, p.0) as int, byte_offset(json@, p.1) as int)),
        decreases ranges@.len() - k,
    {
        let (open, close) = ranges[k];
        let ghost before = r@.map_values(|p: (usize, usize)| (p.0 as int, p.1 as int));
        r.push((offsets[open], offsets[close]));
        proof {
            assert(char_ranges[k as int] == (open as int, close as int));
            assert(r@.map_values(|p: (usize, usize)| (p.0 as int, p.1 as int)) =~= before.push(
                (byte_offset(json@, open as int) as int, byte_offset(json@, close as int) as int),
            ));
            assert(char_ranges.take(k + 1) =~= char_ranges.take(k as int).push(char_ranges[k as int]));
            assert(char_ranges.take(k + 1).map_values(|p: (int, int)| (byte_offset(json@, p.0) as int, byte_offset(json@, p.1) as int))
                =~= char_ranges.take(k as int).map_values(|p: (int, int)| (byte_offset(json@, p.0) as int, byte_offset(json@, p.1) as int)).push(
                (byte_offset(json@, open as int) as int, byte_offset(json@, close as int) as int)));
        }
        k = k + 1;
    }
    proof {
        assert(char_ranges.take(ranges@.len() as int) =~= char_ranges);
    }
    r
}

/// `"name"`: the key of a field.
pub open spec fn field_marker(field: Seq<char>) -> Seq<char> {
    seq!['"'] + field + seq!['"']
}

pub(crate) fn marker_of(field: &[char]) -> (r: Vec<char>)
    ensures
        r@ == field_marker(field@),
{
    let mut r: Vec<char> = Vec::new();
    r.push('"');
    let mut i: usize = 0;
    while i < field.len()
        invariant
            i <= field@.len(),
            r@ == seq!['"'] + field@.take(i as int),
        decreases field@.len() - i,
    {
        r.push(field[i]);
        assert(seq!['"'] + field@.take(i + 1) =~= (seq!['"'] + field@.take(i as int)).push(
            field@[i as int],
        ));
        i = i + 1;
    }
    r.push('"');
    assert(field@.take(field@.len() as int) =~= field@);
    assert(r@ =~= field_marker(field@));
    r
}

/// The text after the first `"name"` and the colon that follows it, with
/// leading white space removed.
pub open spec fn field_value(s: Seq<char>, field: Seq<char>) -> Option<Seq<char>> {
    match split_once(s, field_marker(field)) {
        Some((_, after)) => match split_once(after, seq![':']) {
            Some((_, value)) => Some(trim_start(value)),
            None => None,
        },
        None => None,
    }
}

fn field_value_chars(s: &[char], field: &[char]) -> (r: Option<Vec<char>>)
    ensures
        match field_value(s@, field@) {
            Some(v) => r matches Some(x) && x@ == v,
            None => r is None,
        },
{
    let marker = marker_of(field);
    let after = match split_once_chars(s, &marker) {
        Some((_, after)) => after,
        None => {
            return None;
        },
    };
    let colon = vec![':'];
    assert(colon@ =~= seq![':']);
    let value = match split_once_chars(&after, &colon) {
        Some((_, value)) => value,
        None => {
            return None;
        },
    };
    Some(trimmed_start(&value))
}

/// The characters of a string literal whose opening quote was consumed,
/// from position `i` on: escaped characters are taken as they are, and the
/// literal ends at an unescaped quote; `None` if it never ends.
pub open spec fn read_string(v: Seq<char>, i: int, escaped: bool, acc: Seq<char>) -> Option<Seq<char>>
    decreases v.len() - i,
{
    if i < 0 || i >= v.len() {
        None
    } else {
        let c = v[i];
        if escaped {
            read_string(v, i + 1, false, acc.push(c))
        } else if c == '\\' {
            read_string(v, i + 1, true, acc)
        } else if c == '"' {
            Some(acc)
        } else {
            read_string(v, i + 1, false, acc.push(c))
        }
    }
}

/// The string value of the first field named `field`.
pub open spec fn string_field(s: Seq<char>, field: Seq<char>) -> Option<Seq<char>> {
    match field_value(s, field) {
        Some(v) => if v.len() > 0 && v[0] == '"' {
            read_string(v, 1, false, Seq::empty())
        } else {
            None
        },
        None => None,
    }
}

/// The string value of the first field named `field`.
pub fn json_string_field(object: &[char], field: &[char]) -> (r: Option<Vec<char>>)
    ensures
        match string_field(object@, field@) {
            Some(v) => r matches Some(x) && x@ == v,
            None => r is None,
        },
{
    let value = match field_value_chars(object, field) {
        Some(v) => v,
        None => {
            return None;
        },
    };
    if value.len() == 0 || value[0] != '"' {
        return None;
    }
    let mut result: Vec<char> = Vec::new();
    let mut escaped = false;
    let mut i: usize = 1;
    while i < value.len()
        invariant
            1 <= i <= value@.len(),
            value@.len() > 0 && value@[0] == '"',
            field_value(object@, field@) == Some(value@),
            read_string(value@, 1, false, Seq::empty()) == read_string(
                value@,
                i as int,
                escaped,
                result@,
            ),
        decreases value@.len() - i,
    {
        let character = value[i];
        if escaped {
            result.push(character);
            escaped = false;
        } else if character == '\\' {
            escaped = true;
        } else if character == '"' {
            assert(read_string(value@, i as int, false, result@) == Some(result@));
            return Some(result);
        } else {
            result.push(character);
        }
        i = i + 1;
    }
    None
}

/// The boolean value of the first field named `field`.
pub open spec fn bool_field(s: Seq<char>, field: Seq<char>) -> Option<bool> {
    match field_value(s, field) {
        Some(v) => if has_prefix(v, "true"@) {
            Some(true)
        } else if has_prefix(v, "false"@) {
            Some(false)
        } else {
            None
        },
        None => None,
    }
}

/// The boolean value of the first field named `field`.
pub fn json_bool_field(object: &[char], field: &[char]) -> (r: Option<bool>)
    ensures
        r == bool_field(object@, field@),
{
    let value = match field_value_chars(object, field) {
        Some(v) => v,
        None => {
            return None;
        },
    };
    if starts_with_chars(&value, &chars_of("true")) {
        Some(true)
    } else if starts_with_chars(&value, &chars_of("false")) {
        Some(false)
    } else {
        None
    }
}

/// An ASCII digit.
pub open spec fn is_digit(c: char) -> bool {
    '0' <= c <= '9'
}

/// How many ASCII digits the text starts with.
pub open spec fn leading_digits(v: Seq<char>) -> nat
    decreases v.len(),
{
    if v.len() > 0 && is_digit(v[0]) {
        1 + leading_digits(v.drop_first())
    } else {
        0
    }
}

/// The decimal value of a sequence of digits.
pub open spec fn digits_value(d: Seq<char>) -> nat
    decreases d.len(),
{
    if d.len() == 0 {
        0
    } else {
        digits_value(d.drop_last()) * 10 + ((d.last() as u32) - ('0' as u32)) as nat
    }
}

/// `str::parse::<usize>` of a sequence of digits: `None` when it is empty or
/// too large.
pub open spec fn parse_digits(d: Seq<char>) -> Option<usize> {
    if d.len() > 0 && digits_value(d) <= usize::MAX {
        Some(digits_value(d) as usize)
    } else {
        None
    }
}

/// `str::parse::<usize>`: one optional `+`, then at least one digit, and
/// nothing else.
pub open spec fn parse_usize(s: Seq<char>) -> Option<usize> {
    let d = without_plus(s);
    if all_digits(d) {
        parse_digits(d)
    } else {
        None
    }
}

/// The text without one leading `+`.
pub open spec fn without_plus(s: Seq<char>) -> Seq<char> {
    if s.len() > 0 && s[0] == '+' {
        s.drop_first()
    } else {
        s
    }
}

/// Every character is an ASCII digit.
pub open spec fn all_digits(d: Seq<char>) -> bool {
    forall|i: int| 0 <= i < d.len() ==> is_digit(#[trigger] d[i])
}

proof fn lemma_digits_value_grows(d: Seq<char>, i: int, j: int)
    requires
        0 <= i <= j <= d.len(),
        forall|k: int| 0 <= k < d.len() ==> is_digit(#[trigger] d[k]),
    ensures
        digits_value(d.take(i)) <= digits_value(d.take(j)),
    decreases j - i,
{
    if i < j {
        lemma_digits_value_grows(d, i, j - 1);
        assert(d.take(j).drop_last() =~= d.take(j - 1));
        assert(is_digit(d[j - 1]));
    }
}

/// The value of a sequence of digits, if it fits.
pub fn parse_digit_chars(d: &[char]) -> (r: Option<usize>)
    requires
        forall|k: int| 0 <= k < d@.len() ==> is_digit(#[trigger] d@[k]),
    ensures
        r == parse_digits(d@),
{
    if d.len() == 0 {
        return None;
    }
    let mut value: usize = 0;
    let mut i: usize = 0;
    while i < d.len()
        invariant
            i <= d@.len(),
            forall|k: int| 0 <= k < d@.len() ==> is_digit(#[trigger] d@[k]),
            value == digits_value(d@.take(i as int)),
        decreases d@.len() - i,
    {
        assert(d@.take(i + 1).drop_last() =~= d@.take(i as int));
        assert(is_digit(d@[i as int]));
        let digit = (d[i] as u32 - '0' as u32) as usize;
        if value > (usize::MAX - digit) / 10 {
            proof {
                lemma_digits_value_grows(d@, i + 1, d@.len() as int);
                assert(d@.take(d@.len() as int) =~= d@);
                assert(value * 10 + digit > usize::MAX) by (nonlinear_arith)
                    requires
                        value > (usize::MAX - digit) / 10,
                        digit <= 9,
                ;
            }
            return None;
        }
        assert(value * 10 + digit <= usize::MAX) by (nonlinear_arith)
            requires
                value <= (usize::MAX - digit) / 10,
                digit <= 9,
        ;
        value = value * 10 + digit;
        i = i + 1;
    }
    assert(d@.take(d@.len() as int) =~= d@);
    Some(value)
}

/// `str::parse::<usize>`.
pub fn parse_usize_chars(s: &[char]) -> (r: Option<usize>)
    ensures
        r == parse_usize(s@),
{
    let d = if s.len() > 0 && s[0] == '+' {
        slice_chars(s, 1, s.len())
    } else {
        slice_chars(s, 0, s.len())
    };
    assert(d@ =~= (if s@.len() > 0 && s@[0] == '+' {
        s@.drop_first()
    } else {
        s@
    }));
    let mut i: usize = 0;
    while i < d.len()
        invariant
            i <= d@.len(),
            forall|k: int| 0 <= k < i ==> is_digit(#[trigger] d@[k]),
            d@ == without_plus(s@),
        decreases d@.len() - i,
    {
        if !('0' <= d[i] && d[i] <= '9') {
            assert(!is_digit(d@[i as int]));
            assert(!all_digits(d@));
            return None;
        }
        i = i + 1;
    }
    parse_digit_chars(&d)
}

/// The number of leading digits.
fn leading_digit_count(v: &[char]) -> (r: usize)
    ensures
        r == leading_digits(v@),
        r <= v@.len(),
        forall|k: int| 0 <= k < r ==> is_digit(#[trigger] v@[k]),
{
    let mut i: usize = 0;
    assert(v@.skip(0) =~= v@);
    while i < v.len() && '0' <= v[i] && v[i] <= '9'
        invariant
            i <= v@.len(),
            forall|k: int| 0 <= k < i ==> is_digit(#[trigger] v@[k]),
            leading_digits(v@) == i + leading_digits(v@.skip(i as int)),
        decreases v@.len() - i,
    {
        assert(v@.skip(i as int).drop_first() =~= v@.skip(i + 1));
        i = i + 1;
    }
    proof {
        let t = v@.skip(i as int);
        if t.len() > 0 {
            assert(t[0] == v@[i as int]);
        }
    }
    i
}

/// The number value of the first field named `field`: its leading digits.
pub open spec fn usize_field(s: Seq<char>, field: Seq<char>) -> Option<usize> {
    match field_value(s, field) {
        Some(v) => parse_digits(v.take(leading_digits(v) as int)),
        None => None,
    }
}

/// The number value of the first field named `field`.
pub fn json_usize_field(json: &[char], field: &[char]) -> (r: Option<usize>)
    ensures
        r == usize_field(json@, field@),
{
    let value = match field_value_chars(json, field) {
        Some(v) => v,
        None => {
            return None;
        },
    };
    let n = leading_digit_count(&value);
    let digits = slice_chars(&value, 0, n);
    assert(digits@ =~= value@.take(n as int));
    parse_digit_chars(&digits)
}

/// The strings of an array whose `[` was consumed, from position `i` on;
/// the array ends at the first `]` outside a string, `None` if it never does.
pub open spec fn read_array(
    v: Seq<char>,
    i: int,
    in_string: bool,
    escaped: bool,
    current: Seq<char>,
    strings: Seq<Seq<char>>,
) -> Option<Seq<Seq<char>>>
    decreases v.len() - i,
{
    if i < 0 || i >= v.len() {
        None
    } else {
        let c = v[i];
        if in_string {
            if escaped {
                read_array(v, i + 1, true, false, current.push(c), strings)
            } else if c == '\\' {
                read_array(v, i + 1, true, true, current, strings)
            } else if c == '"' {
                read_array(v, i + 1, false, false, Seq::empty(), strings.push(current))
            } else {
                read_array(v, i + 1, true, false, current.push(c), strings)
            }
        } else if c == '"' {
            read_array(v, i + 1, true, escaped, current, strings)
        } else if c == ']' {
            Some(strings)
        } else {
            read_array(v, i + 1, false, escaped, current, strings)
        }
    }
}

/// The strings of the array value of the first field named `field`.
pub open spec fn string_array_field(s: Seq<char>, field: Seq<char>) -> Option<Seq<Seq<char>>> {
    match field_value(s, field) {
        Some(v) => if v.len() > 0 && v[0] == '[' {
            read_array(v, 1, false, false, Seq::empty(), Seq::empty())
        } else {
            None
        },
        None => None,
    }
}

/// The strings of the array value of the first field named `field`.
pub fn json_string_array_field(json: &[char], field: &[char]) -> (r: Option<Vec<Vec<char>>>)
    ensures
        match string_array_field(json@, field@) {
            Some(v) => r matches Some(x) && x@.map_values(|e: Vec<char>| e@) == v,
            None => r is None,
        },
{
    let value = match field_value_chars(json, field) {
        Some(v) => v,
        None => {
            return None;
        },
    };
    if value.len() == 0 || value[0] != '[' {
        return None;
    }
    let mut strings: Vec<Vec<char>> = Vec::new();
    let mut current: Vec<char> = Vec::new();
    let mut in_string = false;
    let mut escaped = false;
    let mut i: usize = 1;
    assert(strings@.map_values(|e: Vec<char>| e@) =~= Seq::<Seq<char>>::empty());
    assert(current@ =~= Seq::<char>::empty());
    while i < value.len()
        invariant
            1 <= i <= value@.len(),
            value@.len() > 0 && value@[0] == '[',
            field_value(json@, field@) == Some(value@),
            read_array(value@, 1, false, false, Seq::empty(), Seq::empty()) == read_array(
                value@,
                i as int,
                in_string,
                escaped,
                current@,
                strings@.map_values(|e: Vec<char>| e@),
            ),
        decreases value@.len() - i,
    {
        let character = value[i];
        let ghost before = strings@.map_values(|e: Vec<char>| e@);
        if in_string {
            if escaped {
                current.push(character);
                escaped = false;
            } else if character == '\\' {
                escaped = true;
            } else if character == '"' {
                let done = current;
                current = Vec::new();
                let ghost d = done@;
                strings.push(done);
                assert(strings@.map_values(|e: Vec<char>| e@) =~= before.push(d));
                in_string = false;
            } else {
                current.push(character);
            }
        } else if character == '"' {
            in_string = true;
        } else if character == ']' {
            return Some(strings);
        }
        i = i + 1;
    }
    None
}

/// The positions of the non-overlapping occurrences of `p` in `s` from `i`
/// on, left to right (`str::match_indices`; `p` is never empty here).
pub open spec fn match_positions(s: Seq<char>, p: Seq<char>, i: int) -> Seq<int>
    decreases s.len() + 1 - i,
{
    if p.len() == 0 || i < 0 {
        Seq::empty()
    } else {
        match crate::text::find_from(s, p, i) {
            Some(k) => {
                proof {
                    lemma_find_from_bounds(s, p, i);
                }
                seq![k] + match_positions(s, p, k + p.len())
            },
            None => Seq::empty(),
        }
    }
}

/// Among the first `n` objects, the smallest one around position `pos`
/// (the first of equally small ones).
pub open spec fn smallest_enclosing(ranges: Seq<(int, int)>, pos: int, n: int) -> Option<(int, int)>
    decreases n,
{
    if n <= 0 {
        None
    } else {
        let best = smallest_enclosing(ranges, pos, n - 1);
        let r = ranges[n - 1];
        if r.0 < pos && pos < r.1 {
            match best {
                Some(b) => if r.1 - r.0 < b.1 - b.0 {
                    Some(r)
                } else {
                    best
                },
                None => Some(r),
            }
        } else {
            best
        }
    }
}

} // verus!
