//! Decisions of the shortcut keyboard, which types through a kernel input
//! device: which modifier keys to release and press so that exactly the wanted
//! ones are held, and the input events that make up each key transition.
use vstd::prelude::*;
use vstd::std_specs::btree::{
    axiom_increasing_seq_meaning, axiom_spec_btree_keys_iter, increasing_seq, spec_btree_keys_iter,
};
use vstd::std_specs::iter::IteratorSpec;
use vstd::laws_cmp::obeys_cmp;
use vstd::std_specs::cmp::OrdSpec;

use std::collections::BTreeSet;

verus! {

/// Strictly ascending: sorted, and nothing occurs twice.
pub open spec fn ascending(s: Seq<u32>) -> bool {
    forall|i: int, j: int| 0 <= i < j < s.len() ==> s[i] < s[j]
}

fn contains_code(s: &[u32], x: u32) -> (r: bool)
    ensures
        r == s@.contains(x),
{
    let mut i: usize = 0;
    while i < s.len()
        invariant
            i <= s@.len(),
            forall|j: int| 0 <= j < i ==> s@[j] != x,
        decreases s@.len() - i,
    {
        if s[i] == x {
            assert(s@[i as int] == x);
            return true;
        }
        i = i + 1;
    }
    false
}

/// The codes of `src` (strictly ascending) that `excluded` does not hold, in
/// ascending order.
fn ascending_without(src: &Vec<u32>, excluded: &[u32]) -> (r: Vec<u32>)
    requires
        ascending(src@),
    ensures
        ascending(r@),
        forall|y: u32| #[trigger] r@.contains(y) <==> (src@.contains(y) && !excluded@.contains(y)),
{
    let mut r: Vec<u32> = Vec::new();
    let mut i: usize = 0;
    while i < src.len()
        invariant
            ascending(src@),
            i <= src@.len(),
            ascending(r@),
            forall|k: int, j: int| 0 <= k < r@.len() && i <= j < src@.len() ==> r@[k] < src@[j],
            forall|y: u32| #[trigger]
                r@.contains(y) <==> (src@.subrange(0, i as int).contains(y) && !excluded@.contains(
                    y,
                )),
        decreases src@.len() - i,
    {
        let c = src[i];
        let ghost before = r@;
        if !contains_code(excluded, c) {
            r.push(c);
        }
        proof {
            assert forall|y: u32| #[trigger]
                src@.subrange(0, i + 1).contains(y) <==> (src@.subrange(0, i as int).contains(y)
                    || y == c) by {
                if src@.subrange(0, i + 1).contains(y) {
                    let k = choose|k: int| 0 <= k < i + 1 && #[trigger] src@.subrange(0, i + 1)[k] == y;
                    if k < i {
                        assert(src@.subrange(0, i as int)[k] == y);
                    }
                }
                if src@.subrange(0, i as int).contains(y) {
                    let k = choose|k: int| 0 <= k < i && #[trigger] src@.subrange(0, i as int)[k] == y;
                    assert(src@.subrange(0, i + 1)[k] == y);
                }
                if y == c {
                    assert(src@.subrange(0, i + 1)[i as int] == y);
                }
            }
            assert forall|y: u32| #[trigger] r@.contains(y) <==> (before.contains(y) || (y == c
                && !excluded@.contains(c))) by {
                if r@.contains(y) {
                    let k = choose|k: int| 0 <= k < r@.len() && #[trigger] r@[k] == y;
                    if k < before.len() {
                        assert(before[k] == y);
                    }
                }
                if before.contains(y) {
                    let k = choose|k: int| 0 <= k < before.len() && #[trigger] before[k] == y;
                    assert(r@[k] == y);
                }
                if y == c && !excluded@.contains(c) {
                    assert(r@[r@.len() - 1] == y);
                }
            }
        }
        i = i + 1;
    }
    assert(src@.subrange(0, src@.len() as int) =~= src@);
    r
}

/// The codes of a set in ascending order.
fn sorted_codes(set: &BTreeSet<u32>) -> (r: Vec<u32>)
    ensures
        ascending(r@),
        r@.to_set() == set@,
{
    broadcast use vstd::std_specs::btree::group_btree_axioms;
    broadcast use vstd::laws_cmp::group_laws_cmp;

    let ghost keys = spec_btree_keys_iter(set).remaining().unref();
    proof {
        axiom_spec_btree_keys_iter(set);
    }
    let mut r: Vec<u32> = Vec::new();
    for c in it: set.iter()
        invariant
            it.seq() == spec_btree_keys_iter(set).remaining(),
            keys == it.seq().unref(),
            r@ == keys.take(it.index()),
    {
        r.push(*c);
        assert(keys.take(it.index() + 1) =~= keys.take(it.index()).push(*c));
    }
    assert(r@ =~= keys);
    proof {
        let s = spec_btree_keys_iter(set).remaining();
        assert(obeys_cmp::<u32>());
        assert(obeys_cmp::<&u32>());
        assert(increasing_seq(s));
        axiom_increasing_seq_meaning::<&u32>(s);
        assert(r@.len() == s.len());
        assert forall|i: int, j: int| 0 <= i < j < r@.len() implies r@[i] < r@[j] by {
            assert(OrdSpec::cmp_spec(&s[i], &s[j]) is Less);
            assert(r@[i] == *s[i] && r@[j] == *s[j]);
        }
    }
    r
}

/// Key codes compare as integers do, as `BTreeSet` needs.
proof fn lemma_codes_are_ordered()
    ensures
        obeys_cmp::<u32>(),
{
    broadcast use vstd::laws_cmp::group_laws_cmp;

}

/// The modifier keys that the shortcut device holds down.
pub struct HeldModifiers {
    codes: BTreeSet<u32>,
}

impl View for HeldModifiers {
    type V = Set<u32>;

    closed spec fn view(&self) -> Set<u32> {
        self.codes@
    }
}

impl HeldModifiers {
    /// No key is held.
    pub fn new() -> (r: Self)
        ensures
            r@ == Set::<u32>::empty(),
    {
        HeldModifiers { codes: BTreeSet::new() }
    }

    /// Whether the key `code` is held.
    pub fn holds(&self, code: u32) -> (r: bool)
        ensures
            r == self@.contains(code),
    {
        broadcast use vstd::std_specs::btree::group_btree_axioms;
        broadcast use vstd::laws_cmp::group_laws_cmp;

        self.codes.contains(&code)
    }

    /// The held keys that are not wanted, in ascending order: to be released.
    pub fn releases(&self, wanted: &[u32]) -> (r: Vec<u32>)
        ensures
            ascending(r@),
            r@.to_set() == self@.difference(wanted@.to_set()),
    {
        let held = sorted_codes(&self.codes);
        let r = ascending_without(&held, wanted);
        assert(r@.to_set() =~= self@.difference(wanted@.to_set()));
        r
    }

    /// The wanted keys that are not held, in ascending order, each once: to
    /// be pressed.
    pub fn presses(&self, wanted: &[u32]) -> (r: Vec<u32>)
        ensures
            ascending(r@),
            r@.to_set() == wanted@.to_set().difference(self@),
    {
        proof {
            lemma_codes_are_ordered();
        }
        let mut wanted_set: BTreeSet<u32> = BTreeSet::new();
        let mut i: usize = 0;
        while i < wanted.len()
            invariant
                i <= wanted@.len(),
                wanted_set@ == wanted@.subrange(0, i as int).to_set(),
            decreases wanted@.len() - i,
        {
            wanted_set.insert(wanted[i]);
            proof {
                assert(wanted@.subrange(0, i + 1) =~= wanted@.subrange(0, i as int).push(
                    wanted@[i as int],
                ));
                assert(wanted_set@ =~= wanted@.subrange(0, i + 1).to_set()) by {
                    assert forall|y: u32|
                        #![trigger wanted@.subrange(0, i + 1).contains(y)]
                        wanted@.subrange(0, i + 1).contains(y) <==> (wanted@.subrange(
                            0,
                            i as int,
                        ).contains(y) || y == wanted@[i as int]) by {
                        if wanted@.subrange(0, i + 1).contains(y) {
                            let k = choose|k: int|
                                0 <= k < i + 1 && #[trigger] wanted@.subrange(0, i + 1)[k] == y;
                            if k < i {
                                assert(wanted@.subrange(0, i as int)[k] == y);
                            }
                        }
                        if wanted@.subrange(0, i as int).contains(y) {
                            let k = choose|k: int|
                                0 <= k < i && #[trigger] wanted@.subrange(0, i as int)[k] == y;
                            assert(wanted@.subrange(0, i + 1)[k] == y);
                        }
                        if y == wanted@[i as int] {
                            assert(wanted@.subrange(0, i + 1)[i as int] == y);
                        }
                    }
                }
            }
            i = i + 1;
        }
        assert(wanted@.subrange(0, wanted@.len() as int) =~= wanted@);
        let sorted = sorted_codes(&wanted_set);
        let held = sorted_codes(&self.codes);
        let r = ascending_without(&sorted, &held);
        assert(r@.to_set() =~= wanted@.to_set().difference(self@));
        r
    }

    /// Records that the key `code` was released.
    pub fn release(&mut self, code: u32)
        ensures
            final(self)@ == old(self)@.remove(code),
    {
        broadcast use vstd::std_specs::btree::group_btree_axioms;
        broadcast use vstd::laws_cmp::group_laws_cmp;

        self.codes.remove(&code);
    }

    /// Records that the key `code` was pressed.
    pub fn press(&mut self, code: u32)
        ensures
            final(self)@ == old(self)@.insert(code),
    {
        broadcast use vstd::std_specs::btree::group_btree_axioms;
        broadcast use vstd::laws_cmp::group_laws_cmp;

        self.codes.insert(code);
    }
}

/// Releasing what `releases` names and pressing what `presses` names leaves
/// exactly the wanted keys held, whatever was held before.
pub proof fn lemma_transitions_reach_wanted(
    held: Set<u32>,
    wanted: Set<u32>,
    released: Set<u32>,
    pressed: Set<u32>,
)
    requires
        released == held.difference(wanted),
        pressed == wanted.difference(held),
    ensures
        held.difference(released).union(pressed) == wanted,
        released.disjoint(pressed),
{
    assert(held.difference(released).union(pressed) =~= wanted);
}

/// Event type of a key transition.
pub const EV_KEY: u16 = 1;

/// Event type of a frame end; its `SYN_REPORT` code is 0.
pub const EV_SYN: u16 = 0;

/// One kernel input event, without its timestamp.
#[derive(Clone, Copy, Debug, PartialEq, Eq, Structural)]
pub struct InputEvent {
    pub kind: u16,
    pub code: u16,
    pub value: i32,
}

/// The events of one key transition: the key event (value 1 for a press, 0
/// for a release), then a frame end, so that every transition is a frame of
/// its own. Key codes are carried in 16 bits.
pub open spec fn transition_events(code: u32, pressed: bool) -> Seq<InputEvent> {
    seq![
        InputEvent {
            kind: EV_KEY,
            code: code as u16,
            value: if pressed {
                1
            } else {
                0
            },
        },
        InputEvent { kind: EV_SYN, code: 0, value: 0 },
    ]
}

/// The events to write for pressing or releasing the key `code`.
pub fn key_transition(code: u32, pressed: bool) -> (r: Vec<InputEvent>)
    ensures
        r@ == transition_events(code, pressed),
{
    let key = InputEvent {
        kind: EV_KEY,
        code: code as u16,
        value: if pressed {
            1
        } else {
            0
        },
    };
    let r = vec![key, InputEvent { kind: EV_SYN, code: 0, value: 0 }];
    assert(r@ =~= transition_events(code, pressed));
    r
}

/// The bytes of a 16-bit value, least significant first.
pub open spec fn le_bytes16(v: u16) -> Seq<u8> {
    seq![(v % 256) as u8, (v / 256) as u8]
}

/// The bytes of a 32-bit value, least significant first.
pub open spec fn le_bytes32(v: u32) -> Seq<u8> {
    seq![(v % 256) as u8, ((v / 256) % 256) as u8, ((v / 65536) % 256) as u8, (v / 16777216) as u8]
}

/// A 16-bit value in either byte order.
pub open spec fn native16(bytes: Seq<u8>, v: u16) -> bool {
    bytes == le_bytes16(v) || bytes == le_bytes16(v).reverse()
}

/// A 32-bit value in either byte order.
pub open spec fn native32(bytes: Seq<u8>, v: u32) -> bool {
    bytes == le_bytes32(v) || bytes == le_bytes32(v).reverse()
}

/// `u16::to_ne_bytes`: the value in the machine's byte order, which is
/// little- or big-endian; which one is not stated.
#[verifier::external_body]
fn u16_native_bytes(v: u16) -> (r: [u8; 2])
    ensures
        native16(r@, v),
{
    v.to_ne_bytes()
}

/// `i32::to_ne_bytes`: the two's-complement value in the machine's byte
/// order, which is little- or big-endian; which one is not stated.
#[verifier::external_body]
fn i32_native_bytes(v: i32) -> (r: [u8; 4])
    ensures
        native32(r@, v as u32),
{
    v.to_ne_bytes()
}

#[verifier::external_type_specification]
#[verifier::external_body]
pub struct ExInputEvent(libc::input_event);

/// The size of the kernel's event record on this machine.
pub open spec fn record_size() -> nat {
    vstd::layout::size_of::<libc::input_event>()
}

/// Where the record's fields start: after a timestamp of two native longs.
pub open spec fn fields_start() -> nat {
    2 * vstd::layout::size_of::<libc::c_long>()
}

/// `bytes` is an event record whose fields (type, code, value; 8 bytes)
/// start at `start`, with every other byte zero.
pub open spec fn event_record(
    bytes: Seq<u8>,
    start: int,
    kind: Seq<u8>,
    code: Seq<u8>,
    value: Seq<u8>,
) -> bool {
    &&& 0 <= start
    &&& start + 8 <= bytes.len()
    &&& bytes.subrange(start, start + 2) == kind
    &&& bytes.subrange(start + 2, start + 4) == code
    &&& bytes.subrange(start + 4, start + 8) == value
    &&& forall|i: int| 0 <= i < bytes.len() && !(start <= i < start + 8) ==> bytes[i] == 0
}

/// Lays out an event record of `size` bytes with the fields at `start`.
pub fn layout_event(size: usize, start: usize, kind: [u8; 2], code: [u8; 2], value: [u8; 4]) -> (r:
    Vec<u8>)
    requires
        start + 8 <= size,
    ensures
        r@.len() == size,
        event_record(r@, start as int, kind@, code@, value@),
{
    let mut r: Vec<u8> = Vec::new();
    let mut i: usize = 0;
    while i < size
        invariant
            start + 8 <= size,
            i <= size,
            r@.len() == i,
            forall|j: int| 0 <= j < i && !(start <= j < start + 8) ==> r@[j] == 0,
            forall|j: int| start <= j < i && j < start + 2 ==> r@[j] == kind@[j - start],
            forall|j: int| start + 2 <= j < i && j < start + 4 ==> r@[j] == code@[j - start - 2],
            forall|j: int| start + 4 <= j < i && j < start + 8 ==> r@[j] == value@[j - start - 4],
        decreases size - i,
    {
        let b: u8 = if i < start || i >= start + 8 {
            0
        } else if i < start + 2 {
            kind[i - start]
        } else if i < start + 4 {
            code[i - start - 2]
        } else {
            value[i - start - 4]
        };
        r.push(b);
        i = i + 1;
    }
    assert(r@.subrange(start as int, start + 2) =~= kind@);
    assert(r@.subrange(start + 2, start + 4) =~= code@);
    assert(r@.subrange(start + 4, start + 8) =~= value@);
    r
}

/// The bytes of `event` at `start`: its type and code in one byte order
/// each, its value in two's complement.
pub open spec fn event_at(bytes: Seq<u8>, start: int, event: InputEvent) -> bool {
    &&& 0 <= start
    &&& start + 8 <= bytes.len()
    &&& native16(bytes.subrange(start, start + 2), event.kind)
    &&& native16(bytes.subrange(start + 2, start + 4), event.code)
    &&& native32(bytes.subrange(start + 4, start + 8), event.value as u32)
    &&& forall|i: int| 0 <= i < bytes.len() && !(start <= i < start + 8) ==> bytes[i] == 0
}

/// The bytes of one event as the kernel reads it: a timestamp of two native
/// longs, left zero (the kernel stamps the event), then type, code and value
/// in the machine's byte order, the rest of the record zero. `None` where the
/// machine's record has no room for that layout.
pub fn event_bytes(event: InputEvent) -> (r: Option<Vec<u8>>)
    ensures
        (r is Some) == (fields_start() + 8 <= record_size()),
        match r {
            Some(bytes) => bytes@.len() == record_size() && event_at(
                bytes@,
                fields_start() as int,
                event,
            ),
            None => true,
        },
{
    let size = core::mem::size_of::<libc::input_event>();
    let first = match core::mem::size_of::<libc::c_long>().checked_mul(2) {
        Some(start) => start,
        None => {
            return None;
        },
    };
    match first.checked_add(8) {
        Some(end) => if end > size {
            return None;
        },
        None => {
            return None;
        },
    }
    let kind_bytes = u16_native_bytes(event.kind);
    let code_bytes = u16_native_bytes(event.code);
    let value_bytes = i32_native_bytes(event.value);
    let record = layout_event(size, first, kind_bytes, code_bytes, value_bytes);
    Some(record)
}

/// The records to write for pressing or releasing the key `code`: one per
/// event of the transition, in order, each written whole in its own write.
/// `None` where the machine's record has no room for the fields.
pub fn key_records(code: u32, pressed: bool) -> (r: Option<Vec<Vec<u8>>>)
    ensures
        (r is Some) == (fields_start() + 8 <= record_size()),
        match r {
            Some(records) => records@.len() == transition_events(code, pressed).len() && forall|
                i: int,
            |
                0 <= i < records@.len() ==> #[trigger] records@[i]@.len() == record_size()
                    && event_at(
                    records@[i]@,
                    fields_start() as int,
                    transition_events(code, pressed)[i],
                ),
            None => true,
        },
{
    let events = key_transition(code, pressed);
    let mut records: Vec<Vec<u8>> = Vec::new();
    let mut i: usize = 0;
    while i < events.len()
        invariant
            i <= events@.len(),
            events@ == transition_events(code, pressed),
            fields_start() + 8 <= record_size() || i == 0,
            records@.len() == i,
            forall|k: int|
                0 <= k < i ==> #[trigger] records@[k]@.len() == record_size() && event_at(
                    records@[k]@,
                    fields_start() as int,
                    events@[k],
                ),
        decreases events@.len() - i,
    {
        match event_bytes(events[i]) {
            Some(bytes) => records.push(bytes),
            None => {
                return None;
            },
        }
        i = i + 1;
    }
    Some(records)
}

} // verus!
