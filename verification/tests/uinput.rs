use waylandkb::uinput::{
    event_bytes, key_records, key_transition, HeldModifiers, InputEvent, EV_KEY, EV_SYN,
};

/// Appends the records of a key transition, as the device writer does.
fn write_key(bytes: &mut Vec<u8>, code: u32, pressed: bool) -> Option<()> {
    for record in key_records(code, pressed)? {
        bytes.extend(record);
    }
    Some(())
}

#[test]
fn every_key_transition_has_a_syn_report() {
    let mut bytes = Vec::new();
    write_key(&mut bytes, 57, true).unwrap();
    write_key(&mut bytes, 57, false).unwrap();
    let size = std::mem::size_of::<libc::input_event>();
    assert_eq!(bytes.len(), 4 * size);
    let events: Vec<_> = bytes
        .chunks_exact(size)
        .map(|event| {
            let start = 2 * std::mem::size_of::<libc::c_long>();
            (
                u16::from_ne_bytes(event[start..start + 2].try_into().unwrap()),
                u16::from_ne_bytes(event[start + 2..start + 4].try_into().unwrap()),
                i32::from_ne_bytes(event[start + 4..start + 8].try_into().unwrap()),
            )
        })
        .collect();
    assert_eq!(events, [(1, 57, 1), (0, 0, 0), (1, 57, 0), (0, 0, 0)]);
}

#[test]
fn event_records_leave_the_timestamp_zero() {
    let bytes = event_bytes(InputEvent {
        kind: EV_KEY,
        code: 42,
        value: -1,
    })
    .unwrap();
    let start = 2 * std::mem::size_of::<libc::c_long>();
    assert!(bytes[..start].iter().all(|b| *b == 0));
    assert_eq!(
        i32::from_ne_bytes(bytes[start + 4..start + 8].try_into().unwrap()),
        -1
    );
}

#[test]
fn key_transitions_are_one_frame_each() {
    assert_eq!(
        key_transition(29, true),
        vec![
            InputEvent { kind: EV_KEY, code: 29, value: 1 },
            InputEvent { kind: EV_SYN, code: 0, value: 0 },
        ]
    );
    assert_eq!(key_transition(29, false)[0].value, 0);
}

#[test]
fn modifier_changes_release_unwanted_then_press_missing() {
    let mut held = HeldModifiers::new();
    assert!(held.releases(&[42, 29]).is_empty());
    assert_eq!(held.presses(&[42, 29, 42]), vec![29, 42]);
    held.press(29);
    held.press(42);
    assert!(held.holds(29) && held.holds(42));
    assert_eq!(held.releases(&[56, 29]), vec![42]);
    assert_eq!(held.presses(&[56, 29]), vec![56]);
    held.release(42);
    held.press(56);
    assert_eq!(held.releases(&[]), vec![29, 56]);
    assert!(held.presses(&[29, 56]).is_empty());
    held.release(7);
    assert!(held.holds(29) && held.holds(56) && !held.holds(42));
}

#[test]
fn each_event_is_one_whole_record() {
    let records = key_records(30, true).unwrap();
    let size = std::mem::size_of::<libc::input_event>();
    assert_eq!(records.len(), 2);
    assert!(records.iter().all(|record| record.len() == size));
}
