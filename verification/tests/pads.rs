use lpd8_monitor::pad::{note_off, note_on, pad_to_midi_note, Pad};

const ALL: [Pad; 8] = [
    Pad::Pad1,
    Pad::Pad2,
    Pad::Pad3,
    Pad::Pad4,
    Pad::Pad5,
    Pad::Pad6,
    Pad::Pad7,
    Pad::Pad8,
];

#[test]
fn every_pad_has_its_note() {
    let notes: Vec<u8> = ALL.iter().map(pad_to_midi_note).collect();
    assert_eq!(notes, vec![0x24, 0x25, 0x26, 0x27, 0x28, 0x29, 0x2A, 0x2B]);
}

#[test]
fn no_two_pads_share_a_note() {
    for a in ALL.iter() {
        for b in ALL.iter() {
            assert_eq!(pad_to_midi_note(a) == pad_to_midi_note(b), a == b);
        }
    }
}

#[test]
fn note_on_is_status_note_velocity() {
    assert_eq!(note_on(&Pad::Pad1), [0x90, 0x24, 0x7F]);
    assert_eq!(note_on(&Pad::Pad8), [0x90, 0x2B, 0x7F]);
}

#[test]
fn note_off_is_status_note_velocity() {
    assert_eq!(note_off(&Pad::Pad1), [0x80, 0x24, 0x7F]);
    assert_eq!(note_off(&Pad::Pad4), [0x80, 0x27, 0x7F]);
}

#[test]
fn positions_count_from_zero() {
    for (i, pad) in ALL.iter().enumerate() {
        assert_eq!(pad.index(), i);
        assert_eq!(Pad::from_index(i), Some(*pad));
    }
    assert_eq!(Pad::COUNT, 8);
}

#[test]
fn there_is_no_ninth_pad() {
    assert_eq!(Pad::from_index(8), None);
    assert_eq!(Pad::from_index(usize::MAX), None);
}
