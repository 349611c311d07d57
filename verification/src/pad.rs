//! The eight output channels of the panel and the messages that switch them.

use vstd::prelude::*;

verus! {

/// One of the eight pads of the panel.
#[derive(Clone, Copy, Debug, PartialEq, Eq, Structural)]
pub enum Pad {
    Pad1,
    Pad2,
    Pad3,
    Pad4,
    Pad5,
    Pad6,
    Pad7,
    Pad8,
}

/// Position of a pad on the panel, counted from zero.
pub open spec fn pad_index(pad: Pad) -> int {
    match pad {
        Pad::Pad1 => 0,
        Pad::Pad2 => 1,
        Pad::Pad3 => 2,
        Pad::Pad4 => 3,
        Pad::Pad5 => 4,
        Pad::Pad6 => 5,
        Pad::Pad7 => 6,
        Pad::Pad8 => 7,
    }
}

/// The note number by which the device addresses a pad.
pub open spec fn midi_note(pad: Pad) -> int {
    0x24 + pad_index(pad)
}

pub fn pad_to_midi_note(pad: &Pad) -> (note: u8)
    ensures
        note == midi_note(*pad),
{
    match pad {
        Pad::Pad1 => 0x24,
        Pad::Pad2 => 0x25,
        Pad::Pad3 => 0x26,
        Pad::Pad4 => 0x27,
        Pad::Pad5 => 0x28,
        Pad::Pad6 => 0x29,
        Pad::Pad7 => 0x2A,
        Pad::Pad8 => 0x2B,
    }
}

/// Status byte of the message that switches a pad on.
pub const NOTE_ON: u8 = 0x90;

/// Status byte of the message that switches a pad off.
pub const NOTE_OFF: u8 = 0x80;

/// The velocity that every message carries.
pub const VELOCITY: u8 = 0x7F;

/// The three bytes that switch `pad` on: status, note, velocity.
pub open spec fn on_message(pad: Pad) -> Seq<u8> {
    seq![NOTE_ON, midi_note(pad) as u8, VELOCITY]
}

/// The three bytes that switch `pad` off: status, note, velocity.
pub open spec fn off_message(pad: Pad) -> Seq<u8> {
    seq![NOTE_OFF, midi_note(pad) as u8, VELOCITY]
}

/// The message that switches `pad` on.
pub fn note_on(pad: &Pad) -> (message: [u8; 3])
    ensures
        message@ == on_message(*pad),
{
    let message = [NOTE_ON, pad_to_midi_note(pad), VELOCITY];
    assert(message@ =~= on_message(*pad));
    message
}

/// The message that switches `pad` off.
pub fn note_off(pad: &Pad) -> (message: [u8; 3])
    ensures
        message@ == off_message(*pad),
{
    let message = [NOTE_OFF, pad_to_midi_note(pad), VELOCITY];
    assert(message@ =~= off_message(*pad));
    message
}

impl Pad {
    /// The number of pads on the panel.
    pub const COUNT: usize = 8;

    /// Position of the pad on the panel, counted from zero.
    pub fn index(self) -> (i: usize)
        ensures
            i == pad_index(self),
            i < Pad::COUNT,
    {
        match self {
            Pad::Pad1 => 0,
            Pad::Pad2 => 1,
            Pad::Pad3 => 2,
            Pad::Pad4 => 3,
            Pad::Pad5 => 4,
            Pad::Pad6 => 5,
            Pad::Pad7 => 6,
            Pad::Pad8 => 7,
        }
    }

    /// The pad at position `i`, where the panel has one.
    pub fn from_index(i: usize) -> (pad: Option<Pad>)
        ensures
            match pad {
                Some(p) => pad_index(p) == i,
                None => i >= Pad::COUNT,
            },
    {
        match i {
            0 => Some(Pad::Pad1),
            1 => Some(Pad::Pad2),
            2 => Some(Pad::Pad3),
            3 => Some(Pad::Pad4),
            4 => Some(Pad::Pad5),
            5 => Some(Pad::Pad6),
            6 => Some(Pad::Pad7),
            7 => Some(Pad::Pad8),
            _ => None,
        }
    }
}

/// No two pads share a position, and so none share a note: a message reaches the pad it
/// was made for and no other.
pub proof fn lemma_note_identifies_pad(a: Pad, b: Pad)
    ensures
        0 <= pad_index(a) < 8,
        0x24 <= midi_note(a) <= 0x2B,
        pad_index(a) == pad_index(b) <==> a == b,
        midi_note(a) == midi_note(b) <==> a == b,
{
}

} // verus!
