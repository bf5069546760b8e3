//! MIDI 1.0 channel messages as the synths and effects read them, and the
//! expressive CC maps that route controllers onto parameters.

use vstd::prelude::*;

verus! {

/// One MIDI 1.0 channel message, as the synths act on it.
#[derive(Clone, Copy, Debug, PartialEq, Eq, Structural)]
pub enum ChannelEvent {
    NoteOn { key: u8, velocity: u8 },
    /// A note-off, or a note-on with velocity 0.
    NoteOff { key: u8 },
    /// Pitch bend: the 14-bit value minus the 8192 centre.
    PitchBend { offset: i32 },
    /// CC 123.
    AllNotesOff,
    /// CC 120.
    AllSoundOff,
    /// Any other control change.
    Control { cc: u8, value: u8 },
    /// Every other status.
    Other,
}

/// The status nibble of a status byte.
pub open spec fn status_of(b: u8) -> u8 {
    b & 0xf0u8
}

/// The 14-bit pitch-bend value of two data bytes (LSB first), less 8192.
pub open spec fn bend_offset(lsb: u8, msb: u8) -> int {
    ((lsb as i32) | ((msb as i32) << 7u32)) - 8192
}

pub open spec fn channel_event(data: [u8; 3]) -> ChannelEvent {
    let status = status_of(data[0]);
    if status == 0x90 {
        if data[2] == 0 {
            ChannelEvent::NoteOff { key: data[1] }
        } else {
            ChannelEvent::NoteOn { key: data[1], velocity: data[2] }
        }
    } else if status == 0x80 {
        ChannelEvent::NoteOff { key: data[1] }
    } else if status == 0xe0 {
        ChannelEvent::PitchBend { offset: bend_offset(data[1], data[2]) as i32 }
    } else if status == 0xb0 && data[1] == 123 {
        ChannelEvent::AllNotesOff
    } else if status == 0xb0 && data[1] == 120 {
        ChannelEvent::AllSoundOff
    } else if status == 0xb0 {
        ChannelEvent::Control { cc: data[1], value: data[2] }
    } else {
        ChannelEvent::Other
    }
}

/// Read a raw three-byte MIDI message.
pub fn decode_channel_message(data: [u8; 3]) -> (e: ChannelEvent)
    ensures
        e == channel_event(data),
{
    let status = data[0] & 0xf0;
    let key = data[1];
    let raw = data[2];
    if status == 0x90 {
        if raw == 0 {
            ChannelEvent::NoteOff { key }
        } else {
            ChannelEvent::NoteOn { key, velocity: raw }
        }
    } else if status == 0x80 {
        ChannelEvent::NoteOff { key }
    } else if status == 0xe0 {
        let lsb = key as i32;
        let msb = raw as i32;
        let combined = lsb | (msb << 7u32);
        assert(0 <= combined < 0x8000) by (bit_vector)
            requires
                combined == lsb | (msb << 7u32),
                0 <= lsb < 256,
                0 <= msb < 256,
        ;
        ChannelEvent::PitchBend { offset: combined - 8192 }
    } else if status == 0xb0 && key == 123 {
        ChannelEvent::AllNotesOff
    } else if status == 0xb0 && key == 120 {
        ChannelEvent::AllSoundOff
    } else if status == 0xb0 {
        ChannelEvent::Control { cc: key, value: raw }
    } else {
        ChannelEvent::Other
    }
}

/// For proper 7-bit data bytes the bend offset is `lsb + 128 * msb - 8192`,
/// spanning -8192 ..= 8191 with the centre (0x00, 0x40) at zero.
pub proof fn lemma_bend_offset_of_data_bytes(lsb: u8, msb: u8)
    requires
        lsb < 128,
        msb < 128,
    ensures
        bend_offset(lsb, msb) == lsb + 128 * msb - 8192,
        -8192 <= bend_offset(lsb, msb) <= 8191,
        bend_offset(0, 64) == 0,
{
    let l = lsb as i32;
    let m = msb as i32;
    assert((l | (m << 7u32)) == l + 128 * m) by (bit_vector)
        requires
            0 <= l < 128,
            0 <= m < 128,
    ;
    assert((0i32 | (64i32 << 7u32)) == 8192) by (bit_vector);
}

/// Where an expressive controller goes.
#[derive(Clone, Copy, Debug, PartialEq, Eq, Structural)]
pub enum CcRoute {
    /// Scale the 0..127 value linearly across the parameter's range.
    Linear(usize),
    /// Scale it logarithmically across the parameter's range (frequencies).
    Logarithmic(usize),
    /// Switch the parameter on at a value of 64 or more, off below.
    Switch(usize),
}

pub const PAD_P_CUTOFF: usize = 0;

pub const PAD_P_RESONANCE: usize = 1;

pub const PAD_P_MODULATION: usize = 2;

pub const PAD_P_DRIVE: usize = 3;

/// The pad's map: mod wheel (1) to Modulation, expression (11) to Drive,
/// resonance (71) to Resonance, brightness (74) to Cutoff on a log scale.
pub open spec fn pad_route(cc: u8) -> Option<CcRoute> {
    if cc == 1 {
        Some(CcRoute::Linear(PAD_P_MODULATION))
    } else if cc == 11 {
        Some(CcRoute::Linear(PAD_P_DRIVE))
    } else if cc == 71 {
        Some(CcRoute::Linear(PAD_P_RESONANCE))
    } else if cc == 74 {
        Some(CcRoute::Logarithmic(PAD_P_CUTOFF))
    } else {
        None
    }
}

pub fn pad_cc_route(cc: u8) -> (r: Option<CcRoute>)
    ensures
        r == pad_route(cc),
{
    match cc {
        1 => Some(CcRoute::Linear(PAD_P_MODULATION)),
        11 => Some(CcRoute::Linear(PAD_P_DRIVE)),
        71 => Some(CcRoute::Linear(PAD_P_RESONANCE)),
        74 => Some(CcRoute::Logarithmic(PAD_P_CUTOFF)),
        _ => None,
    }
}

pub const FORMANT_P_F1: usize = 0;

pub const FORMANT_P_F2: usize = 1;

pub const FORMANT_P_WIDTH: usize = 3;

pub const FORMANT_P_DEPTH: usize = 12;

pub const FORMANT_P_DRIVE: usize = 14;

/// The formant filter's map (the phone-gesture defaults): mod wheel (1) to
/// F1, brightness (74) to F2, resonance (71) to Width, attack (73) to
/// Drive, vibrato rate (76) to Depth.
pub open spec fn formant_route(cc: u8) -> Option<CcRoute> {
    if cc == 1 {
        Some(CcRoute::Linear(FORMANT_P_F1))
    } else if cc == 74 {
        Some(CcRoute::Linear(FORMANT_P_F2))
    } else if cc == 71 {
        Some(CcRoute::Linear(FORMANT_P_WIDTH))
    } else if cc == 73 {
        Some(CcRoute::Linear(FORMANT_P_DRIVE))
    } else if cc == 76 {
        Some(CcRoute::Linear(FORMANT_P_DEPTH))
    } else {
        None
    }
}

/// The route of a raw message into the formant filter: control changes
/// only.
pub fn formant_cc_route(data: [u8; 3]) -> (r: Option<CcRoute>)
    ensures
        r == if status_of(data[0]) == 0xb0 {
            formant_route(data[1])
        } else {
            None
        },
{
    if data[0] & 0xf0 != 0xb0 {
        return None;
    }
    match data[1] {
        1 => Some(CcRoute::Linear(FORMANT_P_F1)),
        74 => Some(CcRoute::Linear(FORMANT_P_F2)),
        71 => Some(CcRoute::Linear(FORMANT_P_WIDTH)),
        73 => Some(CcRoute::Linear(FORMANT_P_DRIVE)),
        76 => Some(CcRoute::Linear(FORMANT_P_DEPTH)),
        _ => None,
    }
}

pub const GRANULAR_P_DENSITY: usize = 0;

pub const GRANULAR_P_SIZE: usize = 1;

pub const GRANULAR_P_POSITION: usize = 3;

pub const GRANULAR_P_JITTER: usize = 5;

pub const GRANULAR_P_FREEZE: usize = 8;

pub const GRANULAR_P_FEEDBACK: usize = 9;

/// The granulator's map: sustain pedal (64) switches Freeze, brightness
/// (74) to Density, resonance (71) to Size, attack (73) to Feedback,
/// vibrato rate (76) to Jitter, mod wheel (1) to Position.
pub open spec fn granular_route(cc: u8) -> Option<CcRoute> {
    if cc == 64 {
        Some(CcRoute::Switch(GRANULAR_P_FREEZE))
    } else if cc == 74 {
        Some(CcRoute::Linear(GRANULAR_P_DENSITY))
    } else if cc == 71 {
        Some(CcRoute::Linear(GRANULAR_P_SIZE))
    } else if cc == 73 {
        Some(CcRoute::Linear(GRANULAR_P_FEEDBACK))
    } else if cc == 76 {
        Some(CcRoute::Linear(GRANULAR_P_JITTER))
    } else if cc == 1 {
        Some(CcRoute::Linear(GRANULAR_P_POSITION))
    } else {
        None
    }
}

/// The route of a raw message into the granulator: control changes only.
pub fn granular_cc_route(data: [u8; 3]) -> (r: Option<CcRoute>)
    ensures
        r == if status_of(data[0]) == 0xb0 {
            granular_route(data[1])
        } else {
            None
        },
{
    if data[0] & 0xf0 != 0xb0 {
        return None;
    }
    match data[1] {
        64 => Some(CcRoute::Switch(GRANULAR_P_FREEZE)),
        74 => Some(CcRoute::Linear(GRANULAR_P_DENSITY)),
        71 => Some(CcRoute::Linear(GRANULAR_P_SIZE)),
        73 => Some(CcRoute::Linear(GRANULAR_P_FEEDBACK)),
        76 => Some(CcRoute::Linear(GRANULAR_P_JITTER)),
        1 => Some(CcRoute::Linear(GRANULAR_P_POSITION)),
        _ => None,
    }
}

/// The on/off state a switch controller value stands for.
pub fn switch_is_on(value: u8) -> (on: bool)
    ensures
        on == (value >= 64),
{
    value >= 64
}

pub open spec fn route_param(r: CcRoute) -> usize {
    match r {
        CcRoute::Linear(p) => p,
        CcRoute::Logarithmic(p) => p,
        CcRoute::Switch(p) => p,
    }
}

/// No two controllers drive the same parameter in any of the three maps.
pub proof fn lemma_cc_routes_are_one_to_one(a: u8, b: u8)
    requires
        a != b,
    ensures
        pad_route(a) is Some && pad_route(b) is Some ==> route_param(pad_route(a).unwrap()) != route_param(
            pad_route(b).unwrap(),
        ),
        formant_route(a) is Some && formant_route(b) is Some ==> route_param(formant_route(a).unwrap())
            != route_param(formant_route(b).unwrap()),
        granular_route(a) is Some && granular_route(b) is Some ==> route_param(granular_route(a).unwrap())
            != route_param(granular_route(b).unwrap()),
{
}

/// The note messages the synths act on: a note-on with velocity 0 is a
/// note-off, and the two panic controllers are never mistaken for
/// expressive ones.
pub proof fn lemma_note_on_velocity_zero_is_note_off(status: u8, key: u8, raw: u8)
    requires
        status_of(status) == 0x90,
    ensures
        raw == 0 ==> channel_event([status, key, raw]) == (ChannelEvent::NoteOff { key }),
        raw != 0 ==> channel_event([status, key, raw]) == (ChannelEvent::NoteOn { key, velocity: raw }),
        channel_event([0xb0u8, 123u8, raw]) == ChannelEvent::AllNotesOff,
        channel_event([0xb0u8, 120u8, raw]) == ChannelEvent::AllSoundOff,
{
    assert(0xb0u8 & 0xf0u8 == 0xb0u8) by (bit_vector);
}

/// A control change is read the same on every MIDI channel: CC 123 is All
/// Notes Off, CC 120 All Sound Off, and any other controller is passed on
/// with its number and value.
pub proof fn lemma_controllers_on_every_channel(status: u8, cc: u8, value: u8)
    requires
        status & 0xf0u8 == 0xb0u8,
    ensures
        cc == 123 ==> channel_event([status, cc, value]) == ChannelEvent::AllNotesOff,
        cc == 120 ==> channel_event([status, cc, value]) == ChannelEvent::AllSoundOff,
        cc != 123 && cc != 120 ==> channel_event([status, cc, value]) == (ChannelEvent::Control { cc, value }),
{
}

/// Note-offs are read the same on every MIDI channel, whatever their
/// release velocity.
pub proof fn lemma_note_off_on_every_channel(status: u8, key: u8, velocity: u8)
    requires
        status & 0xf0u8 == 0x80u8,
    ensures
        channel_event([status, key, velocity]) == (ChannelEvent::NoteOff { key }),
{
}

} // verus!
