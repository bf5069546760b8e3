//! The looper's parameter layout and its MIDI remote control.
//!
//! Four global parameters come first, then three per track
//! (level, feedback, mute). One MIDI CC per (track, command) drives the
//! transport buttons hands-free.

use vstd::prelude::*;
use crate::looper::track::{TrackCommand, TrackState};
use crate::text::{decimal, push_decimal};

verus! {

pub const TRACK_COUNT: usize = 4;

pub const PARAMS_PER_TRACK: usize = 3;

pub const GLOBAL_PARAM_COUNT: usize = 4;

/// Total number of parameters: the globals plus three per track.
pub const PARAM_COUNT: usize = 16;

pub const P_SYNC: usize = 0;

pub const P_BARS: usize = 1;

pub const P_DRY: usize = 2;

pub const P_MASTER: usize = 3;

/// Sentinel for "no layer is recording" in the GUI's recording-layer surface.
pub const NO_LAYER: u32 = 0xffff_ffff;

/// The parameter index of slot `offset` in track `track`'s block.
pub open spec fn track_param(track: int, offset: int) -> int {
    GLOBAL_PARAM_COUNT + track * PARAMS_PER_TRACK + offset
}

/// Parameter id of slot `offset` of track `track`.
pub fn pidx(track: usize, offset: usize) -> (id: u32)
    requires
        track_param(track as int, offset as int) <= u32::MAX,
    ensures
        id == track_param(track as int, offset as int),
{
    (GLOBAL_PARAM_COUNT + track * PARAMS_PER_TRACK + offset) as u32
}

pub fn track_level_idx(t: usize) -> (i: usize)
    requires
        track_param(t as int, 2) <= usize::MAX,
    ensures
        i == track_param(t as int, 0),
{
    GLOBAL_PARAM_COUNT + t * PARAMS_PER_TRACK
}

pub fn track_fb_idx(t: usize) -> (i: usize)
    requires
        track_param(t as int, 2) <= usize::MAX,
    ensures
        i == track_param(t as int, 1),
{
    GLOBAL_PARAM_COUNT + t * PARAMS_PER_TRACK + 1
}

pub fn track_mute_idx(t: usize) -> (i: usize)
    requires
        track_param(t as int, 2) <= usize::MAX,
    ensures
        i == track_param(t as int, 2),
{
    GLOBAL_PARAM_COUNT + t * PARAMS_PER_TRACK + 2
}

/// How the host shows a parameter's value.
#[derive(Clone, Copy, Debug, PartialEq, Eq, Structural)]
pub enum ParamDisplay {
    /// "On" / "Off".
    Sync,
    /// "Auto" or "N bars".
    Bars,
    /// "Muted" / "On".
    Mute,
    /// The plain value with its unit.
    Plain,
}

pub open spec fn display_of(pid: usize) -> ParamDisplay {
    if pid == P_SYNC {
        ParamDisplay::Sync
    } else if pid == P_BARS {
        ParamDisplay::Bars
    } else if pid >= GLOBAL_PARAM_COUNT && (pid - GLOBAL_PARAM_COUNT) % (PARAMS_PER_TRACK as int) == 2 {
        ParamDisplay::Mute
    } else {
        ParamDisplay::Plain
    }
}

/// The display a parameter id gets: the mute slot sits at offset 2 of every
/// track block.
pub fn param_display(pid: usize) -> (d: ParamDisplay)
    ensures
        d == display_of(pid),
{
    if pid == P_SYNC {
        ParamDisplay::Sync
    } else if pid == P_BARS {
        ParamDisplay::Bars
    } else if pid >= GLOBAL_PARAM_COUNT && (pid - GLOBAL_PARAM_COUNT) % PARAMS_PER_TRACK == 2 {
        ParamDisplay::Mute
    } else {
        ParamDisplay::Plain
    }
}

/// The (track, command) a MIDI CC number triggers: Rec on 20-23,
/// Play/Stop on 24-27, Overdub on 28-31, Undo on 32-35 and Clear on 60-63,
/// the track being the offset into the block.
pub open spec fn cc_command(cc: u8) -> Option<(usize, TrackCommand)> {
    if 20 <= cc <= 23 {
        Some(((cc - 20) as usize, TrackCommand::Rec))
    } else if 24 <= cc <= 27 {
        Some(((cc - 24) as usize, TrackCommand::PlayStop))
    } else if 28 <= cc <= 31 {
        Some(((cc - 28) as usize, TrackCommand::Overdub))
    } else if 32 <= cc <= 35 {
        Some(((cc - 32) as usize, TrackCommand::Undo))
    } else if 60 <= cc <= 63 {
        Some(((cc - 60) as usize, TrackCommand::Clear))
    } else {
        None
    }
}

/// The first CC of each command's block.
pub open spec fn cc_block(cmd: TrackCommand) -> int {
    match cmd {
        TrackCommand::Rec => 20,
        TrackCommand::PlayStop => 24,
        TrackCommand::Overdub => 28,
        TrackCommand::Undo => 32,
        TrackCommand::Clear => 60,
        TrackCommand::Idle => -1,
    }
}

/// Maps an incoming MIDI CC number to (track, command).
pub fn midi_cc_to_command(cc: u8) -> (r: Option<(usize, TrackCommand)>)
    ensures
        r == cc_command(cc),
{
    let (track, cmd_idx): (usize, u32) = if 20 <= cc && cc <= 23 {
        ((cc - 20) as usize, 1)
    } else if 24 <= cc && cc <= 27 {
        ((cc - 24) as usize, 2)
    } else if 28 <= cc && cc <= 31 {
        ((cc - 28) as usize, 3)
    } else if 32 <= cc && cc <= 35 {
        ((cc - 32) as usize, 5)
    } else if 60 <= cc && cc <= 63 {
        ((cc - 60) as usize, 4)
    } else {
        return None;
    };
    if track >= TRACK_COUNT {
        return None;
    }
    let cmd = match cmd_idx {
        1 => TrackCommand::Rec,
        2 => TrackCommand::PlayStop,
        3 => TrackCommand::Overdub,
        4 => TrackCommand::Clear,
        5 => TrackCommand::Undo,
        _ => {
            return None;
        },
    };
    Some((track, cmd))
}

/// The command a raw MIDI message presses: a control change (status
/// 0xBn, any channel) on a mapped CC, with a value in the press half
/// (64 or more). Releases and every other message press nothing.
pub open spec fn midi_press(data: [u8; 3]) -> Option<(usize, TrackCommand)> {
    if (data[0] & 0xf0u8) == 0xb0u8 && data[2] >= 64 {
        cc_command(data[1])
    } else {
        None
    }
}

pub fn midi_track_command(data: [u8; 3]) -> (r: Option<(usize, TrackCommand)>)
    ensures
        r == midi_press(data),
{
    if (data[0] & 0xf0) == 0xb0 {
        if let Some((track, cmd)) = midi_cc_to_command(data[1]) {
            if data[2] >= 64 {
                return Some((track, cmd));
            }
        }
    }
    None
}

/// The strip badge of a track state.
pub open spec fn state_badge(s: TrackState) -> Seq<char> {
    match s {
        TrackState::Empty => "Empty"@,
        TrackState::Recording => "REC"@,
        TrackState::Playing => "Play"@,
        TrackState::Overdubbing => "OVERDUB"@,
        TrackState::Stopped => "Stop"@,
    }
}

pub fn state_label(s: TrackState) -> (l: &'static str)
    ensures
        l@ == state_badge(s),
{
    match s {
        TrackState::Empty => "Empty",
        TrackState::Recording => "REC",
        TrackState::Playing => "Play",
        TrackState::Overdubbing => "OVERDUB",
        TrackState::Stopped => "Stop",
    }
}

/// The transport button offers "Stop" while the track runs and "Play"
/// otherwise.
pub fn play_stop_label(s: TrackState) -> (l: &'static str)
    ensures
        l@ == if s == TrackState::Playing || s == TrackState::Overdubbing {
            "Stop"@
        } else {
            "Play"@
        },
{
    match s {
        TrackState::Playing | TrackState::Overdubbing => "Stop",
        _ => "Play",
    }
}

/// The Bars parameter shown as text: "Auto" for 0, else "N bars".
pub open spec fn bars_display(bars: u32) -> Seq<char> {
    if bars == 0 {
        "Auto"@
    } else {
        decimal(bars as nat) + " bars"@
    }
}

pub fn bars_text(bars: u32) -> (s: String)
    ensures
        s@ == bars_display(bars),
{
    if bars == 0 {
        String::from_str("Auto")
    } else {
        let mut s = String::new();
        push_decimal(&mut s, bars as usize);
        s.append(" bars");
        proof {
            assert(s@ =~= decimal(bars as nat) + " bars"@);
        }
        s
    }
}

/// Every track's level, feedback and mute parameters are distinct, follow
/// the globals, stay inside the parameter table, and are shown as a plain
/// value, a plain value and a mute toggle.
pub proof fn lemma_track_params_layout(t1: int, o1: int, t2: int, o2: int)
    requires
        0 <= t1 < TRACK_COUNT,
        0 <= t2 < TRACK_COUNT,
        0 <= o1 < PARAMS_PER_TRACK,
        0 <= o2 < PARAMS_PER_TRACK,
    ensures
        (t1 != t2 || o1 != o2) ==> track_param(t1, o1) != track_param(t2, o2),
        GLOBAL_PARAM_COUNT <= track_param(t1, o1) < PARAM_COUNT,
        display_of(track_param(t1, o1) as usize) == if o1 == 2 {
            ParamDisplay::Mute
        } else {
            ParamDisplay::Plain
        },
{
    assert((t1 * 3 + o1 - 0) % 3 == o1) by (nonlinear_arith)
        requires
            0 <= o1 < 3,
            0 <= t1,
    {
    }
    assert((t1 != t2 || o1 != o2) ==> t1 * 3 + o1 != t2 * 3 + o2) by (nonlinear_arith)
        requires
            0 <= o1 < 3,
            0 <= o2 < 3,
    {
    }
}

/// Distinct CC numbers never press the same button, and every (track,
/// command) pair has its CC: the first of the command's block plus the
/// track.
pub proof fn lemma_cc_map_is_one_to_one(cc1: u8, cc2: u8, track: usize, cmd: TrackCommand)
    requires
        track < TRACK_COUNT,
        cmd != TrackCommand::Idle,
    ensures
        cc1 != cc2 && cc_command(cc1) is Some ==> cc_command(cc1) != cc_command(cc2),
        cc_command((cc_block(cmd) + track) as u8) == Some((track, cmd)),
        cc_command(cc1) matches Some((t, c)) ==> t < TRACK_COUNT && c != TrackCommand::Idle && cc1 == cc_block(c) + t,
{
}

/// The documented controller blocks, for every track: Rec on CC 20-23,
/// Play/Stop on 24-27, Overdub on 28-31, Undo on 32-35, Clear on 60-63,
/// the track being the offset into the block; every other controller
/// triggers nothing.
pub proof fn lemma_cc_blocks(cc: u8, track: u8)
    requires
        track < 4,
    ensures
        cc_command((20 + track) as u8) == Some((track as usize, TrackCommand::Rec)),
        cc_command((24 + track) as u8) == Some((track as usize, TrackCommand::PlayStop)),
        cc_command((28 + track) as u8) == Some((track as usize, TrackCommand::Overdub)),
        cc_command((32 + track) as u8) == Some((track as usize, TrackCommand::Undo)),
        cc_command((60 + track) as u8) == Some((track as usize, TrackCommand::Clear)),
        (cc < 20 || (36 <= cc && cc < 60) || cc > 63) ==> cc_command(cc) is None,
{
}

/// Only the press half of a control change on a mapped controller triggers
/// a command, on any MIDI channel: a release (value below 64) or any other
/// kind of message triggers nothing, and a press triggers the controller's
/// command.
pub proof fn lemma_only_presses_trigger(data: [u8; 3])
    ensures
        data[2] < 64 ==> midi_press(data) is None,
        (data[0] & 0xf0u8) != 0xb0u8 ==> midi_press(data) is None,
        (data[0] & 0xf0u8) == 0xb0u8 && data[2] >= 64 ==> midi_press(data) == cc_command(data[1]),
{
}

} // verus!
