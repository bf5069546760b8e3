//! Display names of the stepped parameters: a stepped value picks a name
//! from its table, and values past the end of the table show its last name.

use vstd::prelude::*;

verus! {

/// The table slot a stepped value shows: the value itself, or the last slot
/// past the end of a table of `count` names.
pub open spec fn slot(index: usize, count: usize) -> usize {
    if index < count {
        index
    } else {
        (count - 1) as usize
    }
}

pub fn clamp_slot(index: usize, count: usize) -> (i: usize)
    requires
        count > 0,
    ensures
        i == slot(index, count),
        i < count,
{
    if index < count {
        index
    } else {
        count - 1
    }
}

/// The formant filter's modes.
pub open spec fn formant_mode_names() -> Seq<Seq<char>> {
    seq!["Manual"@, "Follow"@, "Motion"@]
}

/// The formant filter's motion paths.
pub open spec fn formant_path_names() -> Seq<Seq<char>> {
    seq!["Circle"@, "Sine"@, "Figure-8"@, "Triangle"@, "Line"@]
}

/// The granulator's grain windows.
pub open spec fn grain_shape_names() -> Seq<Seq<char>> {
    seq!["Hann"@, "Tukey"@, "Perc"@]
}

pub fn formant_mode_label(index: usize) -> (l: &'static str)
    ensures
        l@ == formant_mode_names()[slot(index, 3) as int],
{
    match clamp_slot(index, 3) {
        0 => "Manual",
        1 => "Follow",
        _ => "Motion",
    }
}

pub fn formant_path_label(index: usize) -> (l: &'static str)
    ensures
        l@ == formant_path_names()[slot(index, 5) as int],
{
    match clamp_slot(index, 5) {
        0 => "Circle",
        1 => "Sine",
        2 => "Figure-8",
        3 => "Triangle",
        _ => "Line",
    }
}

pub fn grain_shape_label(index: usize) -> (l: &'static str)
    ensures
        l@ == grain_shape_names()[slot(index, 3) as int],
{
    match clamp_slot(index, 3) {
        0 => "Hann",
        1 => "Tukey",
        _ => "Perc",
    }
}

} // verus!
