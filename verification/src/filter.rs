//! The multimode filter's stepped choices: filter response, LFO waveform
//! and drive curve, each picked by its parameter's (rounded) index with
//! the first choice for anything unknown.

use vstd::prelude::*;

verus! {

/// The state-variable filter's response.
#[derive(Clone, Copy, Debug, PartialEq, Eq, Structural)]
pub enum FilterMode {
    LowPass,
    HighPass,
    BandPass,
    Notch,
}

pub open spec fn mode_at(i: i32) -> FilterMode {
    if i == 1 {
        FilterMode::HighPass
    } else if i == 2 {
        FilterMode::BandPass
    } else if i == 3 {
        FilterMode::Notch
    } else {
        FilterMode::LowPass
    }
}

/// The response a rounded Mode parameter selects.
pub fn filter_mode_from_index(i: i32) -> (m: FilterMode)
    ensures
        m == mode_at(i),
{
    match i {
        1 => FilterMode::HighPass,
        2 => FilterMode::BandPass,
        3 => FilterMode::Notch,
        _ => FilterMode::LowPass,
    }
}

/// The LFO's waveform.
#[derive(Clone, Copy, Debug, PartialEq, Eq, Structural)]
pub enum LfoShape {
    Sine,
    Triangle,
    Saw,
    Square,
}

pub open spec fn lfo_at(i: u32) -> LfoShape {
    if i == 1 {
        LfoShape::Triangle
    } else if i == 2 {
        LfoShape::Saw
    } else if i == 3 {
        LfoShape::Square
    } else {
        LfoShape::Sine
    }
}

pub fn lfo_shape_from_index(i: u32) -> (s: LfoShape)
    ensures
        s == lfo_at(i),
{
    match i {
        1 => LfoShape::Triangle,
        2 => LfoShape::Saw,
        3 => LfoShape::Square,
        _ => LfoShape::Sine,
    }
}

/// The drive stage's transfer curve.
#[derive(Clone, Copy, Debug, PartialEq, Eq, Structural)]
pub enum DriveCurve {
    Clean,
    Tanh,
    Tape,
    Tube,
}

pub open spec fn drive_at(i: u32) -> DriveCurve {
    if i == 1 {
        DriveCurve::Tanh
    } else if i == 2 {
        DriveCurve::Tape
    } else if i == 3 {
        DriveCurve::Tube
    } else {
        DriveCurve::Clean
    }
}

pub fn drive_curve_from_index(i: u32) -> (c: DriveCurve)
    ensures
        c == drive_at(i),
{
    match i {
        1 => DriveCurve::Tanh,
        2 => DriveCurve::Tape,
        3 => DriveCurve::Tube,
        _ => DriveCurve::Clean,
    }
}

} // verus!
