//! The five 2-D mouth trajectory shapes of the jaw-harp voice, selected by a
//! stepped parameter index and named for display.

use vstd::prelude::*;

verus! {

/// A closed curve the mouth cursor walks around the vowel chart.
#[derive(Clone, Copy, Debug, PartialEq, Eq, Structural)]
pub enum MouthShape {
    /// Steady circle around the centre.
    Circle,
    /// Horizontal sweep with a small vertical wobble.
    Sine,
    /// Figure-eight (lemniscate of Gerono).
    Figure8,
    /// Bouncing diagonal.
    Triangle,
    /// One-dimensional left-right line.
    Line,
}

impl MouthShape {
    /// The stepped parameter index that selects this shape.
    pub open spec fn index(self) -> u32 {
        match self {
            MouthShape::Circle => 0,
            MouthShape::Sine => 1,
            MouthShape::Figure8 => 2,
            MouthShape::Triangle => 3,
            MouthShape::Line => 4,
        }
    }

    /// The shape a parameter index selects; anything out of range is a circle.
    pub open spec fn shape_at(i: u32) -> MouthShape {
        if i == 1 {
            MouthShape::Sine
        } else if i == 2 {
            MouthShape::Figure8
        } else if i == 3 {
            MouthShape::Triangle
        } else if i == 4 {
            MouthShape::Line
        } else {
            MouthShape::Circle
        }
    }

    /// The display name of a shape.
    pub open spec fn name(self) -> Seq<char> {
        match self {
            MouthShape::Circle => "Circle"@,
            MouthShape::Sine => "Sine"@,
            MouthShape::Figure8 => "Figure-8"@,
            MouthShape::Triangle => "Triangle"@,
            MouthShape::Line => "Line"@,
        }
    }

    pub fn from_index(i: u32) -> (s: MouthShape)
        ensures
            s == MouthShape::shape_at(i),
    {
        match i {
            1 => MouthShape::Sine,
            2 => MouthShape::Figure8,
            3 => MouthShape::Triangle,
            4 => MouthShape::Line,
            _ => MouthShape::Circle,
        }
    }

    pub fn label(self) -> (l: &'static str)
        ensures
            l@ == self.name(),
    {
        match self {
            MouthShape::Circle => "Circle",
            MouthShape::Sine => "Sine",
            MouthShape::Figure8 => "Figure-8",
            MouthShape::Triangle => "Triangle",
            MouthShape::Line => "Line",
        }
    }
}

/// Every shape is selected by its own index, so the stepped parameter reaches
/// all five shapes and each index above four falls back to the circle.
pub proof fn lemma_shape_index_round_trip(s: MouthShape, i: u32)
    ensures
        MouthShape::shape_at(s.index()) == s,
        i > 4 ==> MouthShape::shape_at(i) == MouthShape::Circle,
        i <= 4 ==> MouthShape::shape_at(i).index() == i,
{
}

/// Distinct shapes carry distinct display names.
pub proof fn lemma_shape_names_distinct(a: MouthShape, b: MouthShape)
    requires
        a != b,
    ensures
        a.name() != b.name(),
{
    reveal_strlit("Circle");
    reveal_strlit("Sine");
    reveal_strlit("Figure-8");
    reveal_strlit("Triangle");
    reveal_strlit("Line");
    assert(a.name().len() != b.name().len() || a.name()[0] != b.name()[0]
        || a.name()[1] != b.name()[1]);
}

} // verus!
