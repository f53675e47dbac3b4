use vstd::prelude::*;

verus! {

/// The shape of an envelope segment.
#[derive(Clone, Copy, Debug, PartialEq, Eq)]
pub enum Curve {
    Step,
    Linear,
    Exponential,
    Sine,
    Welch,
    Squared,
    Cubed,
    Hold,
}

impl Curve {
    /// The number that stands for the shape in an envelope's inputs.
    pub open spec fn spec_code(self) -> i32 {
        match self {
            Curve::Step => 0,
            Curve::Linear => 1,
            Curve::Exponential => 2,
            Curve::Sine => 3,
            Curve::Welch => 4,
            Curve::Squared => 6,
            Curve::Cubed => 7,
            Curve::Hold => 8,
        }
    }

    pub fn as_i32(self) -> (r: i32)
        ensures
            r == self.spec_code(),
    {
        match self {
            Curve::Step => 0,
            Curve::Linear => 1,
            Curve::Exponential => 2,
            Curve::Sine => 3,
            Curve::Welch => 4,
            Curve::Squared => 6,
            Curve::Cubed => 7,
            Curve::Hold => 8,
        }
    }
}

/// Each curve is written as SuperCollider's number for its envelope shape:
/// step 0, linear 1, exponential 2, sine 3, welch 4, squared 6, cubed 7 and
/// hold 8 (5 is the server's numeric curvature, which has no curve here), so
/// no two curves are written alike and every number lies between 0 and 8.
pub proof fn lemma_curve_shape_numbers()
    ensures
        Curve::Step.spec_code() == 0,
        Curve::Linear.spec_code() == 1,
        Curve::Exponential.spec_code() == 2,
        Curve::Sine.spec_code() == 3,
        Curve::Welch.spec_code() == 4,
        Curve::Squared.spec_code() == 6,
        Curve::Cubed.spec_code() == 7,
        Curve::Hold.spec_code() == 8,
        forall|c: Curve| 0 <= #[trigger] c.spec_code() <= 8 && c.spec_code() != 5,
        forall|a: Curve, b: Curve| #[trigger] a.spec_code() == #[trigger] b.spec_code() ==> a == b,
{
}

} // verus!
