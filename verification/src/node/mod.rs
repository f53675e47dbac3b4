//! What a sink of the audio graph receives.
use vstd::prelude::*;

pub mod reflect;

verus! {

/// The kinds of sample a sink receives, in the order of its inputs.
#[derive(Clone, Copy, Debug, PartialEq, Eq, PartialOrd, Ord, Hash)]
pub enum SampleType {
    Pcm,
    /// The azimuth (or azimuthal angle) is the signed angle measured from
    /// the azimuth reference direction to the orthogonal projection of the
    /// line segment OP on the reference plane.
    Azimuth,
    /// The inclination (or polar angle) is the angle between the zenith
    /// direction and the line segment OP.
    Inclination,
    /// The radius or radial distance is the Euclidean distance from the
    /// origin O to P.
    Radius,
}

impl SampleType {
    pub open spec fn spec_index(self) -> u8 {
        match self {
            SampleType::Pcm => 0,
            SampleType::Azimuth => 1,
            SampleType::Inclination => 2,
            SampleType::Radius => 3,
        }
    }

    /// The input of the sink that carries this kind of sample.
    pub fn as_u8(self) -> (r: u8)
        ensures
            r == self.spec_index(),
    {
        match self {
            SampleType::Pcm => 0,
            SampleType::Azimuth => 1,
            SampleType::Inclination => 2,
            SampleType::Radius => 3,
        }
    }
}

/// The kinds of sample are the sink's inputs in order: the signal first,
/// then azimuth, inclination and radius, each at an input of its own.
pub proof fn lemma_sample_type_inputs()
    ensures
        SampleType::Pcm.spec_index() == 0,
        SampleType::Azimuth.spec_index() == 1,
        SampleType::Inclination.spec_index() == 2,
        SampleType::Radius.spec_index() == 3,
        forall|a: SampleType, b: SampleType| #[trigger] a.spec_index() == #[trigger] b.spec_index()
            ==> a == b,
{
}

} // verus!
