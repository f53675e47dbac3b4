pub mod buffer;
pub mod control;
pub mod group;
pub mod node;
pub mod nrt;
pub mod server;
pub mod synth;
pub mod synthdef;

use vstd::prelude::*;

verus! {

/// The integer that stands for a flag on the wire.
pub open spec fn bool_value(value: bool) -> i32 {
    if value {
        1
    } else {
        0
    }
}

/// The integer that stands for a flag on the wire: 1 for true, 0 for false.
pub fn bool_encoder(value: bool) -> (r: i32)
    ensures
        r == bool_value(value),
{
    if value {
        1
    } else {
        0
    }
}

} // verus!
