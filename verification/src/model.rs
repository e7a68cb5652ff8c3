//! Hardware models of the Game Boy family.

use vstd::prelude::*;

verus! {

/// A hardware model.
#[derive(Clone, Copy, Debug, PartialEq, Eq, Structural)]
pub enum GbModel {
    Dmg0,
    Dmg,
    Mgb,
    Sgb,
    Sgb2,
    Cgb0,
    Cgb,
    Agb,
}

} // verus!
