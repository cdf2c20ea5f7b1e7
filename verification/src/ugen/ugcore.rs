use vstd::prelude::*;

verus! {

/// The stages of an envelope.
#[derive(Clone)]
pub enum ADSR {
    Attack,
    Decay,
    Sustin,
    Release,
    /// No stage: the envelope is idle.
    Idle,
}

} // verus!
