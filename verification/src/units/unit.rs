use std::sync::{Arc, Mutex};
use vstd::prelude::*;

verus! {

#[verifier::external_type_specification]
#[verifier::external_body]
#[verifier::reject_recursive_types(T)]
pub struct ExMutex<T: ?Sized>(Mutex<T>);

/// A value behind a lock.
#[verifier::reject_recursive_types(T)]
pub struct Mut<T: ?Sized>(pub Mutex<T>);

/// `Mutex::new`: a new, unlocked mutex that holds `value`.  What it holds
/// is not stated: a name for the contents of a `Mutex<T>` would be generic.
#[verifier::external_body]
fn mutex_new<T>(value: T) -> (r: Mutex<T>) {
    Mutex::new(value)
}

impl<T> Mut<T> {
    /// A shared, locked cell holding `value`.  The contract says nothing of
    /// what the cell holds: the mutex is opaque to the verifier, and its
    /// contents, being of the generic type `T`, cannot be given a name.
    pub fn amut(value: T) -> (r: Arc<Mut<T>>) {
        Arc::new(Mut(mutex_new(value)))
    }
}

/// A printable description of a unit: a word, or an operator applied to
/// the descriptions of its arguments.
#[derive(Debug)]
pub enum Dump {
    Str(String),
    Op(String, Vec<Box<Dump>>),
}

/// The stages of an envelope.
pub enum ADSR {
    Attack,
    Decay,
    Sustin,
    Release,
    /// No stage: the envelope is idle.
    Idle,
}

} // verus!
