use vstd::prelude::*;

verus! {

/// `str`'s `==`: the two texts are the same.
#[verifier::external_body]
pub(crate) fn str_eq(a: &str, b: &str) -> (r: bool)
    ensures
        r == (a@ == b@),
{
    a == b
}

} // verus!
