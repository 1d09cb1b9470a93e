//! `pull`: a model from a registry into the server's store.

use vstd::prelude::*;

verus! {

/// The arguments of `pull`.
pub struct PullArgs {
    pub reference: String,
}

/// The report of a pull.
pub fn pull_report(reference: &str) -> (r: String)
    ensures
        r@ == "Pulled "@ + reference@,
{
    let mut s = "Pulled ".to_owned();
    s.append(reference);
    s
}

} // verus!
