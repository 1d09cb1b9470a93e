//! `transfer`: a model from one place to another, past the local store.

use vstd::prelude::*;

use crate::shortnames;
use crate::shortnames::Aliases;

verus! {

/// The arguments of `transfer`.
pub struct TransferArgs {
    pub source: String,
    pub destination: String,
}

impl TransferArgs {
    /// What the source and the destination stand for.
    pub fn endpoints(&self, aliases: &Aliases) -> (r: (String, String))
        ensures
            r.0@ == shortnames::resolved(self.source@, aliases@),
            r.1@ == shortnames::resolved(self.destination@, aliases@),
    {
        (
            shortnames::resolve(self.source.as_str(), aliases),
            shortnames::resolve(self.destination.as_str(), aliases),
        )
    }
}

/// The report of a transfer, by whether anything had to be sent.
pub fn transfer_report(changed: bool, source: &str, destination: &str) -> (r: String)
    ensures
        r@ == if changed {
            "Transferred "@ + source@ + " to "@ + destination@
        } else {
            destination@ + " already up to date with "@ + source@
        },
{
    if changed {
        let mut s = "Transferred ".to_owned();
        s.append(source);
        s.append(" to ");
        s.append(destination);
        s
    } else {
        let mut s = destination.to_owned();
        s.append(" already up to date with ");
        s.append(source);
        s
    }
}

} // verus!
