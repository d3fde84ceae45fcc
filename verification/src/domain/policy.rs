//! Whether a peer's offers wait for a person.

use vstd::prelude::*;

verus! {

/// What to do with the offers of one peer.
#[derive(Debug, Clone, Copy, PartialEq, Eq, Structural)]
pub enum ReceivePolicy {
    AskEveryTime,
    Automatic,
}

impl ReceivePolicy {
    /// Whether an offer is accepted without asking: only a paired peer's, and
    /// only where its policy says so.
    pub open spec fn silent(self, paired: bool) -> bool {
        paired && self == ReceivePolicy::Automatic
    }

    #[must_use]
    pub fn may_receive_silently(self, paired: bool) -> (silent: bool)
        ensures
            silent == self.silent(paired),
    {
        paired && matches!(self, ReceivePolicy::Automatic)
    }
}

/// No policy lets an unpaired peer's offer through without asking.
pub proof fn silent_receive_needs_pairing(policy: ReceivePolicy)
    ensures
        !policy.silent(false),
{
}

/// The offer of a paired peer that may always send goes through without asking.
pub proof fn automatic_policy_is_silent_for_the_paired(policy: ReceivePolicy, paired: bool)
    ensures
        ReceivePolicy::Automatic.silent(true),
        !ReceivePolicy::AskEveryTime.silent(paired),
        policy.silent(paired) ==> paired,
{
}

} // verus!
