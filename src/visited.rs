use dashmap::DashSet;
use std::collections::hash_map::RandomState;
use vstd::prelude::*;

verus! {

#[verifier::external_type_specification]
#[verifier::external_body]
#[verifier::reject_recursive_types(K)]
#[verifier::reject_recursive_types(S)]
pub struct ExDashSet<K, S>(DashSet<K, S>);

/// The identities that a visited set holds.
pub uninterp spec fn claimed_of(s: DashSet<String, RandomState>) -> Set<Seq<char>>;

/// Relies on `DashSet::new`: a new set holds no key.
#[verifier::external_body]
pub(crate) fn new_visited() -> (r: DashSet<String, RandomState>)
    ensures
        claimed_of(r) == Set::<Seq<char>>::empty(),
{
    DashSet::new()
}

/// Relies on `DashSet::insert`: the key is added, and the result is true
/// exactly when it was not in the set before.
#[verifier::external_body]
pub(crate) fn claim(s: &mut DashSet<String, RandomState>, identity: String) -> (r: bool)
    ensures
        claimed_of(*final(s)) == claimed_of(*old(s)).insert(identity@),
        r == !claimed_of(*old(s)).contains(identity@),
{
    s.insert(identity)
}

} // verus!
