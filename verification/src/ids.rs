use vstd::prelude::*;

verus! {

/// Identity of a definition: the crate that owns it and its index inside that crate.
#[derive(Clone, Copy, Debug, PartialEq, Eq, Structural)]
pub struct DefId {
    pub krate: u32,
    pub local: u32,
}

impl DefId {
    pub fn new(krate: u32, local: u32) -> (id: DefId)
        ensures
            id.krate == krate,
            id.local == local,
    {
        DefId { krate, local }
    }
}

/// A generic parameter: the definition that declares it and its position there.
#[derive(Clone, Copy, Debug, PartialEq, Eq, Structural)]
pub struct GenericParamId {
    pub owner: DefId,
    pub index: u32,
}

/// An associated type of a trait.
#[derive(Clone, Copy, Debug, PartialEq, Eq, Structural)]
pub struct AssociatedTypeKey {
    pub owner: DefId,
    pub assoc_type_id: u32,
}

} // verus!
