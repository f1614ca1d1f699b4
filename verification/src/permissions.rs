use vstd::prelude::*;

verus! {

/// Namespace for the capability bits an agent's permission mask may carry.
///
/// The set is open-ended: it grows by adding bits, never by renumbering
/// existing ones.
pub struct Permission;

impl Permission {
    pub const CAN_SWAP: u64 = 1;
    pub const CAN_TRANSFER: u64 = 2;
    pub const CAN_VOTE: u64 = 4;
    pub const CAN_CREATE_INTENT: u64 = 8;
    pub const CAN_ACCEPT_INTENT: u64 = 16;
}

/// A mask grants a capability exactly when the capability's bit is set.
pub open spec fn spec_has_permission(mask: u64, capability: u64) -> bool {
    mask & capability != 0
}

/// The one permission predicate every privileged operation goes through.
pub fn has_permission(mask: u64, capability: u64) -> (granted: bool)
    ensures
        granted == spec_has_permission(mask, capability),
{
    mask & capability != 0
}

} // verus!
