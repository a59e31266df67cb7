//! The role hierarchy: a totally ordered set of capability levels.
//!
//! Every authorization decision in the library is a comparison of ranks:
//! a requester acts when its role's rank is at least the rank the operation
//! demands.  The ordering is `NoRole < Editor < Admin < SuperAdmin`.

use vstd::prelude::*;

verus! {

/// The capability level attached to an account, granted at signup by the
/// invite that was redeemed and never changed afterwards.
#[derive(Clone, Copy, Debug, PartialEq, Eq, Structural)]
pub enum UserRole {
    NoRole,
    Editor,
    Admin,
    SuperAdmin,
}

impl UserRole {
    /// The ordinal that realizes the hierarchy; the value 0 is reserved and
    /// never assigned to a role.
    pub open spec fn spec_rank(self) -> u8 {
        match self {
            UserRole::NoRole => 1,
            UserRole::Editor => 2,
            UserRole::Admin => 3,
            UserRole::SuperAdmin => 4,
        }
    }

    /// `self` meets the minimum level `required`.
    pub open spec fn spec_at_least(self, required: UserRole) -> bool {
        self.spec_rank() >= required.spec_rank()
    }

    /// The explicit ordinal of this role.
    pub fn rank(self) -> (r: u8)
        ensures
            r == self.spec_rank(),
    {
        match self {
            UserRole::NoRole => 1,
            UserRole::Editor => 2,
            UserRole::Admin => 3,
            UserRole::SuperAdmin => 4,
        }
    }

    /// Whether `self` meets the minimum level `required`.  This is the one
    /// comparison all role gates use.
    pub fn at_least(self, required: UserRole) -> (r: bool)
        ensures
            r == self.spec_at_least(required),
    {
        self.rank() >= required.rank()
    }
}

impl From<UserRole> for u8 {
    /// The rank, for callers that store or order roles as small integers.
    fn from(role: UserRole) -> (r: u8) {
        role.rank()
    }
}

impl vstd::std_specs::convert::FromSpecImpl<UserRole> for u8 {
    open spec fn obeys_from_spec() -> bool {
        true
    }

    open spec fn from_spec(role: UserRole) -> u8 {
        role.spec_rank()
    }
}

} // verus!
