//! The cost of each transition, as the host charges it before the transition
//! runs. The registry itself charges nothing: it only reports the size that
//! the removal of a club is priced by.

use vstd::prelude::*;

verus! {

/// A cost, in units of computation time.
pub type Weight = u64;

/// The cost `amount`, held to the range of a [`Weight`].
pub open spec fn saturated(amount: int) -> Weight {
    if amount > Weight::MAX {
        Weight::MAX
    } else if amount < 0 {
        0
    } else {
        amount as Weight
    }
}

/// The product of two costs, held to the range of a [`Weight`].
fn times(left: Weight, right: Weight) -> (product: Weight)
    ensures
        product == saturated(left * right),
{
    match left.checked_mul(right) {
        Some(product) => product,
        None => Weight::MAX,
    }
}

/// What one read and one write of the host's database cost.
#[derive(Clone, Copy, Debug, PartialEq, Eq, Structural)]
pub struct DbWeight {
    /// The cost of one read.
    pub read: Weight,
    /// The cost of one write.
    pub write: Weight,
}

impl DbWeight {
    /// The cost of `count` reads.
    pub fn reads(self, count: u64) -> (weight: Weight)
        ensures
            weight == saturated(self.read * count),
    {
        times(self.read, count)
    }

    /// The cost of `count` writes.
    pub fn writes(self, count: u64) -> (weight: Weight)
        ensures
            weight == saturated(self.write * count),
    {
        times(self.write, count)
    }
}

/// The cost of each transition of the registry.
pub trait WeightInfo {
    /// The cost of creating a club.
    fn add_new_club(&self) -> Weight;

    /// The cost of adding a member.
    fn add_member(&self) -> Weight;

    /// The cost of removing a club with `s` members.
    fn remove_club(&self, s: u32) -> Weight;

    /// The cost of removing a member.
    fn remove_member(&self) -> Weight;
}

/// The costs as measured on the recommended hardware, over a database with
/// the given access costs.
#[derive(Clone, Copy, Debug, PartialEq, Eq, Structural)]
pub struct SubstrateWeight {
    /// What the database charges.
    pub db: DbWeight,
}

impl SubstrateWeight {
    /// The computation time of creating a club, without database access.
    pub const ADD_NEW_CLUB_BASE: Weight = 27_602_000;

    /// The computation time of adding a member, without database access.
    pub const ADD_MEMBER_BASE: Weight = 39_023_000;

    /// The computation time of removing a club, for each of its members,
    /// without database access.
    pub const REMOVE_CLUB_PER_MEMBER: Weight = 3_385_000;

    /// The computation time of removing a member, without database access.
    pub const REMOVE_MEMBER_BASE: Weight = 37_575_000;

    /// The costs over a database with the given access costs.
    pub fn new(db: DbWeight) -> (weights: Self)
        ensures
            weights.db == db,
    {
        SubstrateWeight { db }
    }

    /// What creating a club costs: its computation time, one read and one
    /// write.
    pub open spec fn add_new_club_cost(self) -> int {
        Self::ADD_NEW_CLUB_BASE + self.db.read + self.db.write
    }

    /// What adding a member costs: its computation time, two reads and two
    /// writes.
    pub open spec fn add_member_cost(self) -> int {
        Self::ADD_MEMBER_BASE + 2 * self.db.read + 2 * self.db.write
    }

    /// What removing a club with `s` members costs: the computation time for
    /// each member, one read, one write for the club and one for each member.
    pub open spec fn remove_club_cost(self, s: u32) -> int {
        Self::REMOVE_CLUB_PER_MEMBER * s + self.db.read + self.db.write + self.db.write * s
    }

    /// What removing a member costs: its computation time, two reads and two
    /// writes.
    pub open spec fn remove_member_cost(self) -> int {
        Self::REMOVE_MEMBER_BASE + 2 * self.db.read + 2 * self.db.write
    }
}

impl WeightInfo for SubstrateWeight {
    fn add_new_club(&self) -> (weight: Weight)
        ensures
            weight == saturated(self.add_new_club_cost()),
    {
        Self::ADD_NEW_CLUB_BASE.saturating_add(self.db.reads(1)).saturating_add(self.db.writes(1))
    }

    fn add_member(&self) -> (weight: Weight)
        ensures
            weight == saturated(self.add_member_cost()),
    {
        Self::ADD_MEMBER_BASE.saturating_add(self.db.reads(2)).saturating_add(self.db.writes(2))
    }

    fn remove_club(&self, s: u32) -> (weight: Weight)
        ensures
            weight == saturated(self.remove_club_cost(s)),
    {
        let members: u64 = s as u64;
        assert(self.db.write * members >= 0) by (nonlinear_arith);
        let zero: Weight = 0;
        zero.saturating_add(times(Self::REMOVE_CLUB_PER_MEMBER, members)).saturating_add(
            self.db.reads(1),
        ).saturating_add(self.db.writes(1)).saturating_add(self.db.writes(times(1, members)))
    }

    fn remove_member(&self) -> (weight: Weight)
        ensures
            weight == saturated(self.remove_member_cost()),
    {
        Self::REMOVE_MEMBER_BASE.saturating_add(self.db.reads(2)).saturating_add(
            self.db.writes(2),
        )
    }
}

} // verus!
