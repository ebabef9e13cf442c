//! The mathematical model of the registry: its state, the invariant that
//! ties the two collections together, and each transition as a function from
//! a state to the next state and the outcome handed back.

use crate::types::{AccountId, Admission, ClubId, ClubView, DispatchError, Error, EventView};
use vstd::prelude::*;

verus! {

/// The memberships under one club.
pub open spec fn entries_under(memberships: Set<(ClubId, AccountId)>, club_id: ClubId) -> Set<
    (ClubId, AccountId),
> {
    memberships.filter(|entry: (ClubId, AccountId)| entry.0 == club_id)
}

/// The state of the registry: the live clubs and the live memberships.
#[verifier::ext_equal]
pub struct Registry {
    pub clubs: Map<ClubId, ClubView>,
    pub memberships: Set<(ClubId, AccountId)>,
}

/// What a transition leads to: the next state and the outcome handed back.
#[verifier::ext_equal]
pub struct Step {
    pub state: Registry,
    pub result: Result<Option<EventView>, DispatchError>,
}

impl Registry {
    /// The registry without clubs and memberships.
    pub open spec fn empty() -> Registry {
        Registry { clubs: Map::empty(), memberships: Set::empty() }
    }

    /// The number of memberships under a club.
    pub open spec fn members_under(self, club_id: ClubId) -> nat {
        entries_under(self.memberships, club_id).len()
    }

    /// Every record sits under its own id, with a name of at most
    /// `max_length` bytes and a count equal to the number of memberships
    /// under the club.
    pub open spec fn records_consistent(self, max_length: u32) -> bool {
        forall|club_id: ClubId| #[trigger]
            self.clubs.contains_key(club_id) ==> {
                &&& self.clubs[club_id].id == club_id
                &&& self.clubs[club_id].name.len() <= max_length
                &&& self.clubs[club_id].members_count == self.members_under(club_id)
            }
    }

    /// Every membership stands under a live club.
    pub open spec fn memberships_anchored(self) -> bool {
        forall|club_id: ClubId, account: AccountId| #[trigger]
            self.memberships.contains((club_id, account)) ==> self.clubs.contains_key(club_id)
    }

    /// The invariant of the registry.
    pub open spec fn well_formed(self, max_length: u32) -> bool {
        &&& self.clubs.dom().finite()
        &&& self.memberships.finite()
        &&& self.records_consistent(max_length)
        &&& self.memberships_anchored()
    }

    /// The step that changes nothing and reports `error`.
    pub open spec fn refuse(self, error: DispatchError) -> Step {
        Step { state: self, result: Err(error) }
    }

    /// Creating a club.
    pub open spec fn add_new_club(
        self,
        max_length: u32,
        admission: Admission,
        club_id: ClubId,
        name: Seq<u8>,
    ) -> Step {
        if admission is Denied {
            self.refuse(DispatchError::BadOrigin)
        } else if self.clubs.contains_key(club_id) {
            self.refuse(DispatchError::Module(Error::DuplicateClubId))
        } else if name.len() > max_length {
            self.refuse(DispatchError::Module(Error::NameTooLong))
        } else {
            Step {
                state: Registry {
                    clubs: self.clubs.insert(
                        club_id,
                        ClubView { id: club_id, members_count: 0, name },
                    ),
                    memberships: self.memberships,
                },
                result: Ok(Some(EventView::ClubAdded(club_id, name))),
            }
        }
    }

    /// Adding an account to a club. Adding a member again changes nothing
    /// and emits nothing.
    pub open spec fn add_member(
        self,
        admission: Admission,
        club_id: ClubId,
        account: AccountId,
    ) -> Step {
        if admission is Denied {
            self.refuse(DispatchError::BadOrigin)
        } else if !self.clubs.contains_key(club_id) {
            self.refuse(DispatchError::Module(Error::ClubNotFound))
        } else if self.memberships.contains((club_id, account)) {
            Step { state: self, result: Ok(None) }
        } else if self.clubs[club_id].members_count == u32::MAX {
            self.refuse(DispatchError::Module(Error::StorageOverflow))
        } else {
            let club = self.clubs[club_id];
            Step {
                state: Registry {
                    clubs: self.clubs.insert(
                        club_id,
                        ClubView { members_count: (club.members_count + 1) as u32, ..club },
                    ),
                    memberships: self.memberships.insert((club_id, account)),
                },
                result: Ok(Some(EventView::ClubMemberAdded(club_id, account))),
            }
        }
    }

    /// Removing an account from a club.
    pub open spec fn remove_member(
        self,
        admission: Admission,
        club_id: ClubId,
        account: AccountId,
    ) -> Step {
        if admission is Denied {
            self.refuse(DispatchError::BadOrigin)
        } else if !self.clubs.contains_key(club_id) {
            self.refuse(DispatchError::Module(Error::ClubNotFound))
        } else if !self.memberships.contains((club_id, account)) {
            self.refuse(DispatchError::Module(Error::MemberNotFound))
        } else {
            let club = self.clubs[club_id];
            Step {
                state: Registry {
                    clubs: self.clubs.insert(
                        club_id,
                        ClubView { members_count: (club.members_count - 1) as u32, ..club },
                    ),
                    memberships: self.memberships.remove((club_id, account)),
                },
                result: Ok(Some(EventView::ClubMemberRemoved(club_id, account))),
            }
        }
    }

    /// Removing a club and all its memberships, where the bulk removal may
    /// touch at most `limit` memberships. A limit below the number of
    /// memberships under the club refuses the whole transition.
    pub open spec fn remove_club_within(
        self,
        admission: Admission,
        club_id: ClubId,
        limit: u32,
    ) -> Step {
        if admission is Denied {
            self.refuse(DispatchError::BadOrigin)
        } else if !self.clubs.contains_key(club_id) {
            self.refuse(DispatchError::Module(Error::ClubNotFound))
        } else if limit < self.members_under(club_id) {
            self.refuse(DispatchError::Module(Error::StorageOverflow))
        } else {
            Step {
                state: Registry {
                    clubs: self.clubs.remove(club_id),
                    memberships: self.memberships.difference(
                        entries_under(self.memberships, club_id),
                    ),
                },
                result: Ok(Some(EventView::ClubRemoved(club_id))),
            }
        }
    }

    /// The size that prices the removal of a club: its member count, or zero
    /// where no such club is live.
    pub open spec fn club_members_count(self, club_id: ClubId) -> u32 {
        if self.clubs.contains_key(club_id) {
            self.clubs[club_id].members_count
        } else {
            0
        }
    }

    /// Removing a club and all its memberships, with the club's own member
    /// count as the limit of the bulk removal.
    pub open spec fn remove_club(self, admission: Admission, club_id: ClubId) -> Step {
        self.remove_club_within(admission, club_id, self.club_members_count(club_id))
    }

    /// One requested transition, whatever it is.
    pub open spec fn apply(self, max_length: u32, call: Call) -> Step {
        match call {
            Call::AddNewClub { admission, club_id, name } => self.add_new_club(
                max_length,
                admission,
                club_id,
                name,
            ),
            Call::AddMember { admission, club_id, account } => self.add_member(
                admission,
                club_id,
                account,
            ),
            Call::RemoveMember { admission, club_id, account } => self.remove_member(
                admission,
                club_id,
                account,
            ),
            Call::RemoveClub { admission, club_id } => self.remove_club(admission, club_id),
            Call::RemoveClubWithin { admission, club_id, limit } => self.remove_club_within(
                admission,
                club_id,
                limit,
            ),
        }
    }

    /// The state that a sequence of requested transitions leads to, from the
    /// empty registry. These are the reachable states.
    pub open spec fn after(max_length: u32, calls: Seq<Call>) -> Registry
        decreases calls.len(),
    {
        if calls.len() == 0 {
            Registry::empty()
        } else {
            Registry::after(max_length, calls.drop_last()).apply(max_length, calls.last()).state
        }
    }
}

/// A requested transition.
pub enum Call {
    AddNewClub { admission: Admission, club_id: ClubId, name: Seq<u8> },
    AddMember { admission: Admission, club_id: ClubId, account: AccountId },
    RemoveMember { admission: Admission, club_id: ClubId, account: AccountId },
    RemoveClub { admission: Admission, club_id: ClubId },
    RemoveClubWithin { admission: Admission, club_id: ClubId, limit: u32 },
}

} // verus!

verus! {

/// What a bounded bulk removal under `club_id` may do to the memberships:
/// it takes away `limit` memberships of the club, or all of them where there
/// are no more than `limit`, touches no other club, and says how many it
/// took and whether none is left.
pub open spec fn bulk_removed(
    before: Set<(ClubId, AccountId)>,
    after: Set<(ClubId, AccountId)>,
    club_id: ClubId,
    limit: u32,
    removed: u32,
    complete: bool,
) -> bool {
    let under_before = entries_under(before, club_id).len();
    &&& after.subset_of(before)
    &&& forall|entry: (ClubId, AccountId)|
        before.contains(entry) && entry.0 != club_id ==> #[trigger] after.contains(entry)
    &&& removed == if under_before <= limit {
        under_before
    } else {
        limit as nat
    }
    &&& entries_under(after, club_id).len() == under_before - removed
    &&& complete == (under_before <= limit)
    &&& complete ==> after == before.difference(entries_under(before, club_id))
}

/// The memberships under a club after one more membership came in.
pub proof fn lemma_under_insert(
    memberships: Set<(ClubId, AccountId)>,
    club_id: ClubId,
    entry: (ClubId, AccountId),
)
    ensures
        entry.0 == club_id ==> entries_under(memberships.insert(entry), club_id)
            == entries_under(memberships, club_id).insert(entry),
        entry.0 != club_id ==> entries_under(memberships.insert(entry), club_id)
            == entries_under(memberships, club_id),
{
    if entry.0 == club_id {
        assert(entries_under(memberships.insert(entry), club_id) =~= entries_under(
            memberships,
            club_id,
        ).insert(entry));
    } else {
        assert(entries_under(memberships.insert(entry), club_id) =~= entries_under(
            memberships,
            club_id,
        ));
    }
}

/// The memberships under a club after one membership went away.
pub proof fn lemma_under_remove(
    memberships: Set<(ClubId, AccountId)>,
    club_id: ClubId,
    entry: (ClubId, AccountId),
)
    ensures
        entry.0 == club_id ==> entries_under(memberships.remove(entry), club_id)
            == entries_under(memberships, club_id).remove(entry),
        entry.0 != club_id ==> entries_under(memberships.remove(entry), club_id)
            == entries_under(memberships, club_id),
{
    if entry.0 == club_id {
        assert(entries_under(memberships.remove(entry), club_id) =~= entries_under(
            memberships,
            club_id,
        ).remove(entry));
    } else {
        assert(entries_under(memberships.remove(entry), club_id) =~= entries_under(
            memberships,
            club_id,
        ));
    }
}

} // verus!
