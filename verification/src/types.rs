//! The plain values that cross the registry's boundary.

use vstd::prelude::*;

verus! {

/// Identifier of a club, chosen by the caller.
pub type ClubId = u32;

/// Identifier of an account that can be a member of clubs.
pub type AccountId = u64;

/// Whether the caller of one requested transition was admitted.
#[derive(Clone, Copy, Debug, PartialEq, Eq, Structural)]
pub enum Admission {
    /// The caller may run the transition.
    Admitted,
    /// The caller may not run the transition.
    Denied,
}

/// The ways in which an admitted transition can be refused.
#[derive(Clone, Copy, Debug, PartialEq, Eq, Structural)]
pub enum Error {
    /// A counter would leave its range, or a bulk removal did not fit its limit.
    StorageOverflow,
    /// The name is longer than the configured maximum.
    NameTooLong,
    /// A club with this id is already live.
    DuplicateClubId,
    /// No club with this id is live.
    ClubNotFound,
    /// The account is not a member of the club.
    MemberNotFound,
}

/// Why a transition did not take place.
#[derive(Clone, Copy, Debug, PartialEq, Eq, Structural)]
pub enum DispatchError {
    /// The caller was not admitted.
    BadOrigin,
    /// The registry refused the transition.
    Module(Error),
}

/// The notification that goes with a transition that changed the store.
#[derive(Debug, PartialEq, Eq)]
pub enum Event {
    /// A club was created: its id and its name.
    ClubAdded(ClubId, Vec<u8>),
    /// A club was removed, with all its memberships.
    ClubRemoved(ClubId),
    /// An account joined a club.
    ClubMemberAdded(ClubId, AccountId),
    /// An account left a club.
    ClubMemberRemoved(ClubId, AccountId),
}

/// The mathematical value of an [`Event`].
pub enum EventView {
    ClubAdded(ClubId, Seq<u8>),
    ClubRemoved(ClubId),
    ClubMemberAdded(ClubId, AccountId),
    ClubMemberRemoved(ClubId, AccountId),
}

impl View for Event {
    type V = EventView;

    open spec fn view(&self) -> EventView {
        match *self {
            Event::ClubAdded(club_id, name) => EventView::ClubAdded(club_id, name@),
            Event::ClubRemoved(club_id) => EventView::ClubRemoved(club_id),
            Event::ClubMemberAdded(club_id, account) => EventView::ClubMemberAdded(
                club_id,
                account,
            ),
            Event::ClubMemberRemoved(club_id, account) => EventView::ClubMemberRemoved(
                club_id,
                account,
            ),
        }
    }
}

impl Clone for Event {
    fn clone(&self) -> (copy: Self)
        ensures
            copy@ == self@,
    {
        match self {
            Event::ClubAdded(club_id, name) => Event::ClubAdded(*club_id, copy_bytes(name)),
            Event::ClubRemoved(club_id) => Event::ClubRemoved(*club_id),
            Event::ClubMemberAdded(club_id, account) => Event::ClubMemberAdded(*club_id, *account),
            Event::ClubMemberRemoved(club_id, account) => Event::ClubMemberRemoved(
                *club_id,
                *account,
            ),
        }
    }
}

/// The record that the store keeps of one club.
#[derive(Debug, PartialEq, Eq)]
pub struct ClubDetails {
    /// The club's id, equal to the key under which the record is stored.
    pub id: ClubId,
    /// The number of memberships under the club.
    pub members_count: u32,
    /// The club's name.
    pub name: Vec<u8>,
}

/// The mathematical value of a [`ClubDetails`].
pub struct ClubView {
    pub id: ClubId,
    pub members_count: u32,
    pub name: Seq<u8>,
}

impl View for ClubDetails {
    type V = ClubView;

    open spec fn view(&self) -> ClubView {
        ClubView { id: self.id, members_count: self.members_count, name: self.name@ }
    }
}

impl Clone for ClubDetails {
    fn clone(&self) -> (copy: Self)
        ensures
            copy@ == self@,
    {
        let name = copy_bytes(&self.name);
        ClubDetails { id: self.id, members_count: self.members_count, name }
    }
}

/// A fresh vector with the same bytes.
pub(crate) fn copy_bytes(bytes: &Vec<u8>) -> (copy: Vec<u8>)
    ensures
        copy@ == bytes@,
{
    let mut copy: Vec<u8> = Vec::new();
    let mut i: usize = 0;
    while i < bytes.len()
        invariant
            i <= bytes.len(),
            copy@ == bytes@.subrange(0, i as int),
        decreases bytes.len() - i,
    {
        copy.push(bytes[i]);
        i += 1;
        assert(copy@ == bytes@.subrange(0, i as int));
    }
    assert(bytes@.subrange(0, bytes.len() as int) == bytes@);
    copy
}

/// The mathematical value of what a transition hands back.
pub open spec fn outcome_view(result: Result<Option<Event>, DispatchError>) -> Result<
    Option<EventView>,
    DispatchError,
> {
    match result {
        Ok(Some(event)) => Ok(Some(event@)),
        Ok(None) => Ok(None),
        Err(error) => Err(error),
    }
}

} // verus!
