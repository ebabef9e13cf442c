//! The pallet: the store of clubs and memberships, and its transitions.

use crate::clubs::ClubTable;
use crate::laws::{
    lemma_add_member_well_formed, lemma_add_new_club_well_formed, lemma_empty_well_formed,
    lemma_remove_club_within_well_formed, lemma_remove_member_well_formed,
};
use crate::members::Memberships;
use crate::model::{entries_under, Registry};
use crate::types::{
    outcome_view, AccountId, Admission, ClubDetails, ClubId, DispatchError, Error, Event,
    copy_bytes,
};
use vstd::prelude::*;

verus! {

/// The store of clubs and memberships, with the longest name it admits. It is
/// an owned value: whoever holds it runs the transitions on it.
#[derive(Debug, PartialEq, Eq)]
pub struct Pallet {
    clubs: ClubTable,
    memberships: Memberships,
    max_length: u32,
}

impl View for Pallet {
    type V = Registry;

    closed spec fn view(&self) -> Registry {
        Registry { clubs: self.clubs@, memberships: self.memberships@ }
    }
}

impl Clone for Pallet {
    fn clone(&self) -> (copy: Self)
        ensures
            self.wf() ==> copy.wf() && copy@ == self@ && copy.max_length() == self.max_length(),
    {
        Pallet {
            clubs: self.clubs.clone(),
            memberships: self.memberships.clone(),
            max_length: self.max_length,
        }
    }
}

impl Pallet {
    /// The longest name, in bytes, that the store admits.
    pub closed spec fn spec_max_length(&self) -> u32 {
        self.max_length
    }

    /// The store holds each club and each membership once, and its state is
    /// well formed.
    pub closed spec fn wf(&self) -> bool {
        &&& self.clubs.wf()
        &&& self.memberships.wf()
        &&& self@.well_formed(self.max_length)
    }

    /// The state of a valid store is well formed: every club's member count
    /// is the number of memberships under it, every membership stands under
    /// a live club, and no name is longer than the store admits.
    pub proof fn lemma_well_formed(&self)
        requires
            self.wf(),
        ensures
            self@.well_formed(self.max_length()),
    {
    }

    /// The empty store.
    pub fn new(max_length: u32) -> (store: Self)
        ensures
            store.wf(),
            store@ == Registry::empty(),
            store.max_length() == max_length,
    {
        let store = Pallet { clubs: ClubTable::new(), memberships: Memberships::new(), max_length };
        proof {
            lemma_empty_well_formed(max_length);
            assert(store@ =~= Registry::empty());
        }
        store
    }

    /// The longest name, in bytes, that the store admits.
    #[verifier::when_used_as_spec(spec_max_length)]
    pub fn max_length(&self) -> (max_length: u32)
        ensures
            max_length == self.max_length(),
    {
        self.max_length
    }

    /// Creates a club without members. Refused where the request is denied,
    /// where a club with this id is live, and where the name is too long, in
    /// this order.
    pub fn add_new_club(&mut self, admission: Admission, club_id: ClubId, name: Vec<u8>) -> (result:
        Result<Option<Event>, DispatchError>)
        requires
            old(self).wf(),
        ensures
            final(self).wf(),
            final(self).max_length() == old(self).max_length(),
            final(self)@ == old(self)@.add_new_club(
                old(self).max_length(),
                admission,
                club_id,
                name@,
            ).state,
            outcome_view(result) == old(self)@.add_new_club(
                old(self).max_length(),
                admission,
                club_id,
                name@,
            ).result,
            result is Err ==> *final(self) == *old(self),
    {
        proof {
            lemma_add_new_club_well_formed(self@, self.max_length, admission, club_id, name@);
        }
        if let Admission::Denied = admission {
            return Err(DispatchError::BadOrigin);
        }
        if self.clubs.contains(club_id) {
            return Err(DispatchError::Module(Error::DuplicateClubId));
        }
        if name.len() > self.max_length as usize {
            return Err(DispatchError::Module(Error::NameTooLong));
        }
        let event = Event::ClubAdded(club_id, copy_bytes(&name));
        self.clubs.insert(ClubDetails { id: club_id, members_count: 0, name });
        Ok(Some(event))
    }

    /// Removes a club and all its memberships. The bulk removal of the
    /// memberships is bounded by the club's member count, which is what it
    /// needs.
    pub fn remove_club(&mut self, admission: Admission, club_id: ClubId) -> (result: Result<
        Option<Event>,
        DispatchError,
    >)
        requires
            old(self).wf(),
        ensures
            final(self).wf(),
            final(self).max_length() == old(self).max_length(),
            final(self)@ == old(self)@.remove_club(admission, club_id).state,
            outcome_view(result) == old(self)@.remove_club(admission, club_id).result,
            result is Err ==> *final(self) == *old(self),
            !(result matches Err(DispatchError::Module(Error::StorageOverflow))),
    {
        let limit = self.get_club_members_count(club_id);
        self.remove_club_within(admission, club_id, limit)
    }

    /// Removes a club and all its memberships, where the bulk removal may
    /// touch at most `limit` memberships. Where the limit is too small the
    /// removal is not committed: the club, its memberships and its count stay
    /// as they were, and the transition reports a storage overflow.
    pub fn remove_club_within(&mut self, admission: Admission, club_id: ClubId, limit: u32) -> (result:
        Result<Option<Event>, DispatchError>)
        requires
            old(self).wf(),
        ensures
            final(self).wf(),
            final(self).max_length() == old(self).max_length(),
            final(self)@ == old(self)@.remove_club_within(admission, club_id, limit).state,
            outcome_view(result) == old(self)@.remove_club_within(admission, club_id, limit).result,
            result is Err ==> *final(self) == *old(self),
    {
        proof {
            lemma_remove_club_within_well_formed(
                self@,
                self.max_length,
                admission,
                club_id,
                limit,
            );
        }
        if let Admission::Denied = admission {
            return Err(DispatchError::BadOrigin);
        }
        if !self.clubs.contains(club_id) {
            return Err(DispatchError::Module(Error::ClubNotFound));
        }
        let (staged, removal) = self.memberships.staged_removal(club_id, limit);
        if !removal.complete {
            return Err(DispatchError::Module(Error::StorageOverflow));
        }
        self.memberships = staged;
        self.clubs.remove(club_id);
        Ok(Some(Event::ClubRemoved(club_id)))
    }

    /// Makes an account a member of a club. Where it is one already, nothing
    /// changes and nothing is emitted. Refused where the request is denied,
    /// where the club is not live, and where the member count cannot grow.
    pub fn add_member(&mut self, admission: Admission, club_id: ClubId, member: AccountId) -> (result:
        Result<Option<Event>, DispatchError>)
        requires
            old(self).wf(),
        ensures
            final(self).wf(),
            final(self).max_length() == old(self).max_length(),
            final(self)@ == old(self)@.add_member(admission, club_id, member).state,
            outcome_view(result) == old(self)@.add_member(admission, club_id, member).result,
            !(result matches Ok(Some(_))) ==> *final(self) == *old(self),
    {
        proof {
            lemma_add_member_well_formed(self@, self.max_length, admission, club_id, member);
        }
        if let Admission::Denied = admission {
            return Err(DispatchError::BadOrigin);
        }
        let mut club = match self.clubs.get(club_id) {
            Some(club) => club,
            None => {
                return Err(DispatchError::Module(Error::ClubNotFound));
            },
        };
        if self.memberships.contains(club_id, member) {
            return Ok(None);
        }
        club.members_count = match club.members_count.checked_add(1) {
            Some(count) => count,
            None => {
                return Err(DispatchError::Module(Error::StorageOverflow));
            },
        };
        self.clubs.insert(club);
        self.memberships.insert(club_id, member);
        Ok(Some(Event::ClubMemberAdded(club_id, member)))
    }

    /// Ends an account's membership of a club. Refused where the request is
    /// denied, where the club is not live, and where the account is no
    /// member of it.
    pub fn remove_member(&mut self, admission: Admission, club_id: ClubId, member: AccountId) -> (result:
        Result<Option<Event>, DispatchError>)
        requires
            old(self).wf(),
        ensures
            final(self).wf(),
            final(self).max_length() == old(self).max_length(),
            final(self)@ == old(self)@.remove_member(admission, club_id, member).state,
            outcome_view(result) == old(self)@.remove_member(admission, club_id, member).result,
            result is Err ==> *final(self) == *old(self),
    {
        proof {
            lemma_remove_member_well_formed(self@, self.max_length, admission, club_id, member);
        }
        if let Admission::Denied = admission {
            return Err(DispatchError::BadOrigin);
        }
        let mut club = match self.clubs.get(club_id) {
            Some(club) => club,
            None => {
                return Err(DispatchError::Module(Error::ClubNotFound));
            },
        };
        if !self.memberships.contains(club_id, member) {
            return Err(DispatchError::Module(Error::MemberNotFound));
        }
        proof {
            assert(entries_under(self@.memberships, club_id).contains((club_id, member)));
        }
        club.members_count = club.members_count - 1;
        self.clubs.insert(club);
        self.memberships.remove(club_id, member);
        Ok(Some(Event::ClubMemberRemoved(club_id, member)))
    }

    /// The ids of the live clubs, each once, in no particular order.
    pub fn get_all_clubs(&self) -> (ids: Vec<ClubId>)
        requires
            self.wf(),
        ensures
            ids@.no_duplicates(),
            ids@.to_set() == self@.clubs.dom(),
    {
        self.clubs.ids()
    }

    /// The members of a club, each once, in no particular order. Empty where
    /// the club has no members or is not live.
    pub fn get_all_members(&self, club_id: &ClubId) -> (accounts: Vec<AccountId>)
        requires
            self.wf(),
        ensures
            accounts@.no_duplicates(),
            forall|account: AccountId|
                accounts@.contains(account) <==> self@.memberships.contains((*club_id, account)),
            accounts@.len() == self@.members_under(*club_id),
            !self@.clubs.contains_key(*club_id) ==> accounts@.len() == 0,
    {
        proof {
            if !self@.clubs.contains_key(*club_id) {
                assert(entries_under(self@.memberships, *club_id) =~= Set::<
                    (ClubId, AccountId),
                >::empty()) by {
                    assert forall|entry: (ClubId, AccountId)|
                        !entries_under(self@.memberships, *club_id).contains(entry) by {
                        if self@.memberships.contains(entry) && entry.0 == *club_id {
                            assert(self@.memberships.contains((*club_id, entry.1)));
                        }
                    }
                }
            }
        }
        self.memberships.members_of(*club_id)
    }

    /// The size that prices the removal of a club: its member count, or zero
    /// where no such club is live.
    pub fn get_club_members_count(&self, club_id: ClubId) -> (count: u32)
        requires
            self.wf(),
        ensures
            count == self@.club_members_count(club_id),
    {
        match self.clubs.members_count(club_id) {
            None => 0,
            Some(count) => count,
        }
    }

    /// The record of a club, if the club is live.
    pub fn clubs(&self, club_id: ClubId) -> (record: Option<ClubDetails>)
        requires
            self.wf(),
        ensures
            match record {
                Some(details) => self@.clubs.contains_key(club_id) && details@
                    == self@.clubs[club_id],
                None => !self@.clubs.contains_key(club_id),
            },
    {
        self.clubs.get(club_id)
    }

    /// Whether the account is a member of the club.
    pub fn membership(&self, club_id: ClubId, member: AccountId) -> (found: bool)
        ensures
            found == self@.memberships.contains((club_id, member)),
    {
        self.memberships.contains(club_id, member)
    }
}

} // verus!
