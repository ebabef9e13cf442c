//! The memberships: a set of `(club, account)` pairs, with the bounded bulk
//! removal of everything under one club.

use crate::model::{bulk_removed, entries_under, lemma_under_insert};
use crate::types::{AccountId, ClubId};
use vstd::prelude::*;

verus! {

/// What a bounded bulk removal reports.
#[derive(Clone, Copy, Debug, PartialEq, Eq, Structural)]
pub struct BulkRemoval {
    /// How many memberships were taken away.
    pub removed: u32,
    /// Whether no membership of the club is left.
    pub complete: bool,
}

/// The set of live memberships.
#[derive(Debug, PartialEq, Eq)]
pub struct Memberships {
    entries: Vec<(ClubId, AccountId)>,
}

impl View for Memberships {
    type V = Set<(ClubId, AccountId)>;

    closed spec fn view(&self) -> Set<(ClubId, AccountId)> {
        self.entries@.to_set()
    }
}

impl Clone for Memberships {
    fn clone(&self) -> (copy: Self)
        ensures
            copy@ == self@,
            copy.wf() == self.wf(),
    {
        let mut entries: Vec<(ClubId, AccountId)> = Vec::new();
        let mut i: usize = 0;
        while i < self.entries.len()
            invariant
                i <= self.entries@.len(),
                entries@ == self.entries@.take(i as int),
            decreases self.entries@.len() - i,
        {
            entries.push(self.entries[i]);
            i += 1;
            assert(entries@ =~= self.entries@.take(i as int));
        }
        assert(entries@ =~= self.entries@);
        Memberships { entries }
    }
}

impl Memberships {
    /// No pair is stored twice.
    pub closed spec fn wf(&self) -> bool {
        self.entries@.no_duplicates()
    }

    /// The empty set of memberships.
    pub fn new() -> (memberships: Self)
        ensures
            memberships.wf(),
            memberships@ == Set::<(ClubId, AccountId)>::empty(),
    {
        let memberships = Memberships { entries: Vec::new() };
        assert(memberships@ =~= Set::<(ClubId, AccountId)>::empty());
        memberships
    }

    /// The number of memberships.
    pub fn len(&self) -> (count: usize)
        requires
            self.wf(),
        ensures
            self@.finite(),
            count == self@.len(),
    {
        proof {
            self.entries@.unique_seq_to_set();
        }
        self.entries.len()
    }

    /// Where the pair is stored, if it is.
    fn position(&self, club_id: ClubId, account: AccountId) -> (at: Option<usize>)
        ensures
            match at {
                Some(i) => i < self.entries@.len() && self.entries@[i as int] == (club_id, account),
                None => !self@.contains((club_id, account)),
            },
    {
        let mut i: usize = 0;
        while i < self.entries.len()
            invariant
                i <= self.entries@.len(),
                forall|j: int| 0 <= j < i ==> self.entries@[j] != (club_id, account),
            decreases self.entries@.len() - i,
        {
            let entry = self.entries[i];
            if entry.0 == club_id && entry.1 == account {
                return Some(i);
            }
            i += 1;
        }
        None
    }

    /// Whether the account is a member of the club.
    pub fn contains(&self, club_id: ClubId, account: AccountId) -> (found: bool)
        ensures
            found == self@.contains((club_id, account)),
    {
        self.position(club_id, account).is_some()
    }

    /// Makes the account a member of the club, and says whether it was none
    /// before.
    pub fn insert(&mut self, club_id: ClubId, account: AccountId) -> (fresh: bool)
        requires
            old(self).wf(),
        ensures
            final(self).wf(),
            final(self)@ == old(self)@.insert((club_id, account)),
            fresh == !old(self)@.contains((club_id, account)),
    {
        if self.contains(club_id, account) {
            assert(self@ =~= self@.insert((club_id, account)));
            false
        } else {
            proof {
                self.entries@.lemma_push_to_set_commute((club_id, account));
            }
            self.entries.push((club_id, account));
            true
        }
    }

    /// Ends the account's membership of the club, and says whether there was
    /// one.
    pub fn remove(&mut self, club_id: ClubId, account: AccountId) -> (found: bool)
        requires
            old(self).wf(),
        ensures
            final(self).wf(),
            final(self)@ == old(self)@.remove((club_id, account)),
            found == old(self)@.contains((club_id, account)),
    {
        match self.position(club_id, account) {
            Some(i) => {
                let ghost before = self.entries@;
                self.entries.remove(i);
                proof {
                    let after = self.entries@;
                    assert forall|entry: (ClubId, AccountId)|
                        after.contains(entry) <==> before.contains(entry) && entry != (
                            club_id,
                            account,
                        ) by {
                        if after.contains(entry) {
                            let j = choose|j: int| 0 <= j < after.len() && after[j] == entry;
                            if j < i {
                                assert(before[j] == entry);
                            } else {
                                assert(before[j + 1] == entry);
                            }
                        }
                        if before.contains(entry) && entry != (club_id, account) {
                            let j = choose|j: int| 0 <= j < before.len() && before[j] == entry;
                            if j < i {
                                assert(after[j] == entry);
                            } else {
                                assert(after[j - 1] == entry);
                            }
                        }
                    }
                    assert(self@ =~= before.to_set().remove((club_id, account)));
                }
                true
            },
            None => {
                assert(self@ =~= self@.remove((club_id, account)));
                false
            },
        }
    }

    /// The memberships as a bounded bulk removal under `club_id` would leave
    /// them, and what that removal reports. The set itself stays as it is, so
    /// a caller can look at the report before it commits.
    pub fn staged_removal(&self, club_id: ClubId, limit: u32) -> (staged: (Memberships, BulkRemoval))
        requires
            self.wf(),
        ensures
            staged.0.wf(),
            bulk_removed(
                self@,
                staged.0@,
                club_id,
                limit,
                staged.1.removed,
                staged.1.complete,
            ),
    {
        let mut kept: Vec<(ClubId, AccountId)> = Vec::new();
        let mut removed: u32 = 0;
        let mut complete: bool = true;
        let mut i: usize = 0;
        proof {
            assert(self.entries@.take(0).to_set() =~= Set::<(ClubId, AccountId)>::empty());
            assert(kept@.to_set() =~= Set::<(ClubId, AccountId)>::empty());
            assert(entries_under(Set::<(ClubId, AccountId)>::empty(), club_id) =~= Set::<
                (ClubId, AccountId),
            >::empty());
        }
        while i < self.entries.len()
            invariant
                i <= self.entries@.len(),
                self.entries@.no_duplicates(),
                kept@.no_duplicates(),
                kept@.to_set().subset_of(self.entries@.take(i as int).to_set()),
                forall|entry: (ClubId, AccountId)|
                    self.entries@.take(i as int).to_set().contains(entry) && entry.0 != club_id
                        ==> #[trigger] kept@.to_set().contains(entry),
                removed <= limit,
                removed + entries_under(kept@.to_set(), club_id).len() == entries_under(
                    self.entries@.take(i as int).to_set(),
                    club_id,
                ).len(),
                complete == (entries_under(kept@.to_set(), club_id).len() == 0),
                !complete ==> removed == limit,
            decreases self.entries@.len() - i,
        {
            let entry = self.entries[i];
            let ghost seen = self.entries@.take(i as int);
            let ghost held = kept@;
            proof {
                assert(self.entries@.take(i + 1) =~= seen.push(entry));
                seen.lemma_push_to_set_commute(entry);
                assert(!seen.to_set().contains(entry)) by {
                    if seen.contains(entry) {
                        let j = choose|j: int| 0 <= j < seen.len() && seen[j] == entry;
                        assert(self.entries@[j] == self.entries@[i as int]);
                    }
                }
                lemma_under_insert(seen.to_set(), club_id, entry);
                lemma_under_insert(held.to_set(), club_id, entry);
                held.lemma_push_to_set_commute(entry);
                assert(!held.to_set().contains(entry));
                assert(!held.contains(entry));
            }
            if entry.0 == club_id && removed < limit {
                removed += 1;
            } else {
                kept.push(entry);
                if entry.0 == club_id {
                    complete = false;
                }
                assert(kept@.no_duplicates());
            }
            i += 1;
        }
        let staged = Memberships { entries: kept };
        proof {
            assert(self.entries@.take(self.entries@.len() as int) =~= self.entries@);
            let before = self@;
            let after = staged@;
            if complete {
                assert(entries_under(after, club_id) =~= Set::<(ClubId, AccountId)>::empty());
                assert forall|entry: (ClubId, AccountId)| after.contains(entry) implies entry.0
                    != club_id by {
                    if entry.0 == club_id {
                        assert(entries_under(after, club_id).contains(entry));
                    }
                }
                assert(after =~= before.difference(entries_under(before, club_id)));
            }
        }
        (staged, BulkRemoval { removed, complete })
    }

    /// The bounded bulk removal: takes away the memberships under `club_id`,
    /// `limit` of them at most, and reports how many went and whether none is
    /// left. Which of them stay where the limit is too small is left open.
    pub fn remove_all_under(&mut self, club_id: ClubId, limit: u32) -> (removal: BulkRemoval)
        requires
            old(self).wf(),
        ensures
            final(self).wf(),
            bulk_removed(
                old(self)@,
                final(self)@,
                club_id,
                limit,
                removal.removed,
                removal.complete,
            ),
    {
        let (staged, removal) = self.staged_removal(club_id, limit);
        *self = staged;
        removal
    }

    /// The accounts that are members of the club, each once, in no
    /// particular order.
    pub fn members_of(&self, club_id: ClubId) -> (accounts: Vec<AccountId>)
        requires
            self.wf(),
        ensures
            accounts@.no_duplicates(),
            forall|account: AccountId|
                accounts@.contains(account) <==> self@.contains((club_id, account)),
            accounts@.len() == entries_under(self@, club_id).len(),
    {
        let mut accounts: Vec<AccountId> = Vec::new();
        let mut i: usize = 0;
        proof {
            assert(self.entries@.take(0).to_set() =~= Set::<(ClubId, AccountId)>::empty());
            assert(entries_under(Set::<(ClubId, AccountId)>::empty(), club_id) =~= Set::<
                (ClubId, AccountId),
            >::empty());
        }
        while i < self.entries.len()
            invariant
                i <= self.entries@.len(),
                self.entries@.no_duplicates(),
                accounts@.no_duplicates(),
                forall|account: AccountId|
                    accounts@.contains(account) <==> self.entries@.take(i as int).to_set().contains(
                        (club_id, account),
                    ),
                accounts@.len() == entries_under(
                    self.entries@.take(i as int).to_set(),
                    club_id,
                ).len(),
            decreases self.entries@.len() - i,
        {
            let entry = self.entries[i];
            let ghost seen = self.entries@.take(i as int);
            let ghost listed = accounts@;
            proof {
                assert(self.entries@.take(i + 1) =~= seen.push(entry));
                seen.lemma_push_to_set_commute(entry);
                assert(!seen.to_set().contains(entry)) by {
                    if seen.contains(entry) {
                        let j = choose|j: int| 0 <= j < seen.len() && seen[j] == entry;
                        assert(self.entries@[j] == self.entries@[i as int]);
                    }
                }
                lemma_under_insert(seen.to_set(), club_id, entry);
            }
            if entry.0 == club_id {
                accounts.push(entry.1);
                proof {
                    assert(!listed.contains(entry.1));
                    assert forall|account: AccountId|
                        accounts@.contains(account) <==> seen.push(entry).to_set().contains(
                            (club_id, account),
                        ) by {
                        if accounts@.contains(account) {
                            let j = choose|j: int|
                                0 <= j < accounts@.len() && accounts@[j] == account;
                            if j < listed.len() {
                                assert(listed[j] == account);
                                assert(listed.contains(account));
                            }
                        }
                        if listed.contains(account) {
                            let j = choose|j: int| 0 <= j < listed.len() && listed[j] == account;
                            assert(accounts@[j] == account);
                        }
                        if account == entry.1 {
                            assert(accounts@[listed.len() as int] == account);
                        }
                    }
                }
            }
            i += 1;
        }
        proof {
            assert(self.entries@.take(self.entries@.len() as int) =~= self.entries@);
        }
        accounts
    }
}

} // verus!
