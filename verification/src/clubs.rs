//! The clubs: a table of records, keyed by the club's id.

use crate::types::{ClubDetails, ClubId, ClubView};
use vstd::prelude::*;

verus! {

/// Whether one of the records carries the id.
pub open spec fn listed(records: Seq<ClubDetails>, club_id: ClubId) -> bool {
    exists|i: int| 0 <= i < records.len() && #[trigger] records[i].id == club_id
}

/// The place of a record that carries the id.
pub open spec fn place_of(records: Seq<ClubDetails>, club_id: ClubId) -> int {
    choose|i: int| 0 <= i < records.len() && #[trigger] records[i].id == club_id
}

/// No two records carry the same id.
pub open spec fn distinct_ids(records: Seq<ClubDetails>) -> bool {
    forall|i: int, j: int|
        0 <= i < records.len() && 0 <= j < records.len() && i != j ==> #[trigger] records[i].id
            != #[trigger] records[j].id
}

/// The records as a map from each id to the record that carries it.
pub open spec fn table_of(records: Seq<ClubDetails>) -> Map<ClubId, ClubView> {
    Map::new(
        |club_id: ClubId| listed(records, club_id),
        |club_id: ClubId| records[place_of(records, club_id)]@,
    )
}

/// A record is found under its own id.
proof fn lemma_record_at(records: Seq<ClubDetails>, i: int)
    requires
        distinct_ids(records),
        0 <= i < records.len(),
    ensures
        table_of(records).contains_key(records[i].id),
        table_of(records)[records[i].id] == records[i]@,
        place_of(records, records[i].id) == i,
{
    assert(listed(records, records[i].id));
}

/// The table of live clubs.
#[derive(Debug, PartialEq, Eq)]
pub struct ClubTable {
    records: Vec<ClubDetails>,
}

impl View for ClubTable {
    type V = Map<ClubId, ClubView>;

    closed spec fn view(&self) -> Map<ClubId, ClubView> {
        table_of(self.records@)
    }
}

impl Clone for ClubTable {
    fn clone(&self) -> (copy: Self)
        ensures
            self.wf() ==> copy.wf() && copy@ == self@,
    {
        let mut records: Vec<ClubDetails> = Vec::new();
        let mut i: usize = 0;
        while i < self.records.len()
            invariant
                i <= self.records@.len(),
                records@.len() == i,
                forall|j: int| 0 <= j < i ==> records@[j]@ == self.records@[j]@,
            decreases self.records@.len() - i,
        {
            records.push(self.records[i].clone());
            i += 1;
        }
        let copy = ClubTable { records };
        proof {
            if self.wf() {
                let ours = self.records@;
                let theirs = copy.records@;
                assert(distinct_ids(theirs)) by {
                    assert forall|a: int, b: int|
                        0 <= a < theirs.len() && 0 <= b < theirs.len() && a != b implies theirs[a].id
                        != theirs[b].id by {
                        assert(theirs[a]@ == ours[a]@);
                        assert(theirs[b]@ == ours[b]@);
                    }
                }
                assert forall|club_id: ClubId| #[trigger]
                    table_of(theirs).contains_key(club_id) <==> table_of(ours).contains_key(
                        club_id,
                    ) by {
                    if listed(theirs, club_id) {
                        let j = place_of(theirs, club_id);
                        assert(theirs[j]@ == ours[j]@);
                        assert(ours[j].id == club_id);
                    }
                    if listed(ours, club_id) {
                        let j = place_of(ours, club_id);
                        assert(theirs[j]@ == ours[j]@);
                        assert(theirs[j].id == club_id);
                    }
                }
                assert forall|club_id: ClubId| #[trigger]
                    table_of(theirs).contains_key(club_id) implies table_of(theirs)[club_id]
                    == table_of(ours)[club_id] by {
                    let j = place_of(theirs, club_id);
                    assert(theirs[j]@ == ours[j]@);
                    lemma_record_at(theirs, j);
                    lemma_record_at(ours, j);
                }
                assert(table_of(theirs) =~= table_of(ours));
            }
        }
        copy
    }
}

impl ClubTable {
    /// No id is stored twice.
    pub closed spec fn wf(&self) -> bool {
        distinct_ids(self.records@)
    }

    /// The empty table.
    pub fn new() -> (table: Self)
        ensures
            table.wf(),
            table@ == Map::<ClubId, ClubView>::empty(),
    {
        let table = ClubTable { records: Vec::new() };
        assert(table@ =~= Map::<ClubId, ClubView>::empty());
        table
    }

    /// Where the club's record is stored, if the club is live.
    fn position(&self, club_id: ClubId) -> (at: Option<usize>)
        ensures
            match at {
                Some(i) => i < self.records@.len() && self.records@[i as int].id == club_id,
                None => !listed(self.records@, club_id),
            },
    {
        let mut i: usize = 0;
        while i < self.records.len()
            invariant
                i <= self.records@.len(),
                forall|j: int| 0 <= j < i ==> self.records@[j].id != club_id,
            decreases self.records@.len() - i,
        {
            if self.records[i].id == club_id {
                return Some(i);
            }
            i += 1;
        }
        None
    }

    /// Whether the club is live.
    pub fn contains(&self, club_id: ClubId) -> (found: bool)
        ensures
            found == self@.contains_key(club_id),
    {
        self.position(club_id).is_some()
    }

    /// The club's record, if the club is live.
    pub fn get(&self, club_id: ClubId) -> (record: Option<ClubDetails>)
        requires
            self.wf(),
        ensures
            match record {
                Some(details) => self@.contains_key(club_id) && details@ == self@[club_id],
                None => !self@.contains_key(club_id),
            },
    {
        match self.position(club_id) {
            Some(i) => {
                proof {
                    lemma_record_at(self.records@, i as int);
                }
                Some(self.records[i].clone())
            },
            None => None,
        }
    }

    /// The club's member count, if the club is live.
    pub fn members_count(&self, club_id: ClubId) -> (count: Option<u32>)
        requires
            self.wf(),
        ensures
            match count {
                Some(n) => self@.contains_key(club_id) && n == self@[club_id].members_count,
                None => !self@.contains_key(club_id),
            },
    {
        match self.position(club_id) {
            Some(i) => {
                proof {
                    lemma_record_at(self.records@, i as int);
                }
                Some(self.records[i].members_count)
            },
            None => None,
        }
    }

    /// Stores the record under its id, in place of the one that was there.
    pub fn insert(&mut self, details: ClubDetails)
        requires
            old(self).wf(),
        ensures
            final(self).wf(),
            final(self)@ == old(self)@.insert(details.id, details@),
    {
        let ghost before = self.records@;
        let ghost club_id = details.id;
        let ghost value = details@;
        match self.position(details.id) {
            Some(i) => {
                self.records.set(i, details);
            },
            None => {
                self.records.push(details);
            },
        }
        proof {
            let after = self.records@;
            assert(distinct_ids(after));
            assert forall|other: ClubId| #[trigger]
                table_of(after).contains_key(other) <==> table_of(before).insert(
                    club_id,
                    value,
                ).contains_key(other) by {
                if listed(after, other) {
                    let j = place_of(after, other);
                    if other != club_id {
                        assert(before[j].id == other);
                    }
                }
                if listed(before, other) {
                    let j = place_of(before, other);
                    assert(after[j].id == other || other == club_id);
                }
                if other == club_id {
                    let j = if before.len() == after.len() {
                        place_of(before, club_id)
                    } else {
                        before.len() as int
                    };
                    assert(after[j].id == club_id);
                }
            }
            assert forall|other: ClubId| #[trigger]
                table_of(after).contains_key(other) implies table_of(after)[other] == table_of(
                before,
            ).insert(club_id, value)[other] by {
                let j = place_of(after, other);
                lemma_record_at(after, j);
                if other != club_id {
                    assert(before[j].id == other);
                    lemma_record_at(before, j);
                }
            }
            assert(table_of(after) =~= table_of(before).insert(club_id, value));
        }
    }

    /// Takes the club's record out of the table, and says whether there was
    /// one.
    pub fn remove(&mut self, club_id: ClubId) -> (found: bool)
        requires
            old(self).wf(),
        ensures
            final(self).wf(),
            final(self)@ == old(self)@.remove(club_id),
            found == old(self)@.contains_key(club_id),
    {
        let ghost before = self.records@;
        match self.position(club_id) {
            Some(i) => {
                self.records.remove(i);
                proof {
                    let after = self.records@;
                    assert(distinct_ids(after)) by {
                        assert forall|a: int, b: int|
                            0 <= a < after.len() && 0 <= b < after.len() && a != b implies after[a].id
                            != after[b].id by {
                            let a0 = if a < i { a } else { a + 1 };
                            let b0 = if b < i { b } else { b + 1 };
                            assert(after[a] == before[a0]);
                            assert(after[b] == before[b0]);
                        }
                    }
                    assert forall|other: ClubId| #[trigger]
                        table_of(after).contains_key(other) <==> table_of(before).remove(
                            club_id,
                        ).contains_key(other) by {
                        if listed(after, other) {
                            let j = place_of(after, other);
                            let j0 = if j < i { j } else { j + 1 };
                            assert(before[j0].id == other);
                        }
                        if listed(before, other) && other != club_id {
                            let j = place_of(before, other);
                            let j1 = if j < i { j } else { j - 1 };
                            assert(after[j1].id == other);
                        }
                    }
                    assert forall|other: ClubId| #[trigger]
                        table_of(after).contains_key(other) implies table_of(after)[other]
                        == table_of(before).remove(club_id)[other] by {
                        let j = place_of(after, other);
                        lemma_record_at(after, j);
                        let j0 = if j < i { j } else { j + 1 };
                        assert(before[j0] == after[j]);
                        lemma_record_at(before, j0);
                    }
                    assert(table_of(after) =~= table_of(before).remove(club_id));
                }
                true
            },
            None => {
                assert(self@ =~= self@.remove(club_id));
                false
            },
        }
    }

    /// The ids of the live clubs, each once, in no particular order.
    pub fn ids(&self) -> (ids: Vec<ClubId>)
        requires
            self.wf(),
        ensures
            ids@.no_duplicates(),
            ids@.to_set() == self@.dom(),
    {
        let mut ids: Vec<ClubId> = Vec::new();
        let mut i: usize = 0;
        while i < self.records.len()
            invariant
                i <= self.records@.len(),
                distinct_ids(self.records@),
                ids@.len() == i,
                forall|j: int| 0 <= j < i ==> ids@[j] == self.records@[j].id,
            decreases self.records@.len() - i,
        {
            ids.push(self.records[i].id);
            i += 1;
        }
        proof {
            assert forall|club_id: ClubId| ids@.to_set().contains(club_id) <==> self@.dom().contains(
                club_id,
            ) by {
                if ids@.contains(club_id) {
                    let j = choose|j: int| 0 <= j < ids@.len() && ids@[j] == club_id;
                    assert(self.records@[j].id == club_id);
                }
                if listed(self.records@, club_id) {
                    let j = place_of(self.records@, club_id);
                    assert(ids@[j] == club_id);
                }
            }
            assert(ids@.to_set() =~= self@.dom());
        }
        ids
    }
}

} // verus!
