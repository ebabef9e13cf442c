//! What holds of the registry whatever is asked of it, stated over the model
//! and proved.

use crate::model::{entries_under, lemma_under_insert, lemma_under_remove, Call, Registry};
use crate::types::{AccountId, Admission, ClubId, DispatchError, Error};
use vstd::prelude::*;

verus! {

/// A club that is not live has no memberships under it.
proof fn lemma_no_entries_under_absent_club(state: Registry, max_length: u32, club_id: ClubId)
    requires
        state.well_formed(max_length),
        !state.clubs.contains_key(club_id),
    ensures
        entries_under(state.memberships, club_id) == Set::<(ClubId, AccountId)>::empty(),
{
    assert forall|entry: (ClubId, AccountId)|
        !entries_under(state.memberships, club_id).contains(entry) by {
        if state.memberships.contains(entry) && entry.0 == club_id {
            assert(state.memberships.contains((club_id, entry.1)));
        }
    }
    assert(entries_under(state.memberships, club_id) =~= Set::<(ClubId, AccountId)>::empty());
}

/// The empty registry is well formed.
pub proof fn lemma_empty_well_formed(max_length: u32)
    ensures
        Registry::empty().well_formed(max_length),
{
}

/// Creating a club keeps the registry well formed.
pub proof fn lemma_add_new_club_well_formed(
    state: Registry,
    max_length: u32,
    admission: Admission,
    club_id: ClubId,
    name: Seq<u8>,
)
    requires
        state.well_formed(max_length),
    ensures
        state.add_new_club(max_length, admission, club_id, name).state.well_formed(max_length),
{
    let next = state.add_new_club(max_length, admission, club_id, name).state;
    if next != state {
        lemma_no_entries_under_absent_club(state, max_length, club_id);
        assert forall|other: ClubId| #[trigger] next.clubs.contains_key(other) implies {
            &&& next.clubs[other].id == other
            &&& next.clubs[other].name.len() <= max_length
            &&& next.clubs[other].members_count == next.members_under(other)
        } by {
            if other != club_id {
                assert(state.clubs.contains_key(other));
            }
        }
        assert forall|other: ClubId, account: AccountId| #[trigger]
            next.memberships.contains((other, account)) implies next.clubs.contains_key(other) by {
            assert(state.memberships.contains((other, account)));
            assert(state.clubs.contains_key(other));
        }
    }
}

/// Adding a member keeps the registry well formed.
pub proof fn lemma_add_member_well_formed(
    state: Registry,
    max_length: u32,
    admission: Admission,
    club_id: ClubId,
    account: AccountId,
)
    requires
        state.well_formed(max_length),
    ensures
        state.add_member(admission, club_id, account).state.well_formed(max_length),
{
    let next = state.add_member(admission, club_id, account).state;
    if next != state {
        assert forall|other: ClubId| #[trigger] next.clubs.contains_key(other) implies {
            &&& next.clubs[other].id == other
            &&& next.clubs[other].name.len() <= max_length
            &&& next.clubs[other].members_count == next.members_under(other)
        } by {
            assert(state.clubs.contains_key(other));
            lemma_under_insert(state.memberships, other, (club_id, account));
        }
        assert forall|other: ClubId, member: AccountId| #[trigger]
            next.memberships.contains((other, member)) implies next.clubs.contains_key(other) by {
            if (other, member) != (club_id, account) {
                assert(state.memberships.contains((other, member)));
                assert(state.clubs.contains_key(other));
            }
        }
    }
}

/// Removing a member keeps the registry well formed.
pub proof fn lemma_remove_member_well_formed(
    state: Registry,
    max_length: u32,
    admission: Admission,
    club_id: ClubId,
    account: AccountId,
)
    requires
        state.well_formed(max_length),
    ensures
        state.remove_member(admission, club_id, account).state.well_formed(max_length),
{
    let next = state.remove_member(admission, club_id, account).state;
    if next != state {
        assert(entries_under(state.memberships, club_id).contains((club_id, account)));
        assert forall|other: ClubId| #[trigger] next.clubs.contains_key(other) implies {
            &&& next.clubs[other].id == other
            &&& next.clubs[other].name.len() <= max_length
            &&& next.clubs[other].members_count == next.members_under(other)
        } by {
            assert(state.clubs.contains_key(other));
            lemma_under_remove(state.memberships, other, (club_id, account));
        }
        assert forall|other: ClubId, member: AccountId| #[trigger]
            next.memberships.contains((other, member)) implies next.clubs.contains_key(other) by {
            assert(state.memberships.contains((other, member)));
            assert(state.clubs.contains_key(other));
        }
    }
}

/// Removing a club, within whatever limit, keeps the registry well formed.
pub proof fn lemma_remove_club_within_well_formed(
    state: Registry,
    max_length: u32,
    admission: Admission,
    club_id: ClubId,
    limit: u32,
)
    requires
        state.well_formed(max_length),
    ensures
        state.remove_club_within(admission, club_id, limit).state.well_formed(max_length),
{
    let next = state.remove_club_within(admission, club_id, limit).state;
    if next != state {
        assert forall|other: ClubId| #[trigger] next.clubs.contains_key(other) implies {
            &&& next.clubs[other].id == other
            &&& next.clubs[other].name.len() <= max_length
            &&& next.clubs[other].members_count == next.members_under(other)
        } by {
            assert(state.clubs.contains_key(other));
            assert(entries_under(next.memberships, other) =~= entries_under(
                state.memberships,
                other,
            ));
        }
        assert forall|other: ClubId, member: AccountId| #[trigger]
            next.memberships.contains((other, member)) implies next.clubs.contains_key(other) by {
            assert(state.memberships.contains((other, member)));
            assert(state.clubs.contains_key(other));
            assert(!entries_under(state.memberships, club_id).contains((other, member)));
        }
    }
}

/// Whatever transition is requested, a well-formed registry stays well formed.
pub proof fn lemma_apply_well_formed(state: Registry, max_length: u32, call: Call)
    requires
        state.well_formed(max_length),
    ensures
        state.apply(max_length, call).state.well_formed(max_length),
{
    match call {
        Call::AddNewClub { admission, club_id, name } => {
            lemma_add_new_club_well_formed(state, max_length, admission, club_id, name);
        },
        Call::AddMember { admission, club_id, account } => {
            lemma_add_member_well_formed(state, max_length, admission, club_id, account);
        },
        Call::RemoveMember { admission, club_id, account } => {
            lemma_remove_member_well_formed(state, max_length, admission, club_id, account);
        },
        Call::RemoveClub { admission, club_id } => {
            lemma_remove_club_within_well_formed(
                state,
                max_length,
                admission,
                club_id,
                state.club_members_count(club_id),
            );
        },
        Call::RemoveClubWithin { admission, club_id, limit } => {
            lemma_remove_club_within_well_formed(state, max_length, admission, club_id, limit);
        },
    }
}

/// Every reachable state is well formed.
pub proof fn lemma_reachable_well_formed(max_length: u32, calls: Seq<Call>)
    ensures
        Registry::after(max_length, calls).well_formed(max_length),
    decreases calls.len(),
{
    if calls.len() > 0 {
        lemma_reachable_well_formed(max_length, calls.drop_last());
        lemma_apply_well_formed(
            Registry::after(max_length, calls.drop_last()),
            max_length,
            calls.last(),
        );
    }
}

/// In every reachable state, the member count of every live club is the
/// number of memberships under that club.
pub proof fn lemma_count_is_number_of_memberships(
    max_length: u32,
    calls: Seq<Call>,
    club_id: ClubId,
)
    requires
        Registry::after(max_length, calls).clubs.contains_key(club_id),
    ensures
        Registry::after(max_length, calls).clubs[club_id].members_count == entries_under(
            Registry::after(max_length, calls).memberships,
            club_id,
        ).len(),
{
    lemma_reachable_well_formed(max_length, calls);
}

/// In every reachable state, every membership stands under a live club.
pub proof fn lemma_membership_under_live_club(
    max_length: u32,
    calls: Seq<Call>,
    club_id: ClubId,
    account: AccountId,
)
    requires
        Registry::after(max_length, calls).memberships.contains((club_id, account)),
    ensures
        Registry::after(max_length, calls).clubs.contains_key(club_id),
{
    lemma_reachable_well_formed(max_length, calls);
}

/// Adding a member twice in a row leads to the same state, and so to the
/// same count, as adding it once; where the first request took place, the
/// second succeeds and emits nothing.
pub proof fn lemma_add_member_idempotent(
    state: Registry,
    admission: Admission,
    club_id: ClubId,
    account: AccountId,
)
    ensures
        ({
            let once = state.add_member(admission, club_id, account);
            let twice = once.state.add_member(admission, club_id, account);
            &&& twice.state == once.state
            &&& once.result is Ok ==> (twice.result matches Ok(None))
            &&& once.result is Err ==> twice.result == once.result
        }),
{
}

/// Creating a club that was not live, adding a member, removing that member
/// and removing the club leads back to the state before; with a name that
/// fits, every one of the four steps takes place.
pub proof fn lemma_create_join_leave_remove_round_trip(
    state: Registry,
    max_length: u32,
    club_id: ClubId,
    name: Seq<u8>,
    account: AccountId,
)
    requires
        state.well_formed(max_length),
        !state.clubs.contains_key(club_id),
    ensures
        ({
            let created = state.add_new_club(max_length, Admission::Admitted, club_id, name);
            let joined = created.state.add_member(Admission::Admitted, club_id, account);
            let left = joined.state.remove_member(Admission::Admitted, club_id, account);
            let removed = left.state.remove_club(Admission::Admitted, club_id);
            &&& removed.state == state
            &&& name.len() <= max_length ==> {
                &&& created.result is Ok
                &&& joined.result is Ok
                &&& left.result is Ok
                &&& removed.result is Ok
            }
        }),
{
    let created = state.add_new_club(max_length, Admission::Admitted, club_id, name);
    let joined = created.state.add_member(Admission::Admitted, club_id, account);
    let left = joined.state.remove_member(Admission::Admitted, club_id, account);
    let removed = left.state.remove_club(Admission::Admitted, club_id);
    if name.len() <= max_length {
        lemma_no_entries_under_absent_club(state, max_length, club_id);
        assert(!state.memberships.contains((club_id, account))) by {
            if state.memberships.contains((club_id, account)) {
                assert(state.clubs.contains_key(club_id));
            }
        }
        assert(left.state.memberships =~= state.memberships);
        assert(left.state.clubs[club_id].members_count == 0);
        assert(removed.state.memberships =~= state.memberships);
        assert(removed.state.clubs =~= state.clubs);
    }
}

/// Removing a club within a limit below its member count changes nothing and
/// reports a storage overflow.
pub proof fn lemma_short_limit_changes_nothing(
    state: Registry,
    max_length: u32,
    club_id: ClubId,
    limit: u32,
)
    requires
        state.well_formed(max_length),
        state.clubs.contains_key(club_id),
        limit < state.clubs[club_id].members_count,
    ensures
        state.remove_club_within(Admission::Admitted, club_id, limit).state == state,
        (state.remove_club_within(Admission::Admitted, club_id, limit).result matches Err(
            DispatchError::Module(Error::StorageOverflow),
        )),
{
}

/// Removing a club with its own member count as the limit never reports a
/// storage overflow.
pub proof fn lemma_remove_club_fits_its_limit(
    state: Registry,
    max_length: u32,
    admission: Admission,
    club_id: ClubId,
)
    requires
        state.well_formed(max_length),
    ensures
        !(state.remove_club(admission, club_id).result matches Err(
            DispatchError::Module(Error::StorageOverflow),
        )),
{
}

/// A denied request changes nothing, whatever it asks for, and reports the
/// denial.
pub proof fn lemma_denied_changes_nothing(state: Registry, max_length: u32, call: Call)
    requires
        match call {
            Call::AddNewClub { admission, .. } => admission is Denied,
            Call::AddMember { admission, .. } => admission is Denied,
            Call::RemoveMember { admission, .. } => admission is Denied,
            Call::RemoveClub { admission, .. } => admission is Denied,
            Call::RemoveClubWithin { admission, .. } => admission is Denied,
        },
    ensures
        state.apply(max_length, call).state == state,
        (state.apply(max_length, call).result matches Err(DispatchError::BadOrigin)),
{
}

/// A request that is refused, for whatever reason, changes nothing.
pub proof fn lemma_refused_changes_nothing(state: Registry, max_length: u32, call: Call)
    requires
        state.apply(max_length, call).result is Err,
    ensures
        state.apply(max_length, call).state == state,
{
}

} // verus!
