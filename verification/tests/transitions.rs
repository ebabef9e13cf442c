use pallet_club::{Admission, ClubDetails, Pallet, DispatchError, Error, Event};

fn real_madrid() -> Vec<u8> {
    "Real Madrid".as_bytes().to_vec()
}

fn store_with_club(members: &[u64]) -> Pallet {
    let mut store = Pallet::new(32);
    assert_eq!(
        store.add_new_club(Admission::Admitted, 1, real_madrid()),
        Ok(Some(Event::ClubAdded(1, real_madrid())))
    );
    for member in members {
        assert_eq!(
            store.add_member(Admission::Admitted, 1, *member),
            Ok(Some(Event::ClubMemberAdded(1, *member)))
        );
    }
    store
}

fn sorted(mut values: Vec<u64>) -> Vec<u64> {
    values.sort();
    values
}

#[test]
fn new_store_is_empty() {
    let store = Pallet::new(7);
    assert_eq!(store.max_length(), 7);
    assert_eq!(store.get_all_clubs(), Vec::<u32>::new());
    assert_eq!(store.clubs(1), None);
    assert_eq!(store.membership(1, 1), false);
    assert_eq!(store.get_club_members_count(1), 0);
}

#[test]
fn created_club_is_listed() {
    let mut store = Pallet::new(32);
    assert_eq!(
        store.add_new_club(Admission::Admitted, 1, real_madrid()),
        Ok(Some(Event::ClubAdded(1, real_madrid())))
    );
    assert_eq!(store.get_all_clubs(), vec![1]);
    assert_eq!(
        store.clubs(1),
        Some(ClubDetails { id: 1, members_count: 0, name: real_madrid() })
    );
}

#[test]
fn creating_a_club_twice_fails_the_second_time() {
    let mut store = Pallet::new(32);
    assert!(store.add_new_club(Admission::Admitted, 1, vec![b'x']).is_ok());
    let before = store.clone();
    assert_eq!(
        store.add_new_club(Admission::Admitted, 1, vec![b'x']),
        Err(DispatchError::Module(Error::DuplicateClubId))
    );
    assert_eq!(store, before);
}

#[test]
fn name_may_fill_the_maximum_and_no_more() {
    let mut store = Pallet::new(4);
    assert_eq!(
        store.add_new_club(Admission::Admitted, 1, vec![1, 2, 3, 4, 5]),
        Err(DispatchError::Module(Error::NameTooLong))
    );
    assert_eq!(store.get_all_clubs(), Vec::<u32>::new());
    assert_eq!(
        store.add_new_club(Admission::Admitted, 1, vec![1, 2, 3, 4]),
        Ok(Some(Event::ClubAdded(1, vec![1, 2, 3, 4])))
    );
    assert_eq!(store.clubs(1).unwrap().name, vec![1, 2, 3, 4]);
    let mut unnamed = Pallet::new(0);
    assert_eq!(
        unnamed.add_new_club(Admission::Admitted, 9, Vec::new()),
        Ok(Some(Event::ClubAdded(9, Vec::new())))
    );
}

#[test]
fn duplicate_id_is_reported_before_a_long_name() {
    let mut store = Pallet::new(2);
    assert!(store.add_new_club(Admission::Admitted, 1, vec![1]).is_ok());
    assert_eq!(
        store.add_new_club(Admission::Admitted, 1, vec![1, 2, 3]),
        Err(DispatchError::Module(Error::DuplicateClubId))
    );
}

#[test]
fn adding_a_member_to_a_missing_club_fails() {
    let mut store = store_with_club(&[]);
    let before = store.clone();
    assert_eq!(
        store.add_member(Admission::Admitted, 2, 5),
        Err(DispatchError::Module(Error::ClubNotFound))
    );
    assert_eq!(store, before);
    assert_eq!(store.membership(2, 5), false);
}

#[test]
fn adding_a_member_twice_is_the_same_as_once() {
    let mut once = store_with_club(&[]);
    assert_eq!(
        once.add_member(Admission::Admitted, 1, 5),
        Ok(Some(Event::ClubMemberAdded(1, 5)))
    );
    let mut twice = once.clone();
    assert_eq!(twice.add_member(Admission::Admitted, 1, 5), Ok(None));
    assert_eq!(twice, once);
    assert_eq!(twice.clubs(1).unwrap().members_count, 1);
    assert_eq!(twice.get_all_members(&1), vec![5]);
}

#[test]
fn removing_a_missing_member_fails_and_changes_nothing() {
    let mut store = store_with_club(&[7]);
    let before = store.clone();
    assert_eq!(
        store.remove_member(Admission::Admitted, 1, 8),
        Err(DispatchError::Module(Error::MemberNotFound))
    );
    assert_eq!(store, before);
    assert_eq!(store.clubs(1).unwrap().members_count, 1);
    assert_eq!(store.get_all_members(&1), vec![7]);
}

#[test]
fn removing_a_member_leaves_the_others() {
    let mut store = store_with_club(&[7, 8, 9]);
    assert_eq!(
        store.remove_member(Admission::Admitted, 1, 8),
        Ok(Some(Event::ClubMemberRemoved(1, 8)))
    );
    assert_eq!(store.clubs(1).unwrap().members_count, 2);
    assert_eq!(sorted(store.get_all_members(&1)), vec![7, 9]);
    assert_eq!(store.membership(1, 8), false);
}

#[test]
fn removing_a_club_removes_its_members() {
    let mut store = store_with_club(&[10, 11]);
    assert!(store.add_new_club(Admission::Admitted, 2, real_madrid()).is_ok());
    assert!(store.add_member(Admission::Admitted, 2, 10).is_ok());
    assert_eq!(store.get_club_members_count(1), 2);
    assert_eq!(store.remove_club(Admission::Admitted, 1), Ok(Some(Event::ClubRemoved(1))));
    assert_eq!(store.get_all_members(&1), Vec::<u64>::new());
    assert_eq!(store.get_all_clubs(), vec![2]);
    assert_eq!(store.membership(1, 10), false);
    assert_eq!(store.membership(1, 11), false);
    assert_eq!(store.get_all_members(&2), vec![10]);
    assert_eq!(store.clubs(2).unwrap().members_count, 1);
    assert_eq!(store.get_club_members_count(1), 0);
}

#[test]
fn club_round_trip_restores_the_store() {
    let mut store = Pallet::new(32);
    assert!(store.add_new_club(Admission::Admitted, 2, vec![b'a']).is_ok());
    assert!(store.add_member(Admission::Admitted, 2, 40).is_ok());
    let before = store.clone();
    assert!(store.add_new_club(Admission::Admitted, 1, real_madrid()).is_ok());
    assert!(store.add_member(Admission::Admitted, 1, 77).is_ok());
    assert!(store.remove_member(Admission::Admitted, 1, 77).is_ok());
    assert!(store.remove_club(Admission::Admitted, 1).is_ok());
    assert_eq!(store, before);
    assert_eq!(store.get_all_clubs(), vec![2]);
    assert_eq!(store.get_all_members(&2), vec![40]);
    assert_eq!(store.get_all_members(&1), Vec::<u64>::new());
}

#[test]
fn short_limit_fails_the_removal_and_changes_nothing() {
    let mut store = store_with_club(&[1, 2, 3]);
    let before = store.clone();
    for limit in 0..3 {
        assert_eq!(
            store.remove_club_within(Admission::Admitted, 1, limit),
            Err(DispatchError::Module(Error::StorageOverflow))
        );
        assert_eq!(store, before);
    }
    assert_eq!(store.clubs(1).unwrap().members_count, 3);
    assert_eq!(sorted(store.get_all_members(&1)), vec![1, 2, 3]);
    assert_eq!(
        store.remove_club_within(Admission::Admitted, 1, 3),
        Ok(Some(Event::ClubRemoved(1)))
    );
    assert_eq!(store.get_all_clubs(), Vec::<u32>::new());
}

#[test]
fn generous_limit_removes_the_club() {
    let mut store = store_with_club(&[1, 2]);
    assert_eq!(
        store.remove_club_within(Admission::Admitted, 1, u32::MAX),
        Ok(Some(Event::ClubRemoved(1)))
    );
    assert_eq!(store.clubs(1), None);
    assert_eq!(store.get_all_members(&1), Vec::<u64>::new());
    assert_eq!(
        store.remove_club_within(Admission::Admitted, 1, 5),
        Err(DispatchError::Module(Error::ClubNotFound))
    );
}

#[test]
fn removing_a_club_without_members_works() {
    let mut store = store_with_club(&[]);
    assert_eq!(
        store.remove_club_within(Admission::Admitted, 1, 0),
        Ok(Some(Event::ClubRemoved(1)))
    );
    assert_eq!(store, Pallet::new(32));
}

#[test]
fn denied_requests_change_nothing() {
    let mut store = store_with_club(&[5, 6]);
    let before = store.clone();
    assert_eq!(
        store.add_new_club(Admission::Denied, 2, real_madrid()),
        Err(DispatchError::BadOrigin)
    );
    assert_eq!(store, before);
    assert_eq!(store.add_member(Admission::Denied, 1, 7), Err(DispatchError::BadOrigin));
    assert_eq!(store, before);
    assert_eq!(store.remove_member(Admission::Denied, 1, 5), Err(DispatchError::BadOrigin));
    assert_eq!(store, before);
    assert_eq!(store.remove_club(Admission::Denied, 1), Err(DispatchError::BadOrigin));
    assert_eq!(store, before);
    assert_eq!(
        store.remove_club_within(Admission::Denied, 1, 2),
        Err(DispatchError::BadOrigin)
    );
    assert_eq!(store, before);
    assert_eq!(store.clubs(1).unwrap().members_count, 2);
    assert_eq!(sorted(store.get_all_members(&1)), vec![5, 6]);
    assert_eq!(store.get_all_clubs(), vec![1]);
}

#[test]
fn denial_is_reported_before_anything_else() {
    let mut store = Pallet::new(1);
    assert_eq!(
        store.add_new_club(Admission::Denied, 1, vec![1, 2, 3]),
        Err(DispatchError::BadOrigin)
    );
    assert_eq!(store.add_member(Admission::Denied, 9, 1), Err(DispatchError::BadOrigin));
    assert_eq!(store.remove_member(Admission::Denied, 9, 1), Err(DispatchError::BadOrigin));
    assert_eq!(store.remove_club(Admission::Denied, 9), Err(DispatchError::BadOrigin));
}

#[test]
fn counts_follow_the_memberships() {
    let mut store = Pallet::new(32);
    for club in 1..4u32 {
        assert!(store.add_new_club(Admission::Admitted, club, vec![club as u8]).is_ok());
    }
    for account in 0..10u64 {
        let club = (account % 3) as u32 + 1;
        assert!(store.add_member(Admission::Admitted, club, account).is_ok());
        assert_eq!(store.add_member(Admission::Admitted, club, account), Ok(None));
    }
    assert!(store.remove_member(Admission::Admitted, 1, 3).is_ok());
    for club in store.get_all_clubs() {
        let members = store.get_all_members(&club);
        assert_eq!(store.clubs(club).unwrap().members_count as usize, members.len());
        assert_eq!(store.get_club_members_count(club) as usize, members.len());
        for account in members {
            assert!(store.membership(club, account));
        }
    }
    assert_eq!(sorted(store.get_all_members(&1)), vec![0, 6, 9]);
    assert_eq!(sorted(store.get_all_members(&2)), vec![1, 4, 7]);
    assert_eq!(sorted(store.get_all_members(&3)), vec![2, 5, 8]);
}

#[test]
fn members_of_a_missing_club_are_none() {
    let store = store_with_club(&[1]);
    assert_eq!(store.get_all_members(&2), Vec::<u64>::new());
    assert_eq!(store.get_club_members_count(2), 0);
}

#[test]
fn copies_are_independent() {
    let details = ClubDetails { id: 3, members_count: 2, name: vec![1, 2] };
    let mut copy = details.clone();
    assert_eq!(copy, details);
    copy.name.push(3);
    assert_eq!(details.name, vec![1, 2]);
    let event = Event::ClubAdded(3, vec![9, 8]);
    assert_eq!(event.clone(), event);
    assert_eq!(Event::ClubRemoved(3).clone(), Event::ClubRemoved(3));
    assert_eq!(Event::ClubMemberAdded(3, 4).clone(), Event::ClubMemberAdded(3, 4));
    assert_eq!(Event::ClubMemberRemoved(3, 4).clone(), Event::ClubMemberRemoved(3, 4));
    let store = store_with_club(&[1]);
    let mut other = store.clone();
    assert!(other.add_member(Admission::Admitted, 1, 2).is_ok());
    assert_eq!(store.get_all_members(&1), vec![1]);
    assert_eq!(sorted(other.get_all_members(&1)), vec![1, 2]);
}
