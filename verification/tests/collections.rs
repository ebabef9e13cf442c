use pallet_club::{BulkRemoval, ClubDetails, ClubTable, Memberships};

fn sorted(mut values: Vec<u64>) -> Vec<u64> {
    values.sort();
    values
}

fn memberships(entries: &[(u32, u64)]) -> Memberships {
    let mut set = Memberships::new();
    for (club, account) in entries {
        assert!(set.insert(*club, *account));
    }
    set
}

#[test]
fn memberships_insert_and_remove() {
    let mut set = Memberships::new();
    assert_eq!(set.len(), 0);
    assert!(set.insert(1, 10));
    assert!(!set.insert(1, 10));
    assert!(set.insert(2, 10));
    assert_eq!(set.len(), 2);
    assert!(set.contains(1, 10));
    assert!(!set.contains(10, 1));
    assert!(set.remove(1, 10));
    assert!(!set.remove(1, 10));
    assert!(!set.contains(1, 10));
    assert!(set.contains(2, 10));
    assert_eq!(set.len(), 1);
}

#[test]
fn members_of_lists_one_club() {
    let set = memberships(&[(1, 5), (2, 6), (1, 7), (3, 5)]);
    assert_eq!(sorted(set.members_of(1)), vec![5, 7]);
    assert_eq!(set.members_of(2), vec![6]);
    assert_eq!(set.members_of(4), Vec::<u64>::new());
}

#[test]
fn bulk_removal_within_the_limit_is_complete() {
    let mut set = memberships(&[(1, 5), (2, 6), (1, 7), (1, 9)]);
    assert_eq!(set.remove_all_under(1, 3), BulkRemoval { removed: 3, complete: true });
    assert_eq!(set.members_of(1), Vec::<u64>::new());
    assert_eq!(set.members_of(2), vec![6]);
    assert_eq!(set.len(), 1);
}

#[test]
fn bulk_removal_beyond_the_limit_is_incomplete() {
    let mut set = memberships(&[(1, 5), (2, 6), (1, 7), (1, 9)]);
    assert_eq!(set.remove_all_under(1, 2), BulkRemoval { removed: 2, complete: false });
    assert_eq!(set.members_of(1).len(), 1);
    assert_eq!(set.members_of(2), vec![6]);
    assert_eq!(set.remove_all_under(1, 0), BulkRemoval { removed: 0, complete: false });
    assert_eq!(set.remove_all_under(1, 1), BulkRemoval { removed: 1, complete: true });
    assert_eq!(set.len(), 1);
}

#[test]
fn bulk_removal_of_nothing_is_complete() {
    let mut set = memberships(&[(2, 6)]);
    assert_eq!(set.remove_all_under(1, 0), BulkRemoval { removed: 0, complete: true });
    assert_eq!(set.remove_all_under(1, 9), BulkRemoval { removed: 0, complete: true });
    assert!(set.contains(2, 6));
    let mut empty = Memberships::new();
    assert_eq!(empty.remove_all_under(1, 4), BulkRemoval { removed: 0, complete: true });
    assert_eq!(empty, Memberships::new());
}

#[test]
fn staged_removal_leaves_the_set_alone() {
    let set = memberships(&[(1, 5), (1, 7), (2, 6)]);
    let before = set.clone();
    let (staged, report) = set.staged_removal(1, 1);
    assert_eq!(report, BulkRemoval { removed: 1, complete: false });
    assert_eq!(set, before);
    assert_eq!(staged.len(), 2);
    assert_eq!(staged.members_of(2), vec![6]);
    let (staged, report) = set.staged_removal(1, 2);
    assert_eq!(report, BulkRemoval { removed: 2, complete: true });
    assert_eq!(staged.members_of(1), Vec::<u64>::new());
    assert_eq!(sorted(set.members_of(1)), vec![5, 7]);
}

#[test]
fn club_table_keeps_one_record_per_id() {
    let mut table = ClubTable::new();
    assert!(!table.contains(1));
    assert_eq!(table.get(1), None);
    assert_eq!(table.members_count(1), None);
    table.insert(ClubDetails { id: 1, members_count: 0, name: vec![1] });
    table.insert(ClubDetails { id: 2, members_count: 4, name: vec![2] });
    table.insert(ClubDetails { id: 1, members_count: 3, name: vec![1] });
    assert!(table.contains(1));
    assert_eq!(table.get(1), Some(ClubDetails { id: 1, members_count: 3, name: vec![1] }));
    assert_eq!(table.members_count(2), Some(4));
    let mut ids = table.ids();
    ids.sort();
    assert_eq!(ids, vec![1, 2]);
    assert!(table.remove(1));
    assert!(!table.remove(1));
    assert_eq!(table.ids(), vec![2]);
    assert_eq!(table.get(1), None);
    assert_eq!(table.clone(), table);
}
