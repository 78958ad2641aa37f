use ledring::CheckInRecord;
use ledring::PersonId;
use ledring::checkin::CheckinWatcher;
use ledring::checkin::RosterError;
use ledring::checkin::Snapshot;
use ledring::checkin::ids_of_records;
use ledring::checkin::new_arrivals;

fn sorted(mut v: Vec<u32>) -> Vec<u32> {
    v.sort();
    v
}

#[test]
fn arrival_is_present_now_but_not_before() {
    let last = Snapshot::from_ids(&vec![1, 2, 3]);
    let current = Snapshot::from_ids(&vec![2, 3, 4]);
    assert_eq!(sorted(new_arrivals(&last, &current)), vec![4]);
}

#[test]
fn identical_snapshots_yield_no_arrivals() {
    let last = Snapshot::from_ids(&vec![1, 2, 3]);
    let current = Snapshot::from_ids(&vec![1, 2, 3]);
    assert_eq!(new_arrivals(&last, &current), Vec::<u32>::new());
}

#[test]
fn departures_are_not_arrivals() {
    let last = Snapshot::from_ids(&vec![1, 2, 3]);
    let current = Snapshot::from_ids(&vec![3]);
    assert_eq!(new_arrivals(&last, &current), Vec::<u32>::new());
}

#[test]
fn duplicate_ids_collapse_into_one_arrival() {
    let last = Snapshot::empty();
    let current = Snapshot::from_ids(&vec![7, 7, 8, 7]);
    assert_eq!(sorted(new_arrivals(&last, &current)), vec![7, 8]);
}

#[test]
fn watcher_reports_each_arrival_exactly_once() {
    let mut watcher = CheckinWatcher::new();
    let first = watcher.step(Ok(vec![1, 2, 3]));
    assert_eq!(sorted(first), vec![1, 2, 3]);
    let second = watcher.step(Ok(vec![1, 2, 3]));
    assert_eq!(second, Vec::<u32>::new());
    let third = watcher.step(Ok(vec![1, 2, 3, 5]));
    assert_eq!(sorted(third), vec![5]);
}

#[test]
fn watcher_snapshot_is_replaced_even_without_arrivals() {
    let mut watcher = CheckinWatcher::new();
    watcher.step(Ok(vec![1, 2]));
    watcher.step(Ok(vec![2]));
    // 1 left and comes back: it is an arrival again
    let back = watcher.step(Ok(vec![1, 2]));
    assert_eq!(sorted(back), vec![1]);
}

#[test]
fn failed_fetch_keeps_the_snapshot_and_reports_nothing() {
    let mut watcher = CheckinWatcher::new();
    watcher.step(Ok(vec![1, 2]));
    assert_eq!(watcher.step(Err(RosterError::Transport)), Vec::<u32>::new());
    assert_eq!(watcher.step(Err(RosterError::Decode)), Vec::<u32>::new());
    // the snapshot survived both failures, so nothing is re-announced
    assert_eq!(watcher.step(Ok(vec![1, 2])), Vec::<u32>::new());
}

#[test]
fn seeded_watcher_does_not_announce_the_first_roster() {
    let mut watcher = CheckinWatcher::seeded(&vec![1, 2]);
    let arrivals = watcher.step(Ok(vec![1, 2, 3]));
    assert_eq!(sorted(arrivals), vec![3]);
}

#[test]
fn snapshot_membership() {
    let snapshot = Snapshot::from_ids(&vec![10, 20]);
    assert!(snapshot.contains(10));
    assert!(snapshot.contains(20));
    assert!(!snapshot.contains(30));
    assert!(!Snapshot::empty().contains(10));
}

#[test]
fn record_ids_are_extracted_in_order() {
    let records = vec![
        CheckInRecord { person: PersonId { id: 5 } },
        CheckInRecord { person: PersonId { id: 9 } },
        CheckInRecord { person: PersonId { id: 5 } },
    ];
    assert_eq!(ids_of_records(&records), vec![5, 9, 5]);
}
