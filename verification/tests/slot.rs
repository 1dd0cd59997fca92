use brush::slot::{apply_set, channel, snapshot_get, snapshot_latest, Slot};

#[test]
fn slot_set_appends_and_replaces() {
    let (tx, rx) = channel::<u32>();
    assert!(rx.is_empty());
    assert_eq!(rx.len(), 0);
    assert_eq!(rx.latest(), None);
    assert!(tx.set(0, 10));
    assert!(tx.set(1, 20));
    assert_eq!(rx.len(), 2);
    assert_eq!(rx.get(0), Some(10));
    assert_eq!(rx.get(1), Some(20));
    assert_eq!(rx.get(2), None);
    assert_eq!(rx.latest(), Some(20));
    assert!(tx.set(0, 11));
    assert_eq!(rx.get(0), Some(11));
    assert_eq!(rx.len(), 2);
}

#[test]
fn slot_set_past_end_is_refused() {
    let (tx, rx) = channel::<u32>();
    assert!(!tx.set(1, 5));
    assert!(rx.is_empty());
    assert!(tx.set(0, 5));
    assert!(!tx.set(3, 6));
    assert_eq!(rx.len(), 1);
    assert_eq!(rx.latest(), Some(5));
}

#[test]
fn slot_clear_empties() {
    let (tx, rx) = channel::<String>();
    assert!(tx.set(0, "a".to_string()));
    assert!(tx.set(1, "b".to_string()));
    let other = rx.clone();
    tx.clear();
    assert!(rx.is_empty());
    assert!(other.is_empty());
    assert_eq!(other.get(0), None);
}

#[test]
fn empty_slot_reads_as_empty() {
    let slot: Slot<u8> = Slot::empty();
    assert!(slot.is_empty());
    assert_eq!(slot.len(), 0);
    assert_eq!(slot.get(0), None);
    assert_eq!(slot.latest(), None);
}

#[test]
fn list_operations() {
    let mut v = vec![1, 2, 3];
    assert!(apply_set(&mut v, 1, 9));
    assert_eq!(v, vec![1, 9, 3]);
    assert!(apply_set(&mut v, 3, 4));
    assert_eq!(v, vec![1, 9, 3, 4]);
    assert!(!apply_set(&mut v, 6, 5));
    assert_eq!(v, vec![1, 9, 3, 4]);
    assert_eq!(snapshot_get(&v, 3), Some(4));
    assert_eq!(snapshot_get(&v, 4), None);
    assert_eq!(snapshot_latest(&v), Some(4));
    let e: Vec<u8> = Vec::new();
    assert_eq!(snapshot_latest(&e), None);
}

#[test]
fn default_slot_is_empty() {
    let slot: Slot<u32> = Slot::default();
    assert!(slot.is_empty());
}
