use voice_channel_manager::numbering::{initialize_all, AllocationFailed, Numbering};

#[test]
fn numbers_start_at_one() {
    let mut numbering = Numbering::new();
    assert_eq!(numbering.next_number(), 1);
    assert_eq!(numbering.len(), 0);
    assert_eq!(numbering.allocate(), Ok(1));
    assert_eq!(numbering.allocate(), Ok(2));
    assert_eq!(numbering.allocate(), Ok(3));
    assert_eq!(numbering.next_number(), 4);
    assert_eq!(numbering.len(), 3);
    assert!(numbering.is_live(2));
    assert!(!numbering.is_live(4));
}

#[test]
fn released_number_is_reused_before_the_counter_grows() {
    let mut numbering = Numbering::new();
    for expected in 1..=5u64 {
        assert_eq!(numbering.allocate(), Ok(expected));
    }
    assert!(numbering.release(4));
    assert_eq!(numbering.next_number(), 4);
    assert!(numbering.release(2));
    assert_eq!(numbering.next_number(), 2);
    assert_eq!(numbering.allocate(), Ok(2));
    assert_eq!(numbering.next_number(), 4);
    assert_eq!(numbering.allocate(), Ok(4));
    assert_eq!(numbering.next_number(), 6);
    assert_eq!(numbering.allocate(), Ok(6));
}

#[test]
fn releasing_above_the_counter_keeps_the_counter() {
    let mut numbering = Numbering::initialize(&vec![2, 3, 5]).unwrap();
    assert_eq!(numbering.next_number(), 1);
    assert!(numbering.release(5));
    assert_eq!(numbering.next_number(), 1);
    assert_eq!(numbering.allocate(), Ok(1));
    assert_eq!(numbering.next_number(), 4);
}

#[test]
fn releasing_a_free_number_changes_nothing() {
    let mut numbering = Numbering::initialize(&vec![1, 2]).unwrap();
    assert!(!numbering.release(7));
    assert_eq!(numbering.next_number(), 3);
    assert_eq!(numbering.len(), 2);
}

#[test]
fn live_numbers_never_repeat() {
    let mut numbering = Numbering::new();
    let mut live: Vec<u64> = Vec::new();
    let releases = [3u64, 1, 7, 2, 9, 4];
    for _ in 0..10 {
        let n = numbering.allocate().unwrap();
        assert!(!live.contains(&n));
        live.push(n);
    }
    for r in releases {
        assert!(numbering.release(r));
        live.retain(|n| *n != r);
        assert_eq!(numbering.next_number(), (1..).find(|n| !live.contains(n)).unwrap());
    }
    for _ in 0..8 {
        let smallest_free = (1..).find(|n| !live.contains(n)).unwrap();
        let n = numbering.allocate().unwrap();
        assert_eq!(n, smallest_free);
        assert!(!live.contains(&n));
        live.push(n);
        assert_eq!(numbering.len(), live.len());
    }
}

#[test]
fn initialize_finds_the_smallest_free_number() {
    assert_eq!(Numbering::initialize(&vec![]).unwrap().next_number(), 1);
    assert_eq!(Numbering::initialize(&vec![1, 2, 3]).unwrap().next_number(), 4);
    assert_eq!(Numbering::initialize(&vec![3, 1]).unwrap().next_number(), 2);
    assert_eq!(Numbering::initialize(&vec![0, 2]).unwrap().next_number(), 1);
}

#[test]
fn initialize_counts_a_repeated_number_once() {
    let numbering = Numbering::initialize(&vec![1, 1, 2, 2, 2]).unwrap();
    assert_eq!(numbering.len(), 2);
    assert_eq!(numbering.next_number(), 3);
}

#[test]
fn initialize_all_heals_every_family() {
    let healed = initialize_all(&vec![vec![1, 2], vec![], vec![2, 4, 1]]);
    let next: Vec<u64> = healed.iter().map(|n| n.as_ref().unwrap().next_number()).collect();
    assert_eq!(next, vec![3, 1, 3]);
}

#[test]
fn the_last_number_is_never_handed_out() {
    let mut numbering = Numbering::initialize(&vec![u64::MAX - 1]).unwrap();
    for n in 1..=3u64 {
        assert_eq!(numbering.allocate(), Ok(n));
    }
    let mut full = Numbering::initialize(&vec![u64::MAX]).unwrap();
    assert_eq!(full.next_number(), 1);
    assert_eq!(full.allocate(), Ok(1));
    assert_eq!(AllocationFailed::Exhausted, AllocationFailed::Exhausted);
    assert_ne!(AllocationFailed::Exhausted, AllocationFailed::Persistence);
}
