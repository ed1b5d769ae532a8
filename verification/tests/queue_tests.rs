use match3_server::queue::MatchmakingQueue;

#[test]
fn enqueue_reports_one_based_positions() {
    let mut queue = MatchmakingQueue::new();
    assert_eq!(queue.enqueue(7), Some(1));
    assert_eq!(queue.enqueue(9), Some(2));
    assert_eq!(queue.enqueue(3), Some(3));
    assert_eq!(queue.len(), 3);
}

#[test]
fn enqueue_ignores_a_player_who_already_waits() {
    let mut queue = MatchmakingQueue::new();
    assert_eq!(queue.enqueue(7), Some(1));
    assert_eq!(queue.enqueue(7), None);
    assert_eq!(queue.len(), 1);
    assert!(queue.contains(7));
}

#[test]
fn take_pair_needs_two_players() {
    let mut queue = MatchmakingQueue::new();
    assert_eq!(queue.take_pair(), None);
    queue.enqueue(1);
    assert_eq!(queue.take_pair(), None);
    assert_eq!(queue.len(), 1);
    queue.enqueue(2);
    assert_eq!(queue.take_pair(), Some((1, 2)));
    assert_eq!(queue.len(), 0);
}

#[test]
fn take_pair_takes_the_two_oldest() {
    let mut queue = MatchmakingQueue::new();
    for id in [30u128, 10, 20] {
        queue.enqueue(id);
    }
    assert_eq!(queue.take_pair(), Some((30, 10)));
    assert_eq!(queue.len(), 1);
    assert!(queue.contains(20));
}

#[test]
fn pairing_forms_half_as_many_pairs_in_arrival_order() {
    let mut queue = MatchmakingQueue::new();
    for id in [11u128, 5, 42, 8, 23] {
        queue.enqueue(id);
    }
    let pairs = queue.pair_all();
    assert_eq!(pairs, vec![(11, 5), (42, 8)]);
    assert_eq!(queue.len(), 1);
    assert!(queue.contains(23));
}

#[test]
fn pairing_an_even_queue_leaves_nobody() {
    let mut queue = MatchmakingQueue::new();
    for id in 1u128..=6 {
        queue.enqueue(id);
    }
    let pairs = queue.pair_all();
    assert_eq!(pairs, vec![(1, 2), (3, 4), (5, 6)]);
    assert_eq!(queue.len(), 0);
    for (a, b) in pairs {
        assert_ne!(a, b);
    }
}

#[test]
fn pairing_a_single_player_forms_no_pair() {
    let mut queue = MatchmakingQueue::new();
    queue.enqueue(4);
    assert_eq!(queue.pair_all(), vec![]);
    assert_eq!(queue.len(), 1);
}

#[test]
fn remove_if_present_keeps_the_order_of_the_others() {
    let mut queue = MatchmakingQueue::new();
    for id in [1u128, 2, 3, 4] {
        queue.enqueue(id);
    }
    assert!(queue.remove_if_present(2));
    assert!(!queue.contains(2));
    assert_eq!(queue.pair_all(), vec![(1, 3)]);
    assert!(queue.contains(4));
}

#[test]
fn remove_if_present_of_an_absent_player_changes_nothing() {
    let mut queue = MatchmakingQueue::new();
    queue.enqueue(1);
    assert!(!queue.remove_if_present(2));
    assert_eq!(queue.len(), 1);
    assert!(queue.contains(1));
}
