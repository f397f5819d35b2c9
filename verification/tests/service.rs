use run_coordination::service::{group_seq_name, instance_seq_name, SignalBoard, Topic};

#[test]
fn the_sequence_counters_have_their_names() {
    assert_eq!(instance_seq_name(), "get_instance_seq");
    assert_eq!(group_seq_name("single"), "get_group_seq_single");
    assert_eq!(group_seq_name(""), "get_group_seq_");
    assert_eq!(group_seq_name("группа"), "get_group_seq_группа");
}

#[test]
fn a_new_board_has_counted_nothing() {
    let board = SignalBoard::new();
    assert_eq!(board.count("anything"), 0);
    assert_eq!(board.count(""), 0);
    assert!(board.is_released("anything", 0));
    assert!(!board.is_released("anything", 1));
}

#[test]
fn a_signal_returns_the_new_value_of_its_counter() {
    let mut board = SignalBoard::new();
    assert_eq!(board.signal("a"), Some(1));
    assert_eq!(board.signal("a"), Some(2));
    assert_eq!(board.signal("a"), Some(3));
    assert_eq!(board.count("a"), 3);
}

#[test]
fn distinct_names_are_independent_counters() {
    let mut board = SignalBoard::new();
    assert_eq!(board.signal("a"), Some(1));
    assert_eq!(board.signal("b"), Some(1));
    assert_eq!(board.signal("a"), Some(2));
    assert_eq!(board.signal("ab"), Some(1));
    assert_eq!(board.signal("b"), Some(2));
    assert_eq!(board.signal("a"), Some(3));
    assert_eq!(board.count("a"), 3);
    assert_eq!(board.count("b"), 2);
    assert_eq!(board.count("ab"), 1);
    assert_eq!(board.count("c"), 0);
}

#[test]
fn ordinals_are_one_to_n_without_gaps_or_duplicates() {
    for n in [1u64, 2, 3, 10, 64] {
        let mut board = SignalBoard::new();
        let mut ordinals = Vec::new();
        for caller in 0..n {
            // Other traffic between the allocations does not disturb them.
            if caller % 3 == 1 {
                board.signal("state_completed");
            }
            ordinals.push(board.allocate_sequence().expect("an ordinal"));
        }
        let expected: Vec<u64> = (1..=n).collect();
        assert_eq!(ordinals, expected);
        assert_eq!(board.count(instance_seq_name()), n);
    }
}

#[test]
fn allocation_counts_on_the_sequence_counter() {
    let mut board = SignalBoard::new();
    assert_eq!(board.signal("get_instance_seq"), Some(1));
    assert_eq!(board.allocate_sequence(), Some(2));
    assert_eq!(board.signal("get_instance_seq"), Some(3));
}

#[test]
fn a_barrier_is_released_by_the_last_announcement() {
    let mut board = SignalBoard::new();
    for announced in 1..=4u64 {
        assert!(!board.is_released("state_completed", 5));
        assert_eq!(board.signal("state_completed"), Some(announced));
    }
    assert!(!board.is_released("state_completed", 5));
    board.signal("state_completed");
    assert!(board.is_released("state_completed", 5));
    board.signal("state_completed");
    assert!(board.is_released("state_completed", 5));
}

#[test]
fn a_barrier_is_not_released_by_other_names() {
    let mut board = SignalBoard::new();
    board.signal("state_completed");
    for _ in 0..100 {
        board.signal("state_network_configured");
        board.signal("state_completed_establish_connections");
    }
    assert!(!board.is_released("state_completed", 2));
    assert!(board.is_released("state_network_configured", 100));
    assert!(!board.is_released("state_network_configured", 101));
}

#[test]
fn a_new_topic_is_empty() {
    let topic: Topic<String> = Topic::new();
    assert_eq!(topic.len(), 0);
    assert!(topic.read(0).is_none());
}

#[test]
fn publish_returns_the_place_counted_from_one() {
    let mut topic = Topic::new();
    assert_eq!(topic.publish("x"), 1);
    assert_eq!(topic.publish("y"), 2);
    assert_eq!(topic.publish("x"), 3);
    assert_eq!(topic.len(), 3);
}

#[test]
fn a_subscriber_reads_from_the_beginning_in_order() {
    let mut topic = Topic::new();
    topic.publish("x");
    topic.publish("y");
    assert_eq!(topic.read(0), Some(&"x"));
    assert_eq!(topic.read(1), Some(&"y"));
    assert_eq!(topic.read(2), None);
    topic.publish("z");
    assert_eq!(topic.read(0), Some(&"x"));
    assert_eq!(topic.read(2), Some(&"z"));
    assert_eq!(topic.read(usize::MAX), None);
}
