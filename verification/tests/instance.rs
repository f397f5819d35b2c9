use run_coordination::instance::{exclude_self, InstanceInfo, Role};

fn info(seq: u64, record: &str) -> InstanceInfo<String> {
    InstanceInfo::new(seq, record.to_string())
}

#[test]
fn ordinal_one_is_the_coordinator() {
    assert_eq!(info(1, "a").role(), Role::Coordinator);
    assert!(info(1, "a").is_coordinator());
}

#[test]
fn every_other_ordinal_is_a_participant() {
    for seq in [0u64, 2, 3, 17, u64::MAX] {
        assert_eq!(info(seq, "p").role(), Role::Participant);
        assert!(!info(seq, "p").is_coordinator());
    }
}

#[test]
fn new_keeps_ordinal_and_record() {
    let i = info(7, "enr:seven");
    assert_eq!(i.seq, 7);
    assert_eq!(i.record, "enr:seven");
}

#[test]
fn exclude_self_drops_the_own_entry_and_keeps_the_order() {
    let all = vec![info(3, "c"), info(1, "a"), info(2, "b")];
    let others = exclude_self(all, 1);
    let seqs: Vec<u64> = others.iter().map(|i| i.seq).collect();
    assert_eq!(seqs, vec![3, 2]);
    assert_eq!(others[0].record, "c");
    assert_eq!(others[1].record, "b");
}

#[test]
fn exclude_self_without_own_entry_changes_nothing() {
    let all = vec![info(3, "c"), info(2, "b")];
    let others = exclude_self(all, 1);
    let seqs: Vec<u64> = others.iter().map(|i| i.seq).collect();
    assert_eq!(seqs, vec![3, 2]);
}

#[test]
fn exclude_self_drops_every_record_of_the_own_ordinal() {
    let all = vec![info(2, "first"), info(1, "a"), info(2, "second")];
    let others = exclude_self(all, 2);
    assert_eq!(others.len(), 1);
    assert_eq!(others[0].seq, 1);
    assert_eq!(others[0].record, "a");
}

#[test]
fn exclude_self_keeps_the_order_between_repeated_own_records() {
    let all = vec![
        info(7, "own"),
        info(3, "c"),
        info(7, "own"),
        info(7, "own"),
        info(1, "a"),
        info(2, "b"),
        info(7, "own"),
    ];
    let others = exclude_self(all, 7);
    let seen: Vec<(u64, String)> = others.iter().map(|i| (i.seq, i.record.clone())).collect();
    assert_eq!(
        seen,
        vec![(3, "c".to_string()), (1, "a".to_string()), (2, "b".to_string())]
    );
}

#[test]
fn exclude_self_of_only_own_records_is_nothing() {
    let others = exclude_self(vec![info(4, "x"), info(4, "y")], 4);
    assert!(others.is_empty());
}

#[test]
fn exclude_self_on_nothing_is_nothing() {
    let others = exclude_self(Vec::<InstanceInfo<String>>::new(), 1);
    assert!(others.is_empty());
}
