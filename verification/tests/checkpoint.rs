use run_coordination::checkpoint::Checkpoint;

#[test]
fn checkpoints_are_announced_under_their_names() {
    assert_eq!(Checkpoint::NetworkConfigured.name(), "state_network_configured");
    assert_eq!(
        Checkpoint::ConnectionsEstablished.name(),
        "state_completed_establish_connections"
    );
    assert_eq!(Checkpoint::Completed.name(), "state_completed");
}

#[test]
fn checkpoint_names_differ() {
    let names = [
        Checkpoint::NetworkConfigured.name(),
        Checkpoint::ConnectionsEstablished.name(),
        Checkpoint::Completed.name(),
    ];
    assert_ne!(names[0], names[1]);
    assert_ne!(names[0], names[2]);
    assert_ne!(names[1], names[2]);
}
