use run_coordination::selection::{select, Scenario};

#[test]
fn every_scenario_is_selected_by_its_name() {
    assert_eq!(select("eclipse-attack-table-poisoning"), Some(Scenario::TablePoisoning));
    assert_eq!(select("find-node"), Some(Scenario::FindNode));
    assert_eq!(select("enr-update"), Some(Scenario::EnrUpdate));
}

#[test]
fn scenarios_have_their_names() {
    assert_eq!(Scenario::TablePoisoning.name(), "eclipse-attack-table-poisoning");
    assert_eq!(Scenario::FindNode.name(), "find-node");
    assert_eq!(Scenario::EnrUpdate.name(), "enr-update");
}

#[test]
fn a_name_selects_the_scenario_that_bears_it() {
    for scenario in [Scenario::TablePoisoning, Scenario::FindNode, Scenario::EnrUpdate] {
        assert_eq!(select(scenario.name()), Some(scenario));
    }
}

#[test]
fn other_names_select_nothing() {
    for name in [
        "",
        "find-node ",
        " find-node",
        "find_node",
        "Find-Node",
        "find-nod",
        "find-nodes",
        "enr_update",
        "enr-update\n",
        "eclipse-attack",
        "quickstart",
    ] {
        assert_eq!(select(name), None);
    }
}
