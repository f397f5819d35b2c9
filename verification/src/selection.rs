//! The scenarios a run can ask for, by name.

use vstd::prelude::*;

verus! {

/// A scenario of the test plan.
#[derive(Clone, Copy, Debug, PartialEq, Eq, Structural)]
pub enum Scenario {
    /// An attacker poisons the routing table of a victim.
    TablePoisoning,
    /// Nodes look each other up.
    FindNode,
    /// The coordinator measures how long its engine takes to learn its own
    /// address; the scenario the driver of this library runs.
    EnrUpdate,
}

impl Scenario {
    /// The name by which a run asks for the scenario.
    pub open spec fn spec_name(self) -> Seq<char> {
        match self {
            Scenario::TablePoisoning => "eclipse-attack-table-poisoning"@,
            Scenario::FindNode => "find-node"@,
            Scenario::EnrUpdate => "enr-update"@,
        }
    }

    /// The name by which a run asks for the scenario.
    pub fn name(&self) -> (name: &'static str)
        ensures
            name@ == self.spec_name(),
    {
        match self {
            Scenario::TablePoisoning => "eclipse-attack-table-poisoning",
            Scenario::FindNode => "find-node",
            Scenario::EnrUpdate => "enr-update",
        }
    }
}

/// The scenario a name stands for, if it stands for one.
pub open spec fn scenario_named(name: Seq<char>) -> Option<Scenario> {
    if name == Scenario::TablePoisoning.spec_name() {
        Some(Scenario::TablePoisoning)
    } else if name == Scenario::FindNode.spec_name() {
        Some(Scenario::FindNode)
    } else if name == Scenario::EnrUpdate.spec_name() {
        Some(Scenario::EnrUpdate)
    } else {
        None
    }
}

/// Every scenario is found under its own name, and under no other: the
/// names differ from each other.
pub proof fn lemma_scenario_names(scenario: Scenario, other: Scenario)
    ensures
        scenario_named(scenario.spec_name()) == Some(scenario),
        scenario.spec_name() == other.spec_name() <==> scenario == other,
{
    reveal_strlit("eclipse-attack-table-poisoning");
    reveal_strlit("find-node");
    reveal_strlit("enr-update");
    assert("eclipse-attack-table-poisoning"@.len() == 30);
    assert("find-node"@.len() == 9);
    assert("enr-update"@.len() == 10);
}

/// Selects the scenario a run asks for. Only the exact names of the
/// scenarios select one; every other name selects none.
pub fn select(name: &str) -> (scenario: Option<Scenario>)
    ensures
        scenario == scenario_named(name@),
{
    let asked = String::from_str(name);
    if asked == String::from_str(Scenario::TablePoisoning.name()) {
        Some(Scenario::TablePoisoning)
    } else if asked == String::from_str(Scenario::FindNode.name()) {
        Some(Scenario::FindNode)
    } else if asked == String::from_str(Scenario::EnrUpdate.name()) {
        Some(Scenario::EnrUpdate)
    } else {
        None
    }
}

} // verus!
