//! Coordination core for multi-process discovery test runs.
//!
//! Many independently started processes take part in one run. Each obtains a
//! unique ordinal, exchanges its identity record with every peer, passes
//! through a fixed chain of named barriers and, on the coordinator, measures
//! how long the discovery engine needs to learn its own address.
//!
//! The decisions of that protocol live here as state machines whose
//! transitions are specified and proved; the surrounding program performs the
//! network and engine operations they ask for and reports back what happened.
//!
//! - [`instance`]: the ordinal, role and record of one process.
//! - [`rendezvous`]: publish one record, collect one from everybody.
//! - [`checkpoint`]: the named barriers of a run.
//! - [`watcher`]: the one-shot observer of the engine's address.
//! - [`clock`]: instants and the elapsed-time metric.
//! - [`selection`]: the scenarios a run can ask for, by name.
//! - [`scenario`]: the driver of one process.
//! - [`guarantees`]: what every run of a driver guarantees.
//! - [`service`]: a reference model of the coordination service.
//! - [`ensemble`]: all processes and the service together, and what holds of
//!   every course a run can take.
//! - [`shaping`]: the link every process asks for.

pub mod checkpoint;
pub mod clock;
pub mod ensemble;
pub mod guarantees;
pub mod instance;
pub mod rendezvous;
pub mod scenario;
pub mod selection;
pub mod service;
pub mod shaping;
pub mod watcher;
