//! Orchestrator: galaxy topology, the planet and explorer rosters, and the
//! bookkeeping of the orchestrator that drives them.

pub mod events;
pub mod explorer_factory;
pub mod factory;
pub mod galaxy;
pub mod mailbox;
pub mod state;
