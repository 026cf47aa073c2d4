//! AstroParrot: the planet defence rules, the explorers' decision logic and
//! the galaxy bookkeeping of the orchestrator, each stated and proved.

pub mod explorer;
pub mod game;
pub mod planet;
pub mod resource;

pub use explorer::BagContent;
