//! The goal-driven explorer's inventory and crafting tree.

pub mod bag;
pub mod recipes;
