//! The static crafting tree shared by every planet in the game: what the
//! explorer needs (the shopping list of basics, the order in which to craft
//! intermediates) independently of which planet can make it.

pub use crate::explorer::marco_explorer::recipes::{basic_cost, build_request, complex_production, ingredients, tier};
