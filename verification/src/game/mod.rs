//! The game's orchestrator: the galaxy it manages and the decisions it takes
//! (the window and the actors it drives live outside the library).

pub mod orchestrator;
