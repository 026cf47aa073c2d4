//! The obsessive Diamond collector.

pub mod smart_explorer;
