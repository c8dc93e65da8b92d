//! Gameplay core of a small arcade loop: a ball collects square tokens, the
//! score drives trophies, storyline text and the end of the run.

pub mod geometry;
pub mod thingy;
pub mod trophy;
pub mod storyline;
pub mod session;
