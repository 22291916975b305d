//! Bookkeeping of a planetary gravity sandbox: the registry of bodies and
//! their trails, the pass that decides which pairs of bodies merge or
//! attract each other, and the handling of keyboard and mouse input.

pub mod collision;
pub mod input;
pub mod state;
pub mod counting;
pub mod laws;
