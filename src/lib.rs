pub mod broker;
pub mod common;
pub mod gc;
pub mod index;
pub mod journal;
pub mod keymap;
pub mod placement;
pub mod rpc;
