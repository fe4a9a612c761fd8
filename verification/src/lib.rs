//! Session workspaces and trusted exact-window selection for a computer-use
//! driver: the registries, admission rules and state classifications, with
//! the native operations behind traits that platform adapters implement.

pub mod args;
pub mod assoc;
pub mod selection;
pub mod text;
pub mod workspace;
pub mod contract;
pub mod pip;
pub mod registry;
pub mod displays;
pub mod laws;
pub mod macho;
