//! Schema migrations of the desktop application's local SQL store: the
//! ordered registry of forward migrations compiled into the binary, and the
//! decisions that bring a store from its recorded version up to date.

pub mod migration;
pub mod apply;
pub mod laws;
pub mod startup;
