//! The verified core of the Tartarus Pro remapping daemon: the input model,
//! the stored configuration and its structural rules, the pure
//! config-transaction planner, the Action compiler, the raw output events of
//! the injector and the dispatch task's routing decisions.

pub mod amap;
pub mod config;
pub mod dispatch;
pub mod edit;
pub mod edit_laws;
pub mod executor;
pub mod ids;
pub mod injector;
pub mod input;
pub mod properties;
pub mod rules;
pub mod sorted;
