use vstd::prelude::*;

pub mod sys;
pub mod errors;
pub mod text;
pub mod apt;
pub mod types;
pub mod index;
pub mod package_manager;
pub mod transaction;
pub mod lock;
pub mod operations;
pub mod database;
pub mod coordinator;
pub mod backend;
pub mod repository;
pub mod graph;
pub mod database_manager;
pub mod priority;
pub mod conflict;
pub mod virtual_pkg;
pub mod plan;
pub mod installer;
pub mod ostree;
pub mod config;
pub mod progress;
pub mod recovery;
pub mod laws;

verus! {

} // verus!
