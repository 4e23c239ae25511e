//! Planning and bookkeeping core of a multi-backend file synchronisation
//! engine: what to copy, delete or skip to reconcile two file trees, how a
//! run proceeds and ends, and what is remembered between runs. Reading and
//! writing files, stores and networks is left to the program around it.
#![allow(non_snake_case)]

mod ambient;
pub mod cache;
pub mod commands;
pub mod comparator;
pub mod config;
pub mod conflict;
pub mod engine;
pub mod file_state;
pub mod logging;
pub mod models;
pub mod outcome;
pub mod run;
pub mod scanner;
pub mod storage;
pub mod table;
pub mod text;
pub mod transfer;
pub mod tree;

pub use crate::engine::SyncConfig;
pub use crate::engine::SyncReport;
pub use crate::models::StorageConfig;
pub use crate::models::StorageType;
pub use crate::models::SyncJob;
pub use crate::models::SyncMode;
pub use crate::run::SyncEngine;
