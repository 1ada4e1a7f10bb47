//! Decisions of the provider hub: which local sessions a repair touches, what a
//! backup keeps, how an interrupted repair is undone.

pub mod access;
pub mod again;
pub mod backups;
pub mod cleaning;
pub mod cli;
pub mod closing;
pub mod digest;
pub mod effects;
pub mod execution;
pub mod hints;
pub mod inspection;
pub mod journal;
pub mod json;
pub mod locality;
pub mod locks;
pub mod model;
pub mod ordered;
pub mod paths;
pub mod planning;
pub mod preview;
pub mod processes;
pub mod projection;
pub mod providers;
pub mod reading;
pub mod readings;
pub mod reals;
pub mod reconciliation;
pub mod records;
pub mod recovery;
pub mod repair;
pub mod restore;
pub mod retention;
pub mod scan;
pub mod schema;
pub mod sessions;
pub mod snapshots;
pub mod sql;
pub mod statements;
pub mod text;
pub mod token;
pub mod verification;
pub mod writes;
