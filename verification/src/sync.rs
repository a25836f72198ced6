//! Two-way synchronisation of a scope.

pub mod accounting;
pub mod capture;
pub mod creation;
pub mod directories;
pub mod file_plan;
pub mod finalize;
pub mod history;
pub mod local_inventory;
pub mod materialize;
pub mod outcome;
pub mod picker;
pub mod plan;
pub mod planning;
pub mod remote_inventory;
pub mod scoped;
pub mod suppression;
pub mod validation;
