//! Maps record types onto rows of a relational store: validated entity
//! descriptions, the statements of the persistence operations, row decoding,
//! and the migration plan.

pub mod attrs;
pub mod descriptor;
pub mod entity;
pub mod index;
pub mod migration;
pub mod runner;
pub mod sql;
pub mod text;
pub mod value;
