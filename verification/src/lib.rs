//! Record-keeping core for a single classroom: students, classes,
//! assignments, and the grades linking students to assignments.
//!
//! The crate models the persistence layer as a relational store held in
//! memory: a versioned schema brought up to date by a migration runner, and
//! one Create/List/Update/Delete family per entity, each with a contract
//! over the store's state. Referential integrity between tables, uniqueness
//! of surrogate keys and of the external student identifier, and the
//! `YYYY-MM-DD` shape of due dates are invariants stated in specifications
//! and proved to be preserved by every operation.

pub mod crud;
pub mod date;
pub mod laws;
pub mod models;
pub mod rows;
pub mod store;
