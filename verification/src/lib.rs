//! Persistence for todo items and their labels.
//!
//! The crate holds the entity model, the routine that folds the rows of a
//! todo/label join into entities, the in-memory stores, and the decisions that
//! a store backed by a relational database takes between its queries.

pub mod repositories;
