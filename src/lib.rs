//! Counter-consistent storage logic for an image-annotation workflow.
//!
//! Blocks hold tasks, labels and images; images hold annotations. All rows
//! live in one keyed store addressed by a partition key and a sort key. This
//! crate decides what is written: which keys a row lives under, which
//! aggregate counters move on each mutation and by how much, which keys a
//! cascading delete removes and in which batches, and how listings are
//! ordered and joined. Running those decisions against a live store is left
//! to the caller.
//!
//! - `keys`: partition and sort keys, key queries, text helpers.
//! - `model`, `shared`, `annotation_types`: the records.
//! - `counters`: counter propagation, a ledger of applied adjustments, and
//!   the conservation and approved-count laws.
//! - `cascade`: cascading deletion, batching, retries, and the completeness,
//!   re-delete and orphan laws.
//! - `ordering`, `join`: listing order and the tasks-with-images view.
//! - `items`, `rows`: reading entities from stored items and writing rows.
//! - `workflow`: the steps of mutations that read between writes.
//! - `urls`: object-store URLs; `decimal`: numbers as the store sends them.
//! - `outside`: calls into code outside this crate, behind contracts.

pub mod keys;
pub mod model;
pub mod counters;
pub mod cascade;
pub mod ordering;
pub mod join;
pub mod decimal;
pub mod outside;
pub mod items;
pub mod rows;
pub mod shared;
pub mod urls;
pub mod annotation_types;
pub mod workflow;
