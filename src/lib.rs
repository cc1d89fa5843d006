//! Polling backend: users log in, create polls with several options, vote,
//! and read per-option results.
//!
//! - `ids`: object identifiers, validated and kept in canonical form.
//! - `model`: the user, poll and vote records, request bodies and errors.
//! - `tally`: per-option counts of the votes cast in a poll.
//! - `rules`: the decisions a handler takes between store reads and writes.
//! - `store`: the users, polls and votes collections held in memory, with the
//!   user, poll and vote services over them.
//! - `laws`: properties that relate several service operations.

pub mod ids;
pub mod laws;
pub mod model;
pub mod rules;
pub mod store;
pub mod tally;
