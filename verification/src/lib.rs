//! Routing and slug generation for a small flashcard study site.
//!
//! The crate holds the decisions of the site and leaves every effect to its
//! caller. [`router::dispatch`] names the handler that a request belongs
//! to. [`slug::generate`] derives an identifier for a new card set from its
//! title, against a namespace that is held in memory; [`search`] does the
//! same step by step, for a store that the caller has to ask. [`data`] holds
//! the study material and the fields of a request.

pub mod data;
pub mod decimal;
pub mod router;
pub mod search;
pub mod slug;
pub mod text;
