//! A cursor: a query whose matching documents are followed as they change.
pub mod description;
pub mod effect;
pub mod event_laws;
pub mod fetch_laws;
pub mod fetch_state;
pub mod fetcher;
pub mod laws;
pub mod order;
pub mod process;
pub mod replay_laws;
