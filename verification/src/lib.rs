//! The decisions of a router that keeps the documents of MongoDB queries up to date for clients.
//!
//! A cursor fetches the documents that its query matches and then follows the change stream of
//! their collection: [`cursor`] decides how each event changes the documents and what the
//! mergeboxes, which show the documents to the clients, are told. All cursors of a collection share
//! one change stream: [`watcher`] keeps the streams apart, [`stream_task`] decides how a stream is
//! opened, followed and opened again, [`checkpoint`] knows where it picks up and [`recovery`] when
//! it cannot.
//!
//! Nothing here waits, sends or reads: where outside work is due, a call hands out an action that
//! says which, and the next call takes what came of it.
pub mod checkpoint;
pub mod cursor;
pub mod json;
pub mod mongo;
pub mod recovery;
pub mod stream_laws;
pub mod stream_task;
pub mod watcher;
