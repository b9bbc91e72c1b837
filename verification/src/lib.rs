//! The dispatch engine of a client that generates traffic for a cluster of
//! task servers.
//!
//! The client makes work items, each labelled with a category, asks an
//! assignment service which endpoints serve the category, and sends the items
//! to those endpoints in turn, each over one lasting connection. An operator
//! can change how often each category is drawn while the client runs.
//!
//! This crate holds the state of that engine and every decision that it makes.
//! It opens no socket and starts no thread: the program around it reads,
//! writes and waits, tells the engine what happened and does what the engine
//! says next. Each type here is meant to be held behind one lock, so that every
//! call sees and leaves a consistent state.
//!
//! - [`category`]: the categories.
//! - [`weights`]: the weights by which categories are drawn.
//! - [`admin`]: the control lines that set the weights.
//! - [`generator`]: drawing a category.
//! - [`payload`]: picking a payload.
//! - [`cache`]: the assignments, their refresh, and the round-robin router.
//! - [`pool`]: the connection pool.
//! - [`reader`]: what the reader of a connection does with a response.
//! - [`dispatch`]: the rounds of the dispatch loop.
//! - [`random`]: what is taken on trust from `rand`.
//! - [`address`]: lists of endpoint addresses.

pub mod address;
pub mod admin;
pub mod cache;
pub mod category;
pub mod dispatch;
pub mod generator;
pub mod payload;
pub mod pool;
pub mod random;
pub mod reader;
pub mod weights;
