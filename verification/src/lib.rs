//! A clipboard manager: its history store, the policy for what is captured, the
//! service that callers talk to, and the decisions of the clipboard backends.
//!
//! * [`types`], [`errors`], [`text`]: what the other modules share.
//! * [`sql`], [`rows`], [`schema`]: the database, and the calls into `rusqlite`.
//! * [`history`], [`laws`]: what the operations on the history mean, as
//!   relations on the rows of the tables, and the laws that they obey.
//! * [`laws_capture`], [`laws_listing`], [`laws_prune`], [`laws_outcome`]: what
//!   capturing, listing, searching, pruning and every outcome amount to, told by
//!   the targets and the rows alone; and [`laws_calls`]: what that means for
//!   whoever calls the store, the policy or the service.
//! * [`content`], [`store`], [`handle`]: the history store.
//! * [`traits`], [`pattern`], [`manager`]: the capture policy and loop.
//! * [`backends`], [`mock`], [`x11`]: the clipboard backends.
//! * [`dto`], [`unlock`], [`service`]: the service on the session bus.
//! * [`clock`], [`daemon`], [`cli`]: the clock, and what the programs decide.

pub mod backends;
pub mod cli;
pub mod clock;
pub mod content;
pub mod daemon;
pub mod dto;
pub mod errors;
pub mod handle;
pub mod history;
pub mod laws;
pub mod laws_calls;
pub mod laws_capture;
pub mod laws_listing;
pub mod laws_outcome;
pub mod laws_prune;
pub mod manager;
pub mod mock;
pub mod pattern;
pub mod rows;
pub mod schema;
pub mod service;
pub mod sql;
pub mod store;
pub mod text;
pub mod traits;
pub mod types;
pub mod unlock;
pub mod x11;
