//! The logic of an [Axiom.co](https://axiom.co) backend for `tracing`: what is sent of events,
//! spans and metrics, when, and in which form.
//!
//! Everything here is decided on plain values. Reading queues and clocks, talking HTTP and
//! observing spans is up to the application around it, which asks this library what to do next
//! and reports back how it went:
//!
//! - [`config`] checks a configuration and lays out what a client set up from it does.
//! - [`layer`] turns observed spans and events into [`Event`]s, over [`fields`] and [`value`].
//! - [`event`] gives the JSON object that an event is sent as.
//! - [`batch`] decides when a batch is sent; [`blob`] fills it, over [`ndjson`] and [`frame`].
//! - [`pool`] hands batches to senders; [`protocol`] shows that none is lost on the way.
//! - [`send`] decides what the reply to a request means and whether to try again.
use vstd::prelude::*;

pub mod batch;
pub mod blob;
pub mod config;
pub mod event;
pub mod fields;
pub mod frame;
pub mod layer;
pub mod ndjson;
pub mod pool;
pub mod protocol;
pub mod send;
pub mod text;
pub mod value;

pub use crate::config::{Config, DatasetIds, LossyRedirect};
pub use crate::event::{BogusKind, Event, Level, Never, SpanInfo};
pub use crate::value::Value;

verus! {

} // verus!
