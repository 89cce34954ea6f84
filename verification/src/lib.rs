//! Metrics about Redis streams, their consumer groups and their consumers,
//! collected through a sequence of introspection queries and written out in
//! the text exposition format.
//!
//! A pass is driven from outside: `collector` decides what to ask the store
//! next and records each reply in a metric set (`metrics`), and whoever
//! talks to the store hands the replies in. `pass` says what holds of whole
//! passes, `labels` when the labels of a pass are distinct, and `layout`
//! which lines the text of a metric set has. `identifiers` reads the
//! configured list of streams, `stream_id` the timestamp of an entry
//! identifier; `sample`, `decimal` and `text` write and read the pieces.

pub mod collector;
pub mod decimal;
pub mod identifiers;
pub mod labels;
pub mod layout;
pub mod metrics;
pub mod pass;
pub mod sample;
pub mod stream_id;
pub mod summary;
pub mod text;
