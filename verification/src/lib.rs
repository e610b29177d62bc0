//! The core of an exporter that publishes smart-meter readings as metrics.
//!
//! A scrape asks the cache gate ([`gate`]) whether the readings have to be
//! fetched again. What a fetch returns ([`nature_client`]) goes to the update
//! engine ([`engine`]), which decodes each reading ([`decoder`], [`numeral`])
//! and writes it to the series it feeds ([`series`]) in the metric store
//! ([`store`]). The answer to the scrape is put together in [`server`].
//!
//! Nothing here reads a clock, a socket or a file, and no number is a float:
//! times are counts of whole units, and a value is kept as the numeral that
//! was read.

pub mod decoder;
pub mod engine;
pub mod errors;
pub mod gate;
pub mod nature_client;
pub mod numeral;
pub mod series;
pub mod server;
pub mod store;
