//! Controlled web-crawl measurement: the decisions behind one timed trial per
//! site, the correlation of requests with responses, and the dataset that the
//! trials are appended to.

pub mod campaign;
pub mod config;
pub mod dataset;
pub mod dns;
pub mod enrich;
pub mod listeners;
pub mod model;
pub mod pool;
pub mod prefilter;
pub mod runner;
pub mod table;
