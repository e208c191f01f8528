pub mod amount;
pub mod calendar;
pub mod chain;
pub mod chain_laws;
pub mod checks;
pub mod client;
pub mod futures;
pub mod indices;
pub mod live;
pub mod poller;
pub mod poller_laws;
pub mod quotes;
pub mod text;
pub mod text_map;
pub mod trend;
pub mod trend_laws;
