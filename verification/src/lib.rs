//! Paper-portfolio tracking: the wire protocol, the daemon's decisions and the
//! state of its clients.

pub mod alphavantage;
pub mod app;
pub mod bands;
pub mod cli;
pub mod config;
pub mod dates;
pub mod format;
pub mod framing;
pub mod number;
pub mod portfolio;
pub mod proto;
pub mod provider;
pub mod provider_cmd;
pub mod secret;
pub mod server;
pub mod socket;
pub mod sources;
pub mod startup;
pub mod text;
pub mod throttle;
pub mod view;
pub mod worker;
