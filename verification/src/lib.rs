//! Container uptime monitoring: the domain model, the bounded sample store,
//! configuration rules and the data behind the dashboard.

pub mod domain;
pub mod text;
pub mod store;
pub mod store_laws;
pub mod runtime;
pub mod config;
pub mod web;
pub mod poller;
