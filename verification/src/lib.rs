//! findIT: service discovery for the IT division's services.  The library
//! holds the rules of the server: how container labels and manual entries
//! become services, how they are grouped into categories, the Docker cache's
//! decisions, the validation of admin input, the configuration, the session
//! and icon helpers.

pub mod components;
pub mod config;
pub mod db;
pub mod models;
pub mod number;
pub mod order;
pub mod server;
pub mod str_map;
pub mod text;
