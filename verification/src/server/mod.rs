pub mod admin;
pub mod auth;
pub mod cache;
pub mod db;
pub mod services;
