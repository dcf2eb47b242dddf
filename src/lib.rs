pub mod auth;
pub mod catalog;
pub mod codec;
pub mod config;
pub mod listing;
pub mod models;
pub mod pagination;
pub mod password;
pub mod session;
pub mod validate;
