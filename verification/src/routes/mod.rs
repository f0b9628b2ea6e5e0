pub mod accounts;
pub mod auth;
pub mod dashboard;
pub mod health;
pub mod keys;
pub mod models;
pub mod stats;
pub mod system;
pub mod usage;
pub mod v1;
