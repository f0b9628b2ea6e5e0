pub mod aggregate;
pub mod anthropic;
pub mod dispatch;
pub mod failover;
pub mod helpers;
pub mod models;
pub mod openai;
pub mod streaming;
