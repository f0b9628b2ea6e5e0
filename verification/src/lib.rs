pub mod aggregate_probe;
pub mod app;
pub mod cache;
pub mod calendar;
pub mod clock;
pub mod error;
pub mod json;
pub mod middleware;
pub mod order;
pub mod routes;
pub mod text;
