pub mod aggregate;
pub mod available;
pub mod health;
pub mod stream;
pub mod summary;
pub mod testing;
pub mod verify;
