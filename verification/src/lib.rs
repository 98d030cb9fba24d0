//! Context data that is visible to a future while it is polled, and a logger
//! that writes every record with that context.
pub mod context;
pub mod logger;
pub mod text;
