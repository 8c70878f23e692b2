//! Orders with line items, the payments recorded against them, and the status
//! and amounts derived from both.
//!
//! Money is a count of cents in an `i64` everywhere. Every decision the
//! application takes stands here as a function with a contract; sockets,
//! database statements and markup are left to the program around it.

pub mod app;
pub mod auth;
pub mod cents;
pub mod config;
pub mod date;
pub mod error;
pub mod http;
pub mod ids;
pub mod orders;
pub mod payments;
pub mod text;
