//! Authentication and request authorization for an administrative gateway:
//! directory-backed credential checks, signed session tokens, and the guard
//! in front of protected routes.

pub mod auth;
pub mod clock;
pub mod config;
pub mod directory;
pub mod guard;
pub mod listing;
pub mod text;
pub mod token;
