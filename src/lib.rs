//! Account service core: the asset lifecycle decisions, the bounded
//! reclamation cache, error taxonomy and small validation and encoding
//! helpers.

pub mod error;
pub mod memory;
pub mod locator;
pub mod photo;
pub mod encryption;
pub mod validation;
pub mod auth;
pub mod config;
pub mod health;
