//! Terminal capabilities.
pub mod capabilities;
pub mod graphics;
