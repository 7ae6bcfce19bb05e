//! What holds of the library as a whole.

pub mod config;
pub mod csv;
pub mod notation;
pub mod scan;
pub mod store;
pub mod sweep;
pub mod vendors;
pub mod views;
