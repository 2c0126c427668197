//! Data of the REST layer: error mapping and the response shapes.

pub mod errors;
pub mod models;
