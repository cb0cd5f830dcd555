//! Batch culling of processed image variants: the per-image processing and
//! validation state machines, the rollback-protected double file move, and
//! the proximity ordering that decides which variant is processed next.

pub mod paths;
pub mod transaction;
pub mod utils;
pub mod img;
pub mod processing_order;
pub mod dispatcher;
pub mod settings;
pub mod anchor;
