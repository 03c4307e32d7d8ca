//! A verified core for organizing files into a Johnny-Decimal-style taxonomy:
//! a rule table mapping file extensions to areas and category labels, a
//! structure builder, a structure validator, a category assigner, and the
//! decision logic of an inference-backed classifier with a deterministic
//! fallback.

pub mod text;
pub mod error;
pub mod rules;
pub mod model;
pub mod johnny_decimal;
pub mod validation;
pub mod properties;
pub mod json_read;
pub mod ai_service;
pub mod database;
pub mod file_operations;
pub mod codec;
