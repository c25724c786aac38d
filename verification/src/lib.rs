//! Validation of access assertions issued by an upstream gateway, and the
//! request headers that verified claims turn into.

pub mod headers;
pub mod text;
pub mod validation;
pub mod web;
