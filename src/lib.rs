//! A configuration-driven backoffice engine: semi-structured records, a
//! validation engine for field rules, a relationship integrity engine over a
//! uniform data-source contract, and the decisions the request layer takes.
pub mod value;
pub mod text;
pub mod config;
pub mod bindings;
pub mod validation;
pub mod data_source;
pub mod relationships;
pub mod server;
pub mod audit;
