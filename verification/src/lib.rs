//! Configuration linting, cache operators and JSON access for a GraphQL
//! gateway, with their contracts.
pub mod text;
pub mod strmap;
pub mod case;
pub mod valid;
pub mod config;
pub mod lint;
pub mod blueprint;
pub mod json;
pub mod cli;
