//! Core logic of a market-data terminal dashboard: numeric coercion and
//! row extraction from loosely-typed JSON documents, volume ranking,
//! escape-aware text layout, cell formatting, and the refresh control
//! policy. All I/O (HTTP fetch, CLI, terminal control) lives outside.
pub mod control;
pub mod datefmt;
pub mod extract;
pub mod json;
pub mod layout;
pub mod money;
pub mod num;
pub mod rank;
pub mod render;
