//! Core logic of a horizontally scalable URL shortener: short-code minting,
//! the two-tier redirect path and the click-accounting pipeline, stated as
//! contracts over mathematical models and proved.

pub mod accounting;
pub mod aggregates;
pub mod allocator;
pub mod analytics;
pub mod bootstrap;
pub mod cache;
pub mod codec;
pub mod config;
pub mod counting;
pub mod effects;
pub mod enums;
pub mod guarantees;
pub mod handlers;
pub mod ingestion;
pub mod keygen;
pub mod models;
pub mod text;
