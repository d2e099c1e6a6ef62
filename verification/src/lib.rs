//! Air quality check-and-notify pipeline.
//!
//! The library resolves free-text locations into canonical queries, retrieves
//! raw measurements through an abstract repository with a single coordinate
//! fallback hop, converts the US EPA AQI index into an estimated PM2.5
//! concentration, classifies severity, and formats the alert messages that
//! the scheduled broadcast and the interactive query paths both deliver.

pub mod check_air_quality;
pub mod dispatch;
pub mod models;
pub mod notify_air_quality;
pub mod repository;
pub mod resolve;
pub mod services;
pub mod text;
