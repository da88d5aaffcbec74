//! Change detection for published policy documents.

pub mod checksum;
pub mod collector;
pub mod config;
pub mod detector;
pub mod distance;
pub mod fetcher;
pub mod handlers;
pub mod history;
pub mod models;
pub mod repository;
pub mod scheduler;
pub mod sentiment;
pub mod terms;
pub mod text;
