//! Orchestration logic for a media download front-end: URL and title
//! normalization, quality policy, failure classification, scheduling,
//! checkpointing and the decisions of the download pipeline.

pub mod text;
pub mod error;
pub mod orientation;
pub mod quality;
pub mod recovery;
pub mod scheduler;
pub mod normalizer;
pub mod lyrics;
pub mod tiktok;
pub mod config;
pub mod preset;
pub mod metadata;
pub mod classifier;
pub mod batch;
pub mod cache;
pub mod downloader;
pub mod progress;
pub mod provider;
pub mod cli;
pub mod event;
pub mod doctor;
pub mod engine;
pub mod session;
pub mod wizard;
