//! Event ingestion for a small analytics service: a bounded admission
//! buffer, a size/time batch scheduler, a retrying persistence sink, and an
//! approximate city-name resolver.

pub mod admission;
pub mod city;
pub mod collector;
pub mod config;
pub mod cors;
pub mod event;
pub mod geo;
pub mod ident;
pub mod ingest;
pub mod pipeline;
pub mod resolver;
pub mod scheduler;
pub mod sessions;
pub mod similarity;
pub mod sink;
pub mod text;
