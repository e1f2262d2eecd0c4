//! Verified core of a simulated neural system: the structure and synapse
//! lifecycle of growing dendrites, the integer decisions of the growth
//! engine, entropy extraction and caching, and an event broker.
pub mod arena;
pub mod benchmark;
pub mod broker;
pub mod entropy;
pub mod extractors;
pub mod feeds;
pub mod lifecycle;
pub mod noise;
pub mod path_cache;
pub mod regulation;
pub mod telemetry;
