//! A layered configuration resolver: an extensible base configuration schema
//! whose layers are merged pairwise in priority order, later layers winning
//! for most fields. The merge semantics for scalars, optional values, mirror
//! maps and per-channel repodata overrides are stated as contracts and
//! verified.

pub mod build_config;
pub mod cloning;
pub mod concurrency;
pub mod config;
pub mod error;
pub mod key_map;
pub mod mirrors;
pub mod proxy;
pub mod repodata_config;
pub mod toml_doc;
pub mod urls;
