//! A verified memory engine for AI agents: typed memories, scoped
//! partitions, temporal validity, deduplication, conflict resolution,
//! governed recall and coordinated forgetting.
pub mod taxonomy;
pub mod text;
pub mod subject;
pub mod scope;
pub mod temporal;
pub mod id;
pub mod provenance;
pub mod error;
pub mod content;
pub mod record;
pub mod procedural;
pub mod prospective;
pub mod query;
pub mod config;
pub mod split;
pub mod classifier;
pub mod conflict;
pub mod dedup;
pub mod graph;
pub mod relation_extractor;
pub mod episodic;
pub mod authz;
pub mod sensitivity;
pub mod audit;
pub mod crypto;
pub mod requests;
pub mod store;
pub mod working;
pub mod engine;
pub mod lifecycle;
pub mod registry;
pub mod assembly;
pub mod repair;
