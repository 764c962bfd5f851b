//! Verified core of the resource staging pipeline: streaming digests, the
//! stage-then-commit state machine shared by the download and decompression
//! phases, per-resource orchestration, the catalog of resources, and a model
//! of the disk in which the pipeline's laws are proved. Beside it stand the
//! FASTQ reader and the plain data that the application exchanges.

pub mod digest;
pub mod error;
pub mod stager;
pub mod model;
pub mod catalog;
pub mod orchestrator;
pub mod fastq;
pub mod progress;
pub mod kraken;
pub mod responses;
pub mod account;
pub mod database;
