//! The core of a video ingestion and streaming service: the rules of its upload
//! queue, transcode plan, artifact upload, playback tokens and viewer presence,
//! as functions on plain values with machine-checked contracts.

pub mod catalog;
pub mod chunks;
pub mod clock;
pub mod forms;
pub mod ids;
pub mod json;
pub mod minify;
pub mod pipeline;
pub mod player;
pub mod presence;
pub mod probe;
pub mod progress;
pub mod queue;
pub mod registry;
pub mod report;
pub mod script;
pub mod storage;
pub mod string_map;
pub mod tags;
pub mod text;
pub mod token;
pub mod types;
pub mod video;
