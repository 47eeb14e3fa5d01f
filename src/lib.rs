//! Core of a single-peer screen streaming system: frames, cropping, pacing,
//! the latest-frame hand-off, stage graphs for the send and receive pipelines,
//! and the pipeline lifecycle.

pub mod frame;
pub mod capture;
pub mod crop;
pub mod selection;
pub mod pacer;
pub mod hotkeys;
pub mod stride;
pub mod still;
pub mod bridge;
pub mod text;
pub mod endpoint;
pub mod pipeline;
pub mod session;
