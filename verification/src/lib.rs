//! Verified core of a screen-capture utility: frame data model, scroll
//! stitching, export resampling and encoding plans, and size estimation.

pub mod codecs;
pub mod config;
pub mod estimate;
pub mod export;
pub mod frame;
pub mod history;
pub mod recording;
pub mod scroll;
pub mod shortcuts;
pub mod strtools;
pub mod thumbs;
