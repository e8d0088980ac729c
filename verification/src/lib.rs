//! Orchestration of a vision-language model: image preprocessing, prompt
//! templating, embedding fusion, token sampling and the decode loop.

pub mod config;
pub mod error;
pub mod fusion;
pub mod generation;
pub mod image_process;
pub mod model_store;
pub mod pipeline;
pub mod prompt;
pub mod sampler;
pub mod stats;

pub use config::{FastVLMAnalysisResult, FastVLMConfig};
pub use error::FastVLMError;
pub use image_process::{FastVLMBatchFeature, FastVLMImageProcessor};
pub use stats::{ImageAnalysisResult, ProcessingStats};
