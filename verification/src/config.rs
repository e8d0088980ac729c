//! Configuration of a pipeline and the result of one analysis.

use vstd::prelude::*;
use vstd::string::*;

verus! {

/// The prompt used when a request brings none.
pub const DEFAULT_PROMPT: &'static str = "Describe this image briefly.";

/// The step budget of a generation unless configured otherwise.
pub const DEFAULT_MAX_RESPONSE_LENGTH: usize = 30;

/// Settings of a pipeline, fixed when it is built.
#[derive(Debug, Clone)]
pub struct FastVLMConfig {
    /// The most steps a generation may take.
    pub max_response_length: usize,
    /// The prompt for requests without one.
    pub default_prompt: String,
}

impl Default for FastVLMConfig {
    fn default() -> (config: Self)
        ensures
            config.max_response_length == DEFAULT_MAX_RESPONSE_LENGTH,
            config.default_prompt@ == DEFAULT_PROMPT@,
    {
        FastVLMConfig {
            max_response_length: DEFAULT_MAX_RESPONSE_LENGTH,
            default_prompt: String::from_str(DEFAULT_PROMPT),
        }
    }
}

impl FastVLMConfig {
    /// The prompt of a request: its own, or the configured one where it
    /// brings none.
    pub fn prompt_for(&self, prompt: Option<String>) -> (text: String)
        ensures
            text@ == match prompt {
                Some(own) => own@,
                None => self.default_prompt@,
            },
    {
        match prompt {
            Some(own) => own,
            None => self.default_prompt.clone(),
        }
    }
}

/// A point in time of the monotonic clock.
#[verifier::external_type_specification]
#[verifier::external_body]
pub struct ExInstant(std::time::Instant);

/// The outcome of one analysis.
#[derive(Debug)]
pub struct FastVLMAnalysisResult {
    /// The generated description.
    pub text: String,
    /// When the analysis began.
    pub timestamp: std::time::Instant,
    /// How long it took.
    pub processing_time: std::time::Duration,
}

impl Clone for FastVLMAnalysisResult {
    fn clone(&self) -> (copy: Self)
        ensures
            copy.text@ == self.text@,
            copy.timestamp == self.timestamp,
            copy.processing_time == self.processing_time,
    {
        FastVLMAnalysisResult {
            text: self.text.clone(),
            timestamp: self.timestamp,
            processing_time: self.processing_time,
        }
    }
}

} // verus!
