//! The order of one analysis.
//!
//! An analysis runs three networks and a tokenizer, which the caller runs.
//! The library prepares what they take and decides on what they return:
//! `prepare_request` before anything runs, `prompt_tokens` on the encoded
//! prompt, `begin_generation` once the image features and the prompt
//! embeddings are there, the state machine of `generation` for every decoder
//! step, and `response_text` at the end.

use vstd::prelude::*;
use crate::config::FastVLMConfig;
use crate::error::FastVLMError;
use crate::fusion::{
    fuse_image_text_embeddings,
    fused,
    has_room,
    kept_image_tokens,
    EmbeddingSequence,
};
use crate::generation::{is_empty_cache, GenerationModel, GenerationState};
use crate::image_process::{can_be_resized, is_preprocessed, FastVLMImageProcessor, PixelImage, PixelTensor};
use crate::prompt::{format_chat_template, PromptTokens, CHAT_PREFIX, CHAT_SUFFIX};

verus! {

/// What one request hands to the vision encoder and to the tokenizer.
#[derive(Debug, Clone)]
pub struct AnalysisInputs {
    /// The tensor of the image.
    pub pixel_values: PixelTensor,
    /// The prompt in its chat template.
    pub prompt: String,
}

/// Prepares a request: checks the frame against its size, preprocesses it,
/// and wraps in the chat template the prompt of the request, or the
/// configured one where the request brings none. A frame that is too short
/// fails first, then one that cannot be resized.
pub fn prepare_request(
    config: &FastVLMConfig,
    processor: &FastVLMImageProcessor,
    image_data: Vec<u8>,
    width: u32,
    height: u32,
    prompt: Option<String>,
) -> (r: Result<AnalysisInputs, FastVLMError>)
    ensures
        image_data@.len() < width * height * 4 ==> r is Err && r->Err_0 == (FastVLMError::ImageShape {
            actual: image_data@.len() as usize,
            expected: (width * height * 4) as u128,
        }),
        image_data@.len() >= width * height * 4 && !can_be_resized(
            width as int,
            height as int,
            processor.crop_size.0 as int,
            processor.crop_size.1 as int,
        ) ==> r is Err && r->Err_0 == FastVLMError::ImageTooLarge,
        image_data@.len() >= width * height * 4 && can_be_resized(
            width as int,
            height as int,
            processor.crop_size.0 as int,
            processor.crop_size.1 as int,
        ) ==> r is Ok && r->Ok_0.pixel_values.wf() && r->Ok_0.pixel_values.shape_of() == seq![
            1int,
            3int,
            processor.crop_size.1 as int,
            processor.crop_size.0 as int,
        ] && is_preprocessed(
            r->Ok_0.pixel_values.data@,
            image_data@.subrange(0, width * height * 4),
            width as int,
            height as int,
            processor.crop_size,
        ) && r->Ok_0.prompt@ == CHAT_PREFIX@ + (match prompt {
            Some(own) => own@,
            None => config.default_prompt@,
        }) + CHAT_SUFFIX@,
{
    let text: String = config.prompt_for(prompt);
    let image: PixelImage = match PixelImage::from_rgba(image_data, width, height) {
        Ok(image) => image,
        Err(e) => {
            return Err(e);
        },
    };
    let pixel_values: PixelTensor = match processor.preprocess(&image) {
        Ok(feature) => feature.pixel_values,
        Err(e) => {
            return Err(e);
        },
    };
    Ok(AnalysisInputs { pixel_values, prompt: format_chat_template(text.as_str()) })
}

/// Whether a generation can begin on these embeddings: the text has one row
/// for each id of the prompt, text and image have the same width, and the
/// rows of the fused sequence and every position the generation may reach
/// can be counted.
pub open spec fn can_begin<T>(
    text_embeds: EmbeddingSequence<T>,
    image_features: EmbeddingSequence<T>,
    prompt_len: int,
    max_response_length: int,
) -> bool {
    &&& text_embeds.seq_len == prompt_len
    &&& text_embeds.hidden_dim == image_features.hidden_dim
    &&& has_room(text_embeds.seq_len as int, image_features.seq_len as int)
    &&& text_embeds.seq_len + kept_image_tokens(image_features.seq_len as int) + max_response_length
        <= i64::MAX
}

/// A generation with a budget that is small against what can be counted
/// always begins on embeddings of one width of four or more that have a
/// row for each id of the prompt. A budget of zero is such a budget.
pub proof fn lemma_generation_begins<T>(
    text_embeds: EmbeddingSequence<T>,
    image_features: EmbeddingSequence<T>,
    max_response_length: usize,
)
    requires
        text_embeds.wf(),
        text_embeds.hidden_dim == image_features.hidden_dim,
        text_embeds.hidden_dim >= 4,
        max_response_length <= 0x3FFF_FF00,
    ensures
        can_begin(text_embeds, image_features, text_embeds.seq_len as int, max_response_length as int),
{
    assert(text_embeds.data@.len() == text_embeds.data.len());
    assert(4 * text_embeds.seq_len <= text_embeds.seq_len * text_embeds.hidden_dim) by (nonlinear_arith)
        requires
            text_embeds.hidden_dim >= 4,
            text_embeds.seq_len >= 0,
    ;
}

/// Fuses the image features into the embeddings of the prompt, at the
/// position of the image, and sets up the generation on the fused sequence.
/// Fails when the tensors do not fit together.
pub fn begin_generation<T: Copy>(
    config: &FastVLMConfig,
    tokens: &PromptTokens,
    text_embeds: &EmbeddingSequence<T>,
    image_features: &EmbeddingSequence<T>,
) -> (r: Result<GenerationState<T>, FastVLMError>)
    requires
        text_embeds.wf(),
        image_features.wf(),
        tokens.image_token_position <= tokens.input_ids@.len(),
    ensures
        !can_begin(
            *text_embeds,
            *image_features,
            tokens.input_ids@.len() as int,
            config.max_response_length as int,
        ) ==> r is Err && r->Err_0 == FastVLMError::TensorShapeMismatch,
        can_begin(
            *text_embeds,
            *image_features,
            tokens.input_ids@.len() as int,
            config.max_response_length as int,
        ) ==> r is Ok && r->Ok_0.wf() && is_empty_cache(r->Ok_0@.past_kv) && r->Ok_0@
            == GenerationModel::initial(
            r->Ok_0@.current_embeds,
            r->Ok_0@.past_kv,
            config.max_response_length as nat,
        ) && r->Ok_0@.current_embeds.hidden_dim == text_embeds.hidden_dim && r->Ok_0@.current_embeds.seq_len
            == text_embeds.seq_len + kept_image_tokens(image_features.seq_len as int)
            && r->Ok_0@.current_embeds.data@ == fused(
            text_embeds.data@,
            image_features.data@,
            text_embeds.hidden_dim as int,
            tokens.image_token_position as int,
            kept_image_tokens(image_features.seq_len as int),
        ),
{
    if text_embeds.seq_len != tokens.input_ids.len() || text_embeds.hidden_dim != image_features.hidden_dim {
        return Err(FastVLMError::TensorShapeMismatch);
    }
    let fused_embeds: EmbeddingSequence<T> = match fuse_image_text_embeddings(
        text_embeds,
        image_features,
        tokens.image_token_position,
    ) {
        Ok(fused_embeds) => fused_embeds,
        Err(e) => {
            return Err(e);
        },
    };
    GenerationState::init(fused_embeds, config.max_response_length)
}

} // verus!
