//! The files a pipeline is loaded from, and the outputs of the vision
//! encoder.
//!
//! Reading, downloading and running the files is the caller's work; what
//! is decided about them is decided here.

use vstd::prelude::*;
use vstd::string::*;

verus! {

/// One of the four files of a model directory.
#[derive(Debug, Clone, Copy, PartialEq, Eq, Structural)]
pub enum ModelArtifact {
    VisionEncoder,
    EmbedTokens,
    Decoder,
    Tokenizer,
}

/// File name of the vision encoder graph.
pub const VISION_ENCODER_FILE: &'static str = "vision_encoder.onnx";

/// File name of the embedding lookup graph.
pub const EMBED_TOKENS_FILE: &'static str = "embed_tokens.onnx";

/// File name of the decoder graph.
pub const DECODER_FILE: &'static str = "decoder_model_merged.onnx";

/// File name of the tokenizer description.
pub const TOKENIZER_FILE: &'static str = "tokenizer.json";

/// The name under which an artifact lies in the model directory.
pub fn file_name(artifact: ModelArtifact) -> (name: &'static str)
    ensures
        name@ == match artifact {
            ModelArtifact::VisionEncoder => VISION_ENCODER_FILE@,
            ModelArtifact::EmbedTokens => EMBED_TOKENS_FILE@,
            ModelArtifact::Decoder => DECODER_FILE@,
            ModelArtifact::Tokenizer => TOKENIZER_FILE@,
        },
{
    match artifact {
        ModelArtifact::VisionEncoder => VISION_ENCODER_FILE,
        ModelArtifact::EmbedTokens => EMBED_TOKENS_FILE,
        ModelArtifact::Decoder => DECODER_FILE,
        ModelArtifact::Tokenizer => TOKENIZER_FILE,
    }
}

/// Which artifacts a directory holds.
#[derive(Debug, Clone, Copy, PartialEq, Eq, Structural)]
pub struct ArtifactPresence {
    pub vision_encoder: bool,
    pub embed_tokens: bool,
    pub decoder: bool,
    pub tokenizer: bool,
}

impl ArtifactPresence {
    /// Whether a pipeline can be loaded from the directory: all four
    /// artifacts are there.
    pub fn is_complete(&self) -> (complete: bool)
        ensures
            complete == (self.vision_encoder && self.embed_tokens && self.decoder && self.tokenizer),
    {
        self.vision_encoder && self.embed_tokens && self.decoder && self.tokenizer
    }
}

/// A download reports its progress every this many bytes.
pub const PROGRESS_STEP: u64 = 10485760;

/// Whether a download that has `downloaded` of `total` bytes reports its
/// progress: never while the total is unknown (zero), else at every whole
/// step and at the end.
pub fn should_report_progress(downloaded: u64, total: u64) -> (report: bool)
    ensures
        report == (total > 0 && (downloaded as int % PROGRESS_STEP as int == 0 || downloaded == total)),
{
    total > 0 && (downloaded % PROGRESS_STEP == 0 || downloaded == total)
}

/// Name of the vision encoder output that is taken first.
pub const LAST_HIDDEN_STATE: &'static str = "last_hidden_state";

/// Name of the vision encoder output that is taken second.
pub const IMAGE_FEATURES: &'static str = "image_features";

/// Name of the vision encoder output that is taken third.
pub const OUTPUT: &'static str = "output";

/// The first index from `from` on at which `names` holds `name`, or the
/// length of `names` where it holds it nowhere.
pub open spec fn first_named(names: Seq<String>, name: Seq<char>, from: int) -> int
    decreases names.len() - from,
{
    if from >= names.len() {
        names.len() as int
    } else if names[from]@ == name {
        from
    } else {
        first_named(names, name, from + 1)
    }
}

/// The output of the vision encoder that holds the image features: the one
/// named `last_hidden_state`, else the one named `image_features`, else
/// the one named `output`, else the first; none where there is no output.
pub open spec fn feature_output(names: Seq<String>) -> Option<int> {
    if names.len() == 0 {
        None
    } else if first_named(names, LAST_HIDDEN_STATE@, 0) < names.len() {
        Some(first_named(names, LAST_HIDDEN_STATE@, 0))
    } else if first_named(names, IMAGE_FEATURES@, 0) < names.len() {
        Some(first_named(names, IMAGE_FEATURES@, 0))
    } else if first_named(names, OUTPUT@, 0) < names.len() {
        Some(first_named(names, OUTPUT@, 0))
    } else {
        Some(0)
    }
}

fn position_of(names: &Vec<String>, name: &str) -> (pos: usize)
    ensures
        pos == first_named(names@, name@, 0),
        pos <= names@.len(),
{
    let wanted: String = String::from_str(name);
    let len: usize = names.len();
    let mut i: usize = 0;
    while i < len
        invariant
            i <= len == names@.len(),
            wanted@ == name@,
            first_named(names@, name@, 0) == first_named(names@, name@, i as int),
        decreases len - i,
    {
        if names[i] == wanted {
            return i;
        }
        i = i + 1;
    }
    len
}

/// Picks the output of the vision encoder that holds the image features.
pub fn select_feature_output(names: &Vec<String>) -> (index: Option<usize>)
    ensures
        match index {
            Some(i) => feature_output(names@) == Some(i as int) && i < names@.len(),
            None => feature_output(names@) is None,
        },
{
    let len: usize = names.len();
    if len == 0 {
        return None;
    }
    let by_hidden_state: usize = position_of(names, LAST_HIDDEN_STATE);
    if by_hidden_state < len {
        return Some(by_hidden_state);
    }
    let by_image_features: usize = position_of(names, IMAGE_FEATURES);
    if by_image_features < len {
        return Some(by_image_features);
    }
    let by_output: usize = position_of(names, OUTPUT);
    if by_output < len {
        return Some(by_output);
    }
    Some(0)
}

} // verus!
