use fastvlm::model_store::{
    file_name, select_feature_output, should_report_progress, ArtifactPresence, ModelArtifact, PROGRESS_STEP,
};

fn presence(vision_encoder: bool, embed_tokens: bool, decoder: bool, tokenizer: bool) -> ArtifactPresence {
    ArtifactPresence { vision_encoder, embed_tokens, decoder, tokenizer }
}

fn names(list: &[&str]) -> Vec<String> {
    list.iter().map(|name| name.to_string()).collect()
}

#[test]
fn artifacts_have_their_file_names() {
    assert_eq!(file_name(ModelArtifact::VisionEncoder), "vision_encoder.onnx");
    assert_eq!(file_name(ModelArtifact::EmbedTokens), "embed_tokens.onnx");
    assert_eq!(file_name(ModelArtifact::Decoder), "decoder_model_merged.onnx");
    assert_eq!(file_name(ModelArtifact::Tokenizer), "tokenizer.json");
}

#[test]
fn a_directory_is_complete_with_all_four() {
    assert!(presence(true, true, true, true).is_complete());
    assert!(!presence(false, true, true, true).is_complete());
    assert!(!presence(true, false, true, true).is_complete());
    assert!(!presence(true, true, false, true).is_complete());
    assert!(!presence(true, true, true, false).is_complete());
    assert!(!presence(false, false, false, false).is_complete());
}

#[test]
fn progress_is_reported_at_steps_and_at_the_end() {
    assert_eq!(PROGRESS_STEP, 10 * 1024 * 1024);
    assert!(should_report_progress(PROGRESS_STEP, 3 * PROGRESS_STEP));
    assert!(should_report_progress(2 * PROGRESS_STEP, 3 * PROGRESS_STEP + 5));
    assert!(should_report_progress(3 * PROGRESS_STEP + 5, 3 * PROGRESS_STEP + 5));
    assert!(should_report_progress(0, 100));
    assert!(should_report_progress(100, 100));
    assert!(!should_report_progress(99, 100));
    assert!(!should_report_progress(PROGRESS_STEP + 1, 3 * PROGRESS_STEP));
}

#[test]
fn progress_is_not_reported_without_a_total() {
    assert!(!should_report_progress(0, 0));
    assert!(!should_report_progress(PROGRESS_STEP, 0));
}

#[test]
fn feature_output_is_chosen_by_name() {
    assert_eq!(select_feature_output(&names(&["pooled", "last_hidden_state", "output"])), Some(1));
    assert_eq!(select_feature_output(&names(&["output", "image_features"])), Some(1));
    assert_eq!(select_feature_output(&names(&["a", "b", "output"])), Some(2));
    assert_eq!(
        select_feature_output(&names(&["output", "image_features", "last_hidden_state"])),
        Some(2)
    );
}

#[test]
fn feature_output_falls_back_to_the_first() {
    assert_eq!(select_feature_output(&names(&["pooled", "logits"])), Some(0));
    assert_eq!(select_feature_output(&names(&["Last_Hidden_State"])), Some(0));
    assert_eq!(select_feature_output(&Vec::new()), None);
}
