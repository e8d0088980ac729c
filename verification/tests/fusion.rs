use fastvlm::fusion::{
    fuse_image_text_embeddings, image_token_position, EmbeddingSequence, IMAGE_TOKEN_ID, MAX_IMAGE_TOKENS,
};
use fastvlm::FastVLMError;

fn rows(first: i32, count: usize, hidden_dim: usize) -> EmbeddingSequence<i32> {
    let mut data = Vec::new();
    for row in 0..count {
        for column in 0..hidden_dim {
            data.push(first + (row * 10 + column) as i32);
        }
    }
    EmbeddingSequence::from_flat(data, count, hidden_dim).unwrap()
}

#[test]
fn image_token_position_is_the_first_placeholder() {
    assert_eq!(image_token_position(&vec![5, IMAGE_TOKEN_ID, 7, IMAGE_TOKEN_ID]), 1);
    assert_eq!(image_token_position(&vec![IMAGE_TOKEN_ID]), 0);
    assert_eq!(image_token_position(&vec![1, 2, 3, 4, IMAGE_TOKEN_ID]), 4);
}

#[test]
fn image_token_position_falls_back_to_the_middle() {
    assert_eq!(image_token_position(&vec![1, 2, 3, 4, 5]), 2);
    assert_eq!(image_token_position(&vec![1, 2, 3, 4]), 2);
    assert_eq!(image_token_position(&vec![9]), 0);
    assert_eq!(image_token_position(&Vec::new()), 0);
}

#[test]
fn placeholder_id_follows_the_vocabulary() {
    assert_eq!(IMAGE_TOKEN_ID, 151646);
    assert_eq!(MAX_IMAGE_TOKENS, 256);
}

#[test]
fn fused_length_is_text_plus_image() {
    let text = rows(0, 5, 2);
    let image = rows(1000, 3, 2);
    let fused = fuse_image_text_embeddings(&text, &image, 2).unwrap();
    assert_eq!(fused.seq_len, 8);
    assert_eq!(fused.hidden_dim, 2);
    assert_eq!(fused.data.len(), 16);
}

#[test]
fn fused_length_is_capped() {
    let text = rows(0, 5, 1);
    let image = rows(1000, 300, 1);
    let fused = fuse_image_text_embeddings(&text, &image, 5).unwrap();
    assert_eq!(fused.seq_len, 5 + 256);
    assert_eq!(fused.data.len(), 5 + 256);
    assert_eq!(fused.data[4], text.data[4]);
    assert_eq!(fused.data[5], image.data[0]);
    assert_eq!(fused.data[260], image.data[255]);
    let exactly = rows(1000, 256, 1);
    assert_eq!(fuse_image_text_embeddings(&text, &exactly, 0).unwrap().seq_len, 5 + 256);
}

#[test]
fn fusion_splices_the_image_at_the_placeholder() {
    let text = rows(0, 3, 2);
    let image = rows(1000, 2, 2);
    let fused = fuse_image_text_embeddings(&text, &image, 1).unwrap();
    assert_eq!(fused.data, vec![0, 1, 1000, 1001, 1010, 1011, 10, 11, 20, 21]);
}

#[test]
fn fusion_at_the_ends() {
    let text = rows(0, 2, 1);
    let image = rows(1000, 2, 1);
    assert_eq!(fuse_image_text_embeddings(&text, &image, 0).unwrap().data, vec![1000, 1010, 0, 10]);
    assert_eq!(fuse_image_text_embeddings(&text, &image, 2).unwrap().data, vec![0, 10, 1000, 1010]);
}

#[test]
fn fusion_without_placeholder_goes_to_the_middle() {
    let ids: Vec<i64> = vec![11, 12, 13, 14, 15];
    let position = image_token_position(&ids);
    assert_eq!(position, 2);
    let text = rows(0, 5, 1);
    let image = rows(1000, 2, 1);
    let fused = fuse_image_text_embeddings(&text, &image, position).unwrap();
    assert_eq!(fused.data, vec![0, 10, 1000, 1010, 20, 30, 40]);
}

#[test]
fn fusion_refuses_different_widths() {
    let text = rows(0, 3, 2);
    let image = rows(1000, 2, 3);
    match fuse_image_text_embeddings(&text, &image, 1) {
        Err(e) => assert_eq!(e, FastVLMError::TensorShapeMismatch),
        Ok(_) => panic!("different widths were fused"),
    }
}

#[test]
fn fusion_of_empty_sequences() {
    let text: EmbeddingSequence<i32> = EmbeddingSequence::from_flat(Vec::new(), 0, 4).unwrap();
    let image = rows(1000, 2, 4);
    let fused = fuse_image_text_embeddings(&text, &image, 0).unwrap();
    assert_eq!(fused.seq_len, 2);
    assert_eq!(fused.data, image.data);
    let none: EmbeddingSequence<i32> = EmbeddingSequence::from_flat(Vec::new(), 0, 4).unwrap();
    let only_text = rows(0, 2, 4);
    assert_eq!(fuse_image_text_embeddings(&only_text, &none, 1).unwrap().data, only_text.data);
}

#[test]
fn from_flat_checks_the_length() {
    assert!(EmbeddingSequence::from_flat(vec![1, 2, 3, 4, 5, 6], 2, 3).is_ok());
    match EmbeddingSequence::from_flat(vec![1, 2, 3, 4, 5], 2, 3) {
        Err(e) => assert_eq!(e, FastVLMError::TensorShapeMismatch),
        Ok(_) => panic!("a buffer of the wrong length was taken"),
    }
    match EmbeddingSequence::from_flat(vec![1u8], usize::MAX, 2) {
        Err(e) => assert_eq!(e, FastVLMError::TensorShapeMismatch),
        Ok(_) => panic!("a buffer of the wrong length was taken"),
    }
}

#[test]
fn from_tensor_takes_sequences_only() {
    let two = EmbeddingSequence::from_tensor(vec![1, 2, 3, 4, 5, 6], &vec![3, 2]).unwrap();
    assert_eq!((two.seq_len, two.hidden_dim), (3, 2));
    let three = EmbeddingSequence::from_tensor(vec![1, 2, 3, 4, 5, 6], &vec![1, 2, 3]).unwrap();
    assert_eq!((three.seq_len, three.hidden_dim), (2, 3));
    assert!(EmbeddingSequence::from_tensor(vec![1, 2, 3, 4, 5, 6], &vec![2, 1, 3]).is_err());
    assert!(EmbeddingSequence::from_tensor(vec![1, 2, 3, 4, 5, 6], &vec![6]).is_err());
    assert!(EmbeddingSequence::from_tensor(vec![1, 2, 3, 4, 5, 6], &vec![1, 1, 2, 3]).is_err());
    assert!(EmbeddingSequence::from_tensor(vec![1, 2, 3, 4, 5], &vec![1, 2, 3]).is_err());
}

#[test]
fn sequences_are_checked_against_their_shape() {
    assert!(EmbeddingSequence { data: vec![0u8; 6], seq_len: 2, hidden_dim: 3 }.is_well_formed());
    assert!(!EmbeddingSequence { data: vec![0u8; 5], seq_len: 2, hidden_dim: 3 }.is_well_formed());
    assert!(!EmbeddingSequence { data: vec![0u8; 2], seq_len: usize::MAX, hidden_dim: 2 }.is_well_formed());
    assert!(EmbeddingSequence { data: Vec::<u8>::new(), seq_len: 0, hidden_dim: 7 }.is_well_formed());
}

#[test]
fn fusion_refuses_rows_that_cannot_be_counted() {
    let text: EmbeddingSequence<u8> = EmbeddingSequence { data: Vec::new(), seq_len: usize::MAX, hidden_dim: 0 };
    let image: EmbeddingSequence<u8> = EmbeddingSequence { data: Vec::new(), seq_len: 1, hidden_dim: 0 };
    match fuse_image_text_embeddings(&text, &image, 3) {
        Err(e) => assert_eq!(e, FastVLMError::TensorShapeMismatch),
        Ok(_) => panic!("more rows than can be counted were fused"),
    }
    let none: EmbeddingSequence<u8> = EmbeddingSequence { data: Vec::new(), seq_len: 0, hidden_dim: 0 };
    let fused = fuse_image_text_embeddings(&text, &none, 3).unwrap();
    assert_eq!(fused.seq_len, usize::MAX);
    assert!(fused.data.is_empty());
}
