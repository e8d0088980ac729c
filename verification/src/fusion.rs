//! Splicing image features into a sequence of text embeddings.
//!
//! An embedding sequence is a `[1, L, D]` tensor kept as `L` rows of `D`
//! elements, one row after the other. Fusion only moves rows, so the element
//! type is left open.

use vstd::prelude::*;
use crate::error::FastVLMError;

verus! {

/// Token id of the image placeholder (`<image>`).
pub const IMAGE_TOKEN_ID: i64 = 151646;

/// At most this many image positions are spliced in; the rest is dropped.
pub const MAX_IMAGE_TOKENS: usize = 256;

/// A `[1, seq_len, hidden_dim]` tensor in row-major order.
pub struct EmbeddingSequence<T> {
    pub data: Vec<T>,
    pub seq_len: usize,
    pub hidden_dim: usize,
}

impl<T> EmbeddingSequence<T> {
    /// The buffer holds `seq_len` rows of `hidden_dim` elements.
    pub open spec fn wf(&self) -> bool {
        self.data@.len() == self.seq_len * self.hidden_dim
    }

    /// Whether the buffer holds `seq_len` rows of `hidden_dim` elements.
    pub fn is_well_formed(&self) -> (ok: bool)
        ensures
            ok == self.wf(),
    {
        let len: usize = self.data.len();
        let expected: Option<usize> = self.seq_len.checked_mul(self.hidden_dim);
        expected.is_some() && len == expected.unwrap()
    }

    /// Takes a flat buffer as a sequence of `seq_len` rows of `hidden_dim`
    /// elements. Fails when the buffer has another length.
    pub fn from_flat(data: Vec<T>, seq_len: usize, hidden_dim: usize) -> (r: Result<Self, FastVLMError>)
        ensures
            data@.len() != seq_len * hidden_dim ==> r is Err && r->Err_0 == FastVLMError::TensorShapeMismatch,
            data@.len() == seq_len * hidden_dim ==> r is Ok && r->Ok_0.wf() && r->Ok_0.data@ == data@
                && r->Ok_0.seq_len == seq_len && r->Ok_0.hidden_dim == hidden_dim,
    {
        let len: usize = data.len();
        let expected: Option<usize> = seq_len.checked_mul(hidden_dim);
        if expected.is_none() || len != expected.unwrap() {
            return Err(FastVLMError::TensorShapeMismatch);
        }
        Ok(EmbeddingSequence { data, seq_len, hidden_dim })
    }

    /// Takes the output of a network as an embedding sequence. A tensor of
    /// shape `[L, D]` or `[1, L, D]` is a sequence of `L` rows of `D`
    /// elements; every other shape is refused, and so is a buffer whose
    /// length does not fit the shape.
    pub fn from_tensor(data: Vec<T>, shape: &Vec<usize>) -> (r: Result<Self, FastVLMError>)
        ensures
            match sequence_dims(shape@) {
                Some((seq_len, hidden_dim)) => if data@.len() == seq_len * hidden_dim {
                    r is Ok && r->Ok_0.wf() && r->Ok_0.data@ == data@ && r->Ok_0.seq_len == seq_len
                        && r->Ok_0.hidden_dim == hidden_dim
                } else {
                    r is Err && r->Err_0 == FastVLMError::TensorShapeMismatch
                },
                None => r is Err && r->Err_0 == FastVLMError::TensorShapeMismatch,
            },
    {
        if shape.len() == 2 {
            EmbeddingSequence::from_flat(data, shape[0], shape[1])
        } else if shape.len() == 3 && shape[0] == 1 {
            EmbeddingSequence::from_flat(data, shape[1], shape[2])
        } else {
            Err(FastVLMError::TensorShapeMismatch)
        }
    }
}

/// The rows and the width of an embedding sequence given as a tensor of
/// the shape `shape`, where the shape is one of a sequence.
pub open spec fn sequence_dims(shape: Seq<usize>) -> Option<(usize, usize)> {
    if shape.len() == 2 {
        Some((shape[0], shape[1]))
    } else if shape.len() == 3 && shape[0] == 1 {
        Some((shape[1], shape[2]))
    } else {
        None
    }
}

/// Number of image positions that fusion keeps.
pub open spec fn kept_image_tokens(image_seq_len: int) -> int {
    if image_seq_len <= MAX_IMAGE_TOKENS {
        image_seq_len
    } else {
        MAX_IMAGE_TOKENS as int
    }
}

/// The fused sequence, flat: the text before row `pos`, the first
/// `image_rows` rows of the image, then the rest of the text.
pub open spec fn fused<T>(text: Seq<T>, image: Seq<T>, hidden_dim: int, pos: int, image_rows: int) -> Seq<T> {
    text.subrange(0, pos * hidden_dim) + image.subrange(0, image_rows * hidden_dim) + text.subrange(
        pos * hidden_dim,
        text.len() as int,
    )
}

/// The first index from `from` on that holds the image placeholder, or the
/// length of `ids` where none does.
pub open spec fn first_placeholder(ids: Seq<i64>, from: int) -> int
    decreases ids.len() - from,
{
    if from >= ids.len() {
        ids.len() as int
    } else if ids[from] == IMAGE_TOKEN_ID {
        from
    } else {
        first_placeholder(ids, from + 1)
    }
}

/// Where the image is spliced in: at the first image placeholder, and in
/// the middle of the sequence where there is none.
pub open spec fn placeholder_index(ids: Seq<i64>) -> int {
    if first_placeholder(ids, 0) < ids.len() {
        first_placeholder(ids, 0)
    } else {
        ids.len() as int / 2
    }
}

proof fn lemma_first_placeholder(ids: Seq<i64>, from: int)
    requires
        0 <= from <= ids.len(),
    ensures
        from <= first_placeholder(ids, from) <= ids.len(),
        first_placeholder(ids, from) < ids.len() ==> ids[first_placeholder(ids, from)] == IMAGE_TOKEN_ID,
        forall|j: int| from <= j < first_placeholder(ids, from) ==> ids[j] != IMAGE_TOKEN_ID,
    decreases ids.len() - from,
{
    if from < ids.len() && ids[from] != IMAGE_TOKEN_ID {
        lemma_first_placeholder(ids, from + 1);
    }
}

/// The splice position is the first placeholder where there is one, and half
/// the length, rounded down, where there is none; either way it lies within
/// the sequence.
pub proof fn lemma_placeholder_index(ids: Seq<i64>)
    ensures
        0 <= placeholder_index(ids) <= ids.len(),
        ids.contains(IMAGE_TOKEN_ID) ==> ids[placeholder_index(ids)] == IMAGE_TOKEN_ID && forall|j: int|
            0 <= j < placeholder_index(ids) ==> ids[j] != IMAGE_TOKEN_ID,
        !ids.contains(IMAGE_TOKEN_ID) ==> placeholder_index(ids) == ids.len() as int / 2,
{
    lemma_first_placeholder(ids, 0);
}

/// Finds where the image is spliced into the prompt.
pub fn image_token_position(ids: &Vec<i64>) -> (pos: usize)
    ensures
        pos == placeholder_index(ids@),
        pos <= ids@.len(),
{
    let len: usize = ids.len();
    let mut i: usize = 0;
    while i < len
        invariant
            i <= len == ids@.len(),
            first_placeholder(ids@, 0) == first_placeholder(ids@, i as int),
        decreases len - i,
    {
        if ids[i] == IMAGE_TOKEN_ID {
            return i;
        }
        i = i + 1;
    }
    len / 2
}

fn append_range<T: Copy>(dst: &mut Vec<T>, src: &Vec<T>, from: usize, to: usize)
    requires
        from <= to <= src@.len(),
    ensures
        final(dst)@ == old(dst)@ + src@.subrange(from as int, to as int),
{
    let mut i: usize = from;
    while i < to
        invariant
            from <= i <= to <= src@.len(),
            dst@ =~= old(dst)@ + src@.subrange(from as int, i as int),
        decreases to - i,
    {
        dst.push(src[i]);
        i = i + 1;
    }
}

/// Whether the fused sequence has a row count: the rows of the text and the
/// kept rows of the image together can be counted.
pub open spec fn has_room(text_seq_len: int, image_seq_len: int) -> bool {
    text_seq_len + kept_image_tokens(image_seq_len) <= usize::MAX
}

/// Text of a width of two or more always has room for the image: its rows
/// are at most half of what can be counted.
pub proof fn lemma_fusion_has_room<T>(text_embeds: EmbeddingSequence<T>, image_seq_len: usize)
    requires
        text_embeds.wf(),
        text_embeds.hidden_dim >= 2,
    ensures
        has_room(text_embeds.seq_len as int, image_seq_len as int),
{
    assert(text_embeds.data@.len() == text_embeds.data.len());
    assert(2 * text_embeds.seq_len <= text_embeds.seq_len * text_embeds.hidden_dim) by (nonlinear_arith)
        requires
            text_embeds.hidden_dim >= 2,
            text_embeds.seq_len >= 0,
    ;
}

/// Splices the image features into the text embeddings at row
/// `image_token_pos`. Only the first `MAX_IMAGE_TOKENS` image rows are kept.
/// The text rows before the position come first, then the image rows, then
/// the remaining text rows. Fails when the two hidden widths differ, and
/// when the rows cannot be counted, which takes a width below two.
pub fn fuse_image_text_embeddings<T: Copy>(
    text_embeds: &EmbeddingSequence<T>,
    image_features: &EmbeddingSequence<T>,
    image_token_pos: usize,
) -> (r: Result<EmbeddingSequence<T>, FastVLMError>)
    requires
        text_embeds.wf(),
        image_features.wf(),
        image_token_pos <= text_embeds.seq_len,
    ensures
        image_features.hidden_dim != text_embeds.hidden_dim || !has_room(
            text_embeds.seq_len as int,
            image_features.seq_len as int,
        ) ==> r is Err && r->Err_0 == FastVLMError::TensorShapeMismatch,
        image_features.hidden_dim == text_embeds.hidden_dim && has_room(
            text_embeds.seq_len as int,
            image_features.seq_len as int,
        ) ==> r is Ok && r->Ok_0.wf() && r->Ok_0.hidden_dim == text_embeds.hidden_dim && r->Ok_0.seq_len
            == text_embeds.seq_len + kept_image_tokens(image_features.seq_len as int) && r->Ok_0.data@
            == fused(
            text_embeds.data@,
            image_features.data@,
            text_embeds.hidden_dim as int,
            image_token_pos as int,
            kept_image_tokens(image_features.seq_len as int),
        ),
        image_features.hidden_dim == text_embeds.hidden_dim && text_embeds.hidden_dim >= 2 ==> r is Ok,
{
    let hidden_dim: usize = text_embeds.hidden_dim;
    if image_features.hidden_dim != hidden_dim {
        return Err(FastVLMError::TensorShapeMismatch);
    }
    let actual_image_tokens: usize = if image_features.seq_len <= MAX_IMAGE_TOKENS {
        image_features.seq_len
    } else {
        MAX_IMAGE_TOKENS
    };
    proof {
        if hidden_dim >= 2 {
            lemma_fusion_has_room(*text_embeds, image_features.seq_len);
        }
    }
    let seq_len: usize = match text_embeds.seq_len.checked_add(actual_image_tokens) {
        Some(seq_len) => seq_len,
        None => {
            return Err(FastVLMError::TensorShapeMismatch);
        },
    };
    let text_len: usize = text_embeds.data.len();
    let image_len: usize = image_features.data.len();
    assert(image_token_pos * hidden_dim <= text_embeds.seq_len * hidden_dim) by (nonlinear_arith)
        requires
            image_token_pos <= text_embeds.seq_len,
    ;
    assert(actual_image_tokens * hidden_dim <= image_features.seq_len * hidden_dim) by (nonlinear_arith)
        requires
            actual_image_tokens <= image_features.seq_len,
    ;
    let split: usize = image_token_pos * hidden_dim;
    let kept: usize = actual_image_tokens * hidden_dim;
    let mut data: Vec<T> = Vec::new();
    append_range(&mut data, &text_embeds.data, 0, split);
    append_range(&mut data, &image_features.data, 0, kept);
    append_range(&mut data, &text_embeds.data, split, text_len);
    assert((text_embeds.seq_len + actual_image_tokens) * hidden_dim == text_embeds.seq_len * hidden_dim
        + actual_image_tokens * hidden_dim) by (nonlinear_arith);
    Ok(EmbeddingSequence { data, seq_len, hidden_dim })
}

/// Fusion row by row: the rows before `pos` are the text rows of the same
/// index, the next `image_rows` rows are the first image rows, and every
/// later row is the text row `image_rows` places back. The fused sequence
/// has as many rows as the text and the kept image rows together.
pub proof fn lemma_fused_rows<T>(
    text: Seq<T>,
    image: Seq<T>,
    hidden_dim: int,
    text_rows: int,
    pos: int,
    image_rows: int,
    row: int,
)
    requires
        0 <= hidden_dim,
        0 <= pos <= text_rows,
        0 <= image_rows,
        text.len() == text_rows * hidden_dim,
        image.len() >= image_rows * hidden_dim,
        0 <= row < text_rows + image_rows,
    ensures
        fused(text, image, hidden_dim, pos, image_rows).len() == (text_rows + image_rows) * hidden_dim,
        fused(text, image, hidden_dim, pos, image_rows).subrange(row * hidden_dim, (row + 1) * hidden_dim)
            == if row < pos {
            text.subrange(row * hidden_dim, (row + 1) * hidden_dim)
        } else if row < pos + image_rows {
            image.subrange((row - pos) * hidden_dim, (row - pos + 1) * hidden_dim)
        } else {
            text.subrange((row - image_rows) * hidden_dim, (row - image_rows + 1) * hidden_dim)
        },
{
    let d = hidden_dim;
    let f = fused(text, image, hidden_dim, pos, image_rows);
    assert(pos * d <= text_rows * d && (text_rows + image_rows) * d == text_rows * d + image_rows * d
        && 0 <= row * d && (row + 1) * d == row * d + d && (row + 1) * d <= (text_rows + image_rows) * d)
        by (nonlinear_arith)
        requires
            pos <= text_rows,
            0 <= row < text_rows + image_rows,
            d >= 0,
    ;
    if row < pos {
        assert((row + 1) * d <= pos * d) by (nonlinear_arith)
            requires
                row + 1 <= pos,
                d >= 0,
        ;
    } else if row < pos + image_rows {
        assert((row - pos) * d == row * d - pos * d && (row - pos + 1) * d == (row + 1) * d - pos * d && (row
            - pos + 1) * d <= image_rows * d && (row - pos) * d >= 0) by (nonlinear_arith)
            requires
                pos <= row < pos + image_rows,
                d >= 0,
        ;
    } else {
        assert((row - image_rows) * d == row * d - image_rows * d && (row - image_rows + 1) * d == (row + 1)
            * d - image_rows * d && (row - image_rows) * d >= pos * d) by (nonlinear_arith)
            requires
                pos + image_rows <= row,
                d >= 0,
        ;
    }
}

} // verus!
