//! The autoregressive decode loop as an explicit state machine.
//!
//! The decoder and the embedding table are run by the caller. Between two
//! such runs the state machine decides what happens next: it owns the
//! decoder inputs, the key/value cache and the tokens generated so far, and
//! it stops on a stop token or when the step budget is used up.

use vstd::prelude::*;
use crate::error::FastVLMError;
use crate::fusion::EmbeddingSequence;

verus! {

/// End-of-sequence token id.
pub const EOS_TOKEN_ID: i64 = 151645;

/// Turn-end token id (`<|im_end|>`).
pub const IM_END_TOKEN_ID: i64 = 151645;

/// Logits at or above this index belong to reserved ids and are never sampled.
pub const VOCAB_CAP: usize = 151646;

/// Number of decoder layers; the cache holds a key and a value tensor for each.
pub const NUM_LAYERS: usize = 24;

/// Number of key/value heads per layer.
pub const NUM_KV_HEADS: usize = 2;

/// Width of one attention head.
pub const HEAD_DIM: usize = 64;

/// Number of tensors in a key/value cache: entry `2 * layer` is the key of
/// `layer`, entry `2 * layer + 1` its value.
pub const CACHE_TENSORS: usize = 2 * NUM_LAYERS;

/// Why generation ended.
#[derive(Debug, Clone, Copy, PartialEq, Eq, Structural)]
pub enum StopReason {
    /// A stop token was sampled; it is not part of the output.
    StopToken,
    /// The step budget was used up.
    StepCap,
}

/// What the state machine waits for.
#[derive(Debug, Clone, Copy, PartialEq, Eq, Structural)]
pub enum Phase {
    /// The decoder has to run on the current inputs and a token be sampled.
    Step,
    /// `token` was accepted; its embedding has to be looked up.
    Embed { token: u32 },
    /// Terminal.
    Stopped { reason: StopReason },
}

/// Whether `token` ends the generation.
pub open spec fn is_stop_token(token: u32) -> bool {
    token as int == EOS_TOKEN_ID as int || token as int == IM_END_TOKEN_ID as int
}

/// Whether `token` ends the generation.
pub fn is_stop(token: u32) -> (stop: bool)
    ensures
        stop == is_stop_token(token),
{
    token as i64 == EOS_TOKEN_ID || token as i64 == IM_END_TOKEN_ID
}

/// Index of the key tensor of `layer` in a cache.
pub fn key_slot(layer: usize) -> (slot: usize)
    requires
        layer < NUM_LAYERS,
    ensures
        slot == 2 * layer,
        slot < CACHE_TENSORS,
{
    2 * layer
}

/// Index of the value tensor of `layer` in a cache.
pub fn value_slot(layer: usize) -> (slot: usize)
    requires
        layer < NUM_LAYERS,
    ensures
        slot == 2 * layer + 1,
        slot < CACHE_TENSORS,
{
    2 * layer + 1
}

/// One tensor of the key/value cache: the keys or the values of one layer
/// for `cached_len` positions, of the shape
/// `[1, NUM_KV_HEADS, cached_len, HEAD_DIM]` in row-major order.
pub struct CacheTensor<T> {
    pub cached_len: usize,
    pub data: Vec<T>,
}

/// The shape of a cache tensor that holds `cached_len` positions.
pub open spec fn cache_shape(cached_len: usize) -> Seq<usize> {
    seq![1usize, NUM_KV_HEADS, cached_len, HEAD_DIM]
}

impl<T> CacheTensor<T> {
    /// The buffer holds `HEAD_DIM` elements for each head and position.
    pub open spec fn wf(&self) -> bool {
        self.data@.len() == NUM_KV_HEADS * self.cached_len * HEAD_DIM
    }

    /// Whether the buffer holds `HEAD_DIM` elements for each head and
    /// position.
    pub fn is_well_formed(&self) -> (ok: bool)
        ensures
            ok == self.wf(),
    {
        let len: usize = self.data.len();
        let per_head: Option<usize> = self.cached_len.checked_mul(HEAD_DIM);
        if per_head.is_none() {
            assert(NUM_KV_HEADS * self.cached_len * HEAD_DIM == NUM_KV_HEADS * (self.cached_len * HEAD_DIM))
                by (nonlinear_arith);
            return false;
        }
        let expected: Option<usize> = per_head.unwrap().checked_mul(NUM_KV_HEADS);
        assert(NUM_KV_HEADS * self.cached_len * HEAD_DIM == (self.cached_len * HEAD_DIM) * NUM_KV_HEADS)
            by (nonlinear_arith);
        expected.is_some() && len == expected.unwrap()
    }

    /// A tensor without positions.
    pub fn empty() -> (tensor: Self)
        ensures
            tensor.wf(),
            tensor.cached_len == 0,
            tensor.data@.len() == 0,
    {
        CacheTensor { cached_len: 0, data: Vec::new() }
    }

    /// Takes a tensor the decoder returned. Its shape has to be that of a
    /// cache tensor, for any number of positions, and the buffer has to be
    /// as long as the shape says.
    pub fn from_tensor(data: Vec<T>, shape: &Vec<usize>) -> (r: Result<Self, FastVLMError>)
        ensures
            shape@.len() == 4 && shape@ == cache_shape(shape@[2]) && data@.len() == NUM_KV_HEADS * shape@[2]
                * HEAD_DIM ==> r is Ok && r->Ok_0.wf() && r->Ok_0.cached_len == shape@[2] && r->Ok_0.data@
                == data@,
            !(shape@.len() == 4 && shape@ == cache_shape(shape@[2]) && data@.len() == NUM_KV_HEADS
                * shape@[2] * HEAD_DIM) ==> r is Err && r->Err_0 == FastVLMError::TensorShapeMismatch,
    {
        if shape.len() != 4 || shape[0] != 1 || shape[1] != NUM_KV_HEADS || shape[3] != HEAD_DIM {
            return Err(FastVLMError::TensorShapeMismatch);
        }
        assert(shape@ =~= cache_shape(shape@[2]));
        let tensor = CacheTensor { cached_len: shape[2], data };
        if tensor.is_well_formed() {
            Ok(tensor)
        } else {
            Err(FastVLMError::TensorShapeMismatch)
        }
    }

    /// The shape of the tensor.
    pub fn shape(&self) -> (shape: [usize; 4])
        ensures
            shape@ == cache_shape(self.cached_len),
    {
        let shape: [usize; 4] = [1, NUM_KV_HEADS, self.cached_len, HEAD_DIM];
        assert(shape@ =~= cache_shape(self.cached_len));
        shape
    }
}

/// Whether `cache` holds a well-formed key and value tensor for every layer.
pub open spec fn is_cache<T>(cache: Seq<CacheTensor<T>>) -> bool {
    &&& cache.len() == CACHE_TENSORS
    &&& forall|i: int| 0 <= i < cache.len() ==> (#[trigger] cache[i]).wf()
}

/// Whether `cache` is a cache without positions.
pub open spec fn is_empty_cache<T>(cache: Seq<CacheTensor<T>>) -> bool {
    &&& is_cache(cache)
    &&& forall|i: int| 0 <= i < cache.len() ==> (#[trigger] cache[i]).cached_len == 0
}

/// Whether `cache` holds a well-formed key and value tensor for every layer.
pub fn is_valid_cache<T>(cache: &Vec<CacheTensor<T>>) -> (ok: bool)
    ensures
        ok == is_cache(cache@),
{
    if cache.len() != CACHE_TENSORS {
        return false;
    }
    let mut i: usize = 0;
    while i < CACHE_TENSORS
        invariant
            i <= CACHE_TENSORS == cache@.len(),
            forall|j: int| 0 <= j < i ==> (#[trigger] cache@[j]).wf(),
        decreases CACHE_TENSORS - i,
    {
        if !cache[i].is_well_formed() {
            return false;
        }
        i = i + 1;
    }
    true
}

/// The cache before the first decoder run: no positions in any layer.
pub fn empty_cache<T>() -> (cache: Vec<CacheTensor<T>>)
    ensures
        is_empty_cache(cache@),
{
    let mut cache: Vec<CacheTensor<T>> = Vec::new();
    let mut i: usize = 0;
    while i < CACHE_TENSORS
        invariant
            i <= CACHE_TENSORS,
            cache@.len() == i,
            forall|j: int| 0 <= j < i ==> (#[trigger] cache@[j]).wf() && cache@[j].cached_len == 0,
        decreases CACHE_TENSORS - i,
    {
        cache.push(CacheTensor::empty());
        i = i + 1;
    }
    cache
}

/// Mathematical model of a generation in progress.
pub struct GenerationModel<T> {
    pub current_embeds: EmbeddingSequence<T>,
    pub attention_mask: Seq<i64>,
    pub position_ids: Seq<i64>,
    pub past_kv: Seq<CacheTensor<T>>,
    pub generated_tokens: Seq<u32>,
    pub prompt_len: nat,
    pub max_response_length: nat,
    pub phase: Phase,
}

/// Whether `embeds` can follow `current` as decoder input: it is the
/// embedding of one token, of the same width.
pub open spec fn is_token_embedding<T>(embeds: EmbeddingSequence<T>, current: EmbeddingSequence<T>) -> bool {
    embeds.wf() && embeds.seq_len == 1 && embeds.hidden_dim == current.hidden_dim
}

impl<T> GenerationModel<T> {
    /// The state before the first decoder run on the fused sequence
    /// `embeds`: one position id for each row, counted from zero, a mask of
    /// as many ones, the given cache and no tokens.
    pub open spec fn initial(embeds: EmbeddingSequence<T>, cache: Seq<CacheTensor<T>>, max_response_length: nat) -> Self {
        GenerationModel {
            current_embeds: embeds,
            attention_mask: Seq::new(embeds.seq_len as nat, |i: int| 1i64),
            position_ids: Seq::new(embeds.seq_len as nat, |i: int| i as i64),
            past_kv: cache,
            generated_tokens: Seq::empty(),
            prompt_len: embeds.seq_len as nat,
            max_response_length,
            phase: if max_response_length == 0 {
                Phase::Stopped { reason: StopReason::StepCap }
            } else {
                Phase::Step
            },
        }
    }

    /// Number of steps that ran to their end.
    pub open spec fn completed_steps(self) -> nat {
        if self.phase is Embed {
            (self.generated_tokens.len() - 1) as nat
        } else {
            self.generated_tokens.len()
        }
    }

    /// Number of steps that may still begin.
    pub open spec fn remaining_steps(self) -> nat {
        (self.max_response_length - self.generated_tokens.len()) as nat
    }

    /// What holds of every state the machine reaches: the cache has its
    /// tensors; the decoder input has a row for each position id; the mask
    /// is all ones and as long as the prompt and the completed steps
    /// together; the position ids are those of the prompt before the first
    /// step ends, and the last position alone after that; no stop token is
    /// recorded; and no more tokens are recorded than the budget allows.
    pub open spec fn wf(self) -> bool {
        &&& is_cache(self.past_kv)
        &&& self.current_embeds.wf()
        &&& self.current_embeds.seq_len == self.position_ids.len()
        &&& self.generated_tokens.len() <= self.max_response_length
        &&& self.prompt_len + self.max_response_length <= i64::MAX
        &&& self.attention_mask =~= Seq::new(self.prompt_len + self.completed_steps(), |i: int| 1i64)
        &&& self.position_ids =~= if self.completed_steps() == 0 {
            Seq::new(self.prompt_len, |i: int| i as i64)
        } else {
            seq![(self.attention_mask.len() - 1) as i64]
        }
        &&& forall|i: int|
            0 <= i < self.generated_tokens.len() ==> !is_stop_token(#[trigger] self.generated_tokens[i])
        &&& match self.phase {
            Phase::Step => self.generated_tokens.len() < self.max_response_length,
            Phase::Embed { token } => self.generated_tokens.len() >= 1 && self.generated_tokens.last()
                == token,
            Phase::Stopped { reason } => reason == StopReason::StepCap ==> self.generated_tokens.len()
                == self.max_response_length,
        }
    }

    /// The state after `token` was sampled from the logits of a decoder run
    /// that also returned the cache `present`.
    pub open spec fn after_sample(self, token: u32, present: Seq<CacheTensor<T>>) -> Self {
        if is_stop_token(token) {
            GenerationModel { phase: Phase::Stopped { reason: StopReason::StopToken }, ..self }
        } else {
            GenerationModel {
                generated_tokens: self.generated_tokens.push(token),
                past_kv: present,
                phase: Phase::Embed { token },
                ..self
            }
        }
    }

    /// The state after the embedding of the accepted token arrived.
    pub open spec fn after_embedding(self, embeds: EmbeddingSequence<T>) -> Self {
        GenerationModel {
            current_embeds: embeds,
            attention_mask: self.attention_mask.push(1i64),
            position_ids: seq![self.attention_mask.len() as i64],
            phase: if self.generated_tokens.len() >= self.max_response_length {
                Phase::Stopped { reason: StopReason::StepCap }
            } else {
                Phase::Step
            },
            ..self
        }
    }

    /// The state after one whole step: a non-stop `token` is sampled and
    /// embedded. A stop token ends the generation instead.
    pub open spec fn after_step(self, token: u32, present: Seq<CacheTensor<T>>, embeds: EmbeddingSequence<T>) -> Self {
        if is_stop_token(token) {
            self.after_sample(token, present)
        } else {
            self.after_sample(token, present).after_embedding(embeds)
        }
    }

    /// The state reached from `self` when the sampler yields `samples` in
    /// turn, for as long as the machine asks for another step. Neither the
    /// cache nor the embeddings bear on where it stops: the cache stays as
    /// it is, and every token is embedded as `embeds`.
    pub open spec fn run(self, samples: Seq<u32>, embeds: EmbeddingSequence<T>) -> Self
        decreases samples.len(),
    {
        if samples.len() == 0 || !(self.phase is Step) {
            self
        } else {
            self.after_step(samples[0], self.past_kv, embeds).run(samples.drop_first(), embeds)
        }
    }
}

/// The tokens that a generation with `budget` steps left records when the
/// sampler yields `samples` in turn: every sample before the first stop
/// token, and at most `budget` of them.
pub open spec fn accepted_prefix(samples: Seq<u32>, budget: nat) -> Seq<u32>
    decreases samples.len(),
{
    if samples.len() == 0 || budget == 0 || is_stop_token(samples[0]) {
        Seq::empty()
    } else {
        seq![samples[0]] + accepted_prefix(samples.drop_first(), (budget - 1) as nat)
    }
}

/// One step keeps the state well formed. A stop token ends the generation
/// and records nothing; any other token is recorded and uses up one step of
/// the budget, and the step that uses up the last one ends the generation.
pub proof fn lemma_step<T>(
    m: GenerationModel<T>,
    token: u32,
    present: Seq<CacheTensor<T>>,
    embeds: EmbeddingSequence<T>,
)
    requires
        m.wf(),
        m.phase is Step,
        is_cache(present),
        is_token_embedding(embeds, m.current_embeds),
    ensures
        m.after_step(token, present, embeds).wf(),
        !(m.after_step(token, present, embeds).phase is Embed),
        m.after_step(token, present, embeds).current_embeds.hidden_dim == m.current_embeds.hidden_dim,
        is_stop_token(token) ==> m.after_step(token, present, embeds).phase == (Phase::Stopped {
            reason: StopReason::StopToken,
        }) && m.after_step(token, present, embeds).generated_tokens == m.generated_tokens,
        !is_stop_token(token) ==> m.after_step(token, present, embeds).generated_tokens
            == m.generated_tokens.push(token) && m.after_step(token, present, embeds).remaining_steps()
            == m.remaining_steps() - 1 && m.after_step(token, present, embeds).past_kv == present
            && m.after_step(token, present, embeds).attention_mask.len() == m.attention_mask.len() + 1,
        !is_stop_token(token) && m.remaining_steps() == 1 ==> m.after_step(token, present, embeds).phase
            == (Phase::Stopped { reason: StopReason::StepCap }),
        !is_stop_token(token) && m.remaining_steps() > 1 ==> m.after_step(token, present, embeds).phase
            == Phase::Step,
{
}

/// A run records the samples before the first stop token, up to the budget,
/// and nothing else.
pub proof fn lemma_run_records_accepted_prefix<T>(
    m: GenerationModel<T>,
    samples: Seq<u32>,
    embeds: EmbeddingSequence<T>,
)
    requires
        m.wf(),
        m.phase is Step || m.phase == (Phase::Stopped { reason: StopReason::StepCap }),
        is_token_embedding(embeds, m.current_embeds),
    ensures
        m.run(samples, embeds).wf(),
        !(m.run(samples, embeds).phase is Embed),
        m.run(samples, embeds).generated_tokens == m.generated_tokens + accepted_prefix(
            samples,
            m.remaining_steps(),
        ),
    decreases samples.len(),
{
    if samples.len() > 0 && m.phase is Step {
        let next = m.after_step(samples[0], m.past_kv, embeds);
        lemma_step(m, samples[0], m.past_kv, embeds);
        if is_stop_token(samples[0]) {
            assert(next.run(samples.drop_first(), embeds) == next);
            assert(m.generated_tokens + Seq::<u32>::empty() =~= m.generated_tokens);
        } else {
            let rest = accepted_prefix(samples.drop_first(), next.remaining_steps());
            lemma_run_records_accepted_prefix(next, samples.drop_first(), embeds);
            assert(m.generated_tokens.push(samples[0]) + rest =~= m.generated_tokens + (seq![samples[0]]
                + rest));
        }
    } else {
        assert(m.generated_tokens + Seq::<u32>::empty() =~= m.generated_tokens);
    }
}

/// Generation ends within its budget: whatever the sampler yields, a run
/// never records more than `max_response_length` tokens, and once the
/// sampler has been asked as often as steps were left the machine has
/// stopped, stop token or not.
pub proof fn lemma_run_stops_within_cap<T>(
    m: GenerationModel<T>,
    samples: Seq<u32>,
    embeds: EmbeddingSequence<T>,
)
    requires
        m.wf(),
        m.phase is Step || m.phase == (Phase::Stopped { reason: StopReason::StepCap }),
        is_token_embedding(embeds, m.current_embeds),
    ensures
        m.run(samples, embeds).generated_tokens.len() <= m.max_response_length,
        samples.len() >= m.remaining_steps() ==> m.run(samples, embeds).phase is Stopped,
    decreases samples.len(),
{
    lemma_run_records_accepted_prefix(m, samples, embeds);
    if samples.len() > 0 && m.phase is Step {
        let next = m.after_step(samples[0], m.past_kv, embeds);
        lemma_step(m, samples[0], m.past_kv, embeds);
        if is_stop_token(samples[0]) {
            assert(next.run(samples.drop_first(), embeds) == next);
        } else {
            lemma_run_stops_within_cap(next, samples.drop_first(), embeds);
        }
    }
}

/// With a budget of zero nothing is generated: the machine starts stopped
/// and no sample changes that.
pub proof fn lemma_zero_budget_generates_nothing<T>(
    prompt: EmbeddingSequence<T>,
    cache: Seq<CacheTensor<T>>,
    samples: Seq<u32>,
    embeds: EmbeddingSequence<T>,
)
    ensures
        GenerationModel::initial(prompt, cache, 0).run(samples, embeds).generated_tokens == Seq::<
            u32,
        >::empty(),
        GenerationModel::initial(prompt, cache, 0).run(samples, embeds).phase == (Phase::Stopped {
            reason: StopReason::StepCap,
        }),
{
}

/// A generation in progress.
pub struct GenerationState<T> {
    /// What the decoder takes next: the fused sequence before the first
    /// step, the embedding of the last token after that.
    pub current_embeds: EmbeddingSequence<T>,
    /// One entry of one for every position seen so far.
    pub attention_mask: Vec<i64>,
    /// The positions of the rows of `current_embeds`.
    pub position_ids: Vec<i64>,
    /// The cache the decoder returned last.
    pub past_kv: Vec<CacheTensor<T>>,
    /// The tokens generated so far.
    pub generated_tokens: Vec<u32>,
    /// Length of the fused sequence.
    pub prompt_len: usize,
    /// The step budget.
    pub max_response_length: usize,
    pub phase: Phase,
}

impl<T> View for GenerationState<T> {
    type V = GenerationModel<T>;

    open spec fn view(&self) -> GenerationModel<T> {
        GenerationModel {
            current_embeds: self.current_embeds,
            attention_mask: self.attention_mask@,
            position_ids: self.position_ids@,
            past_kv: self.past_kv@,
            generated_tokens: self.generated_tokens@,
            prompt_len: self.prompt_len as nat,
            max_response_length: self.max_response_length as nat,
            phase: self.phase,
        }
    }
}

impl<T> GenerationState<T> {
    /// The state is one the machine reaches.
    pub open spec fn wf(&self) -> bool {
        self@.wf()
    }

    /// Whether the state is one the machine reaches.
    #[verifier::loop_isolation(false)]
    pub fn is_well_formed(&self) -> (ok: bool)
        ensures
            ok == self.wf(),
    {
        let tokens: usize = self.generated_tokens.len();
        let mask_len: usize = self.attention_mask.len();
        let positions: usize = self.position_ids.len();
        if !is_valid_cache(&self.past_kv) || !self.current_embeds.is_well_formed()
            || self.current_embeds.seq_len != positions || tokens > self.max_response_length {
            return false;
        }
        if self.prompt_len as u128 + self.max_response_length as u128 > i64::MAX as u128 {
            return false;
        }
        let phase_fits: bool = match self.phase {
            Phase::Step => tokens < self.max_response_length,
            Phase::Embed { token } => tokens >= 1 && self.generated_tokens[tokens - 1] == token,
            Phase::Stopped { reason } => match reason {
                StopReason::StepCap => tokens == self.max_response_length,
                StopReason::StopToken => true,
            },
        };
        if !phase_fits {
            return false;
        }
        let completed: usize = match self.phase {
            Phase::Embed { .. } => tokens - 1,
            _ => tokens,
        };
        if mask_len as u128 != self.prompt_len as u128 + completed as u128 {
            return false;
        }
        let mut i: usize = 0;
        while i < mask_len
            invariant
                i <= mask_len,
                forall|j: int| 0 <= j < i ==> self.attention_mask@[j] == 1i64,
            decreases mask_len - i,
        {
            if self.attention_mask[i] != 1 {
                return false;
            }
            i = i + 1;
        }
        if completed == 0 {
            if positions != self.prompt_len {
                return false;
            }
            let mut p: usize = 0;
            while p < positions
                invariant
                    p <= positions,
                    forall|j: int| 0 <= j < p ==> self.position_ids@[j] == j as i64,
                decreases positions - p,
            {
                if self.position_ids[p] != p as i64 {
                    assert(Seq::new(self.prompt_len as nat, |i: int| i as i64)[p as int] == p as i64);
                    return false;
                }
                p = p + 1;
            }
        } else if positions != 1 || self.position_ids[0] != (mask_len - 1) as i64 {
            return false;
        }
        let mut t: usize = 0;
        while t < tokens
            invariant
                t <= tokens,
                forall|j: int| 0 <= j < t ==> !is_stop_token(#[trigger] self.generated_tokens@[j]),
            decreases tokens - t,
        {
            if is_stop(self.generated_tokens[t]) {
                return false;
            }
            t = t + 1;
        }
        true
    }

    /// Starts a generation on the fused sequence `embeds` with a budget of
    /// `max_response_length` steps: one position id for each row, counted
    /// from zero, a mask of as many ones, an empty cache and no tokens.
    /// Fails when the positions the generation may reach cannot be counted.
    pub fn init(embeds: EmbeddingSequence<T>, max_response_length: usize) -> (r: Result<Self, FastVLMError>)
        requires
            embeds.wf(),
        ensures
            embeds.seq_len + max_response_length > i64::MAX ==> r is Err && r->Err_0
                == FastVLMError::TensorShapeMismatch,
            embeds.seq_len + max_response_length <= i64::MAX ==> r is Ok && r->Ok_0.wf() && is_empty_cache(
                r->Ok_0@.past_kv,
            ) && r->Ok_0@ == GenerationModel::initial(embeds, r->Ok_0@.past_kv, max_response_length as nat),
    {
        let seq_len: usize = embeds.seq_len;
        if seq_len as u128 + max_response_length as u128 > i64::MAX as u128 {
            return Err(FastVLMError::TensorShapeMismatch);
        }
        let mut attention_mask: Vec<i64> = Vec::new();
        let mut position_ids: Vec<i64> = Vec::new();
        let mut i: usize = 0;
        while i < seq_len
            invariant
                i <= seq_len <= i64::MAX,
                attention_mask@ =~= Seq::new(i as nat, |j: int| 1i64),
                position_ids@ =~= Seq::new(i as nat, |j: int| j as i64),
            decreases seq_len - i,
        {
            attention_mask.push(1i64);
            position_ids.push(i as i64);
            i = i + 1;
        }
        let phase = if max_response_length == 0 {
            Phase::Stopped { reason: StopReason::StepCap }
        } else {
            Phase::Step
        };
        Ok(
            GenerationState {
                current_embeds: embeds,
                attention_mask,
                position_ids,
                past_kv: empty_cache(),
                generated_tokens: Vec::new(),
                prompt_len: seq_len,
                max_response_length,
                phase,
            },
        )
    }

    /// Whether the generation has ended.
    pub fn is_stopped(&self) -> (stopped: bool)
        ensures
            stopped == (self@.phase is Stopped),
    {
        match self.phase {
            Phase::Stopped { .. } => true,
            _ => false,
        }
    }

    /// Takes the token sampled from the logits of the last decoder run, and
    /// the cache that run returned. A stop token ends the generation and is
    /// not recorded. Any other token is recorded and the returned cache
    /// replaces the old one; the machine then waits for the token's
    /// embedding. A cache that lacks a tensor, or holds one whose buffer
    /// does not fit its shape, is refused and leaves the state as it was.
    pub fn on_sampled(&mut self, token: u32, present: Vec<CacheTensor<T>>) -> (r: Result<(), FastVLMError>)
        requires
            old(self).wf(),
            old(self)@.phase is Step,
        ensures
            final(self).wf(),
            !is_stop_token(token) && !is_cache(present@) ==> r is Err && r->Err_0
                == FastVLMError::TensorShapeMismatch && final(self)@ == old(self)@,
            is_stop_token(token) || is_cache(present@) ==> r is Ok && final(self)@ == old(self)@.after_sample(
                token,
                present@,
            ),
    {
        if is_stop(token) {
            self.phase = Phase::Stopped { reason: StopReason::StopToken };
            return Ok(());
        }
        if !is_valid_cache(&present) {
            return Err(FastVLMError::TensorShapeMismatch);
        }
        self.generated_tokens.push(token);
        self.past_kv = present;
        self.phase = Phase::Embed { token };
        Ok(())
    }

    /// Takes the embedding of the token accepted last: it becomes the next
    /// decoder input, the mask grows by one entry of one, and the only
    /// position id is the sequence length before this step. The machine
    /// stops when the step budget is used up, and asks for a step otherwise.
    /// An embedding of more or less than one token, or of another width
    /// than the decoder input before it, is refused and leaves the state as
    /// it was.
    pub fn on_embedded(&mut self, embeds: EmbeddingSequence<T>) -> (r: Result<(), FastVLMError>)
        requires
            old(self).wf(),
            old(self)@.phase is Embed,
        ensures
            final(self).wf(),
            !is_token_embedding(embeds, old(self)@.current_embeds) ==> r is Err && r->Err_0
                == FastVLMError::TensorShapeMismatch && final(self)@ == old(self)@,
            is_token_embedding(embeds, old(self)@.current_embeds) ==> r is Ok && final(self)@ == old(self)@.after_embedding(embeds),
    {
        if !embeds.is_well_formed() || embeds.seq_len != 1 || embeds.hidden_dim
            != self.current_embeds.hidden_dim {
            return Err(FastVLMError::TensorShapeMismatch);
        }
        let current_seq_len: usize = self.attention_mask.len();
        self.current_embeds = embeds;
        self.attention_mask.push(1i64);
        let mut position_ids: Vec<i64> = Vec::new();
        position_ids.push(current_seq_len as i64);
        self.position_ids = position_ids;
        self.phase = if self.generated_tokens.len() >= self.max_response_length {
            Phase::Stopped { reason: StopReason::StepCap }
        } else {
            Phase::Step
        };
        Ok(())
    }
}

/// The logits to sample from, out of a row-major `[1, seq_len, vocab]`
/// tensor: those of the last position, without the reserved ids from
/// `VOCAB_CAP` on. Fails when the tensor has no position or no vocabulary,
/// or when `data` is not of that shape.
pub fn last_token_logits<T: Copy>(data: &Vec<T>, seq_len: usize, vocab: usize) -> (r: Result<Vec<T>, FastVLMError>)
    ensures
        seq_len == 0 || vocab == 0 || data@.len() != seq_len * vocab ==> r == Err::<Vec<T>, FastVLMError>(
            FastVLMError::TensorShapeMismatch,
        ),
        seq_len > 0 && vocab > 0 && data@.len() == seq_len * vocab ==> r is Ok && r->Ok_0@
            == data@.subrange(
            (seq_len - 1) * vocab,
            (seq_len - 1) * vocab + if vocab <= VOCAB_CAP { vocab as int } else { VOCAB_CAP as int },
        ),
{
    if seq_len == 0 || vocab == 0 {
        return Err(FastVLMError::TensorShapeMismatch);
    }
    let len: usize = data.len();
    let total: Option<usize> = seq_len.checked_mul(vocab);
    if total.is_none() || len != total.unwrap() {
        return Err(FastVLMError::TensorShapeMismatch);
    }
    assert((seq_len - 1) * vocab + vocab == seq_len * vocab && (seq_len - 1) * vocab >= 0)
        by (nonlinear_arith)
        requires
            seq_len >= 1,
            vocab >= 0,
    ;
    let start: usize = (seq_len - 1) * vocab;
    let count: usize = if vocab <= VOCAB_CAP { vocab } else { VOCAB_CAP };
    let mut window: Vec<T> = Vec::new();
    let mut i: usize = 0;
    while i < count
        invariant
            i <= count,
            start + count <= len == data@.len(),
            window@ =~= data@.subrange(start as int, start + i),
        decreases count - i,
    {
        window.push(data[start + i]);
        i = i + 1;
    }
    Ok(window)
}

} // verus!
