//! The text side of a request: the chat template, the ids of the prompt
//! and the text of the answer. The tokenizer is the caller's; what it
//! returns is taken from there.

use vstd::prelude::*;
use vstd::string::*;
use crate::error::FastVLMError;
use crate::fusion::{image_token_position, placeholder_index};

verus! {

/// The answer reported when no token was generated.
pub const EMPTY_RESPONSE: &'static str = "No response generated.";

/// What the template puts before the user's text: the system turn and the
/// opening of the user turn with its one image placeholder.
pub const CHAT_PREFIX: &'static str =
    "<|im_start|>system\nYou are a helpful vision assistant that describes images accurately.<|im_end|>\n<|im_start|>user\n<image>\n";

/// What the template puts after the user's text: the end of the user turn
/// and the opening of the assistant turn.
pub const CHAT_SUFFIX: &'static str = "<|im_end|>\n<|im_start|>assistant\n";

/// Wraps the user's text in the chat template.
pub fn format_chat_template(text: &str) -> (prompt: String)
    ensures
        prompt@ == CHAT_PREFIX@ + text@ + CHAT_SUFFIX@,
{
    let mut prompt: String = String::from_str(CHAT_PREFIX);
    prompt.append(text);
    prompt.append(CHAT_SUFFIX);
    prompt
}

/// Whether `c` is white space: a character with the Unicode property
/// `White_Space`.
pub open spec fn is_white_space(c: char) -> bool {
    let u = c as u32;
    (0x09 <= u <= 0x0D) || u == 0x20 || u == 0x85 || u == 0xA0 || u == 0x1680 || (0x2000 <= u <= 0x200A)
        || u == 0x2028 || u == 0x2029 || u == 0x202F || u == 0x205F || u == 0x3000
}

/// Whether `c` is white space.
pub fn is_whitespace(c: char) -> (r: bool)
    ensures
        r == is_white_space(c),
{
    let u: u32 = c as u32;
    (0x09 <= u && u <= 0x0D) || u == 0x20 || u == 0x85 || u == 0xA0 || u == 0x1680 || (0x2000 <= u && u
        <= 0x200A) || u == 0x2028 || u == 0x2029 || u == 0x202F || u == 0x205F || u == 0x3000
}

/// Index of the first character from `from` on that is not white space, or
/// the length of `s` where all are.
pub open spec fn content_start(s: Seq<char>, from: int) -> int
    decreases s.len() - from,
{
    if from >= s.len() {
        s.len() as int
    } else if !is_white_space(s[from]) {
        from
    } else {
        content_start(s, from + 1)
    }
}

/// Index after the last character before `to` that is not white space,
/// never less than `start`.
pub open spec fn content_end(s: Seq<char>, start: int, to: int) -> int
    decreases to - start,
{
    if to <= start {
        start
    } else if !is_white_space(s[to - 1]) {
        to
    } else {
        content_end(s, start, to - 1)
    }
}

/// `s` without the white space at its two ends.
pub open spec fn trimmed(s: Seq<char>) -> Seq<char> {
    s.subrange(content_start(s, 0), content_end(s, content_start(s, 0), s.len() as int))
}

proof fn lemma_content_start(s: Seq<char>, from: int)
    requires
        0 <= from <= s.len(),
    ensures
        from <= content_start(s, from) <= s.len(),
        content_start(s, from) < s.len() ==> !is_white_space(s[content_start(s, from)]),
        forall|i: int| from <= i < content_start(s, from) ==> is_white_space(s[i]),
    decreases s.len() - from,
{
    if from < s.len() && is_white_space(s[from]) {
        lemma_content_start(s, from + 1);
    }
}

proof fn lemma_content_end(s: Seq<char>, start: int, to: int)
    requires
        0 <= start <= to <= s.len(),
    ensures
        start <= content_end(s, start, to) <= to,
        content_end(s, start, to) > start ==> !is_white_space(s[content_end(s, start, to) - 1]),
        forall|i: int| content_end(s, start, to) <= i < to ==> is_white_space(s[i]),
    decreases to - start,
{
    if to > start && is_white_space(s[to - 1]) {
        lemma_content_end(s, start, to - 1);
    }
}

/// Trimming takes white space away and nothing else: what is left neither
/// begins nor ends with white space, and `s` is what is left with white
/// space before and after it.
pub proof fn lemma_trimmed(s: Seq<char>)
    ensures
        trimmed(s).len() > 0 ==> !is_white_space(trimmed(s).first()) && !is_white_space(trimmed(s).last()),
        exists|a: int, b: int|
            0 <= a <= b <= s.len() && trimmed(s) == s.subrange(a, b) && (forall|i: int|
                0 <= i < a ==> is_white_space(s[i])) && (forall|i: int| b <= i < s.len() ==> is_white_space(s[i])),
{
    let a = content_start(s, 0);
    lemma_content_start(s, 0);
    let b = content_end(s, a, s.len() as int);
    lemma_content_end(s, a, s.len() as int);
    assert(0 <= a <= b <= s.len() && trimmed(s) == s.subrange(a, b) && (forall|i: int|
        0 <= i < a ==> is_white_space(s[i])) && (forall|i: int| b <= i < s.len() ==> is_white_space(s[i])));
}

/// Trimming twice is trimming once.
pub proof fn lemma_trimmed_idempotent(s: Seq<char>)
    ensures
        trimmed(trimmed(s)) == trimmed(s),
{
    let t = trimmed(s);
    lemma_trimmed(s);
    lemma_content_start(t, 0);
    if t.len() > 0 {
        lemma_content_end(t, 0, t.len() as int);
    }
}

/// Removes the white space at both ends of `text`.
pub fn trim(text: &str) -> (r: String)
    ensures
        r@ == trimmed(text@),
{
    let len: usize = text.unicode_len();
    let mut start: usize = 0;
    while start < len && is_whitespace(text.get_char(start))
        invariant
            start <= len == text@.len(),
            content_start(text@, 0) == content_start(text@, start as int),
        decreases len - start,
    {
        start = start + 1;
    }
    let mut end: usize = len;
    while end > start && is_whitespace(text.get_char(end - 1))
        invariant
            start <= end <= len == text@.len(),
            content_end(text@, start as int, len as int) == content_end(text@, start as int, end as int),
        decreases end - start,
    {
        end = end - 1;
    }
    text.substring_char(start, end).to_owned()
}

/// The token ids of a prompt and the position at which the image goes.
#[derive(Debug, Clone)]
pub struct PromptTokens {
    pub input_ids: Vec<i64>,
    pub image_token_position: usize,
}

/// The ids as the embedding table takes them.
pub open spec fn widened(ids: Seq<u32>) -> Seq<i64> {
    Seq::new(ids.len(), |i: int| ids[i] as i64)
}

/// Takes what the tokenizer made of the formatted prompt: `None` where it
/// refused the text, the ids otherwise. The ids are widened for the
/// embedding table and the position of the image is found.
pub fn prompt_tokens(encoded: Option<Vec<u32>>) -> (r: Result<PromptTokens, FastVLMError>)
    ensures
        encoded is None ==> r is Err && r->Err_0 == FastVLMError::Tokenization,
        encoded is Some ==> r is Ok && r->Ok_0.input_ids@ == widened(encoded->Some_0@)
            && r->Ok_0.image_token_position == placeholder_index(r->Ok_0.input_ids@)
            && r->Ok_0.image_token_position <= r->Ok_0.input_ids@.len(),
{
    let ids: Vec<u32> = match encoded {
        Some(ids) => ids,
        None => {
            return Err(FastVLMError::Tokenization);
        },
    };
    let len: usize = ids.len();
    let mut input_ids: Vec<i64> = Vec::new();
    let mut i: usize = 0;
    while i < len
        invariant
            i <= len == ids@.len(),
            input_ids@ =~= widened(ids@).subrange(0, i as int),
        decreases len - i,
    {
        input_ids.push(ids[i] as i64);
        i = i + 1;
    }
    assert(input_ids@ =~= widened(ids@));
    let image_token_position: usize = image_token_position(&input_ids);
    Ok(PromptTokens { input_ids, image_token_position })
}

/// Whether the tokenizer has to be asked for the answer: not where no token
/// was generated.
pub fn needs_decoding(generated_tokens: &Vec<u32>) -> (needed: bool)
    ensures
        needed == (generated_tokens@.len() > 0),
{
    generated_tokens.len() > 0
}

/// Turns the generated tokens into the answer. Without tokens the answer
/// is `EMPTY_RESPONSE`, whatever `decoded` is. Otherwise `decoded` is what
/// the tokenizer made of the tokens: `None` where it refused them, and else
/// the text, of which the answer is what is left without the white space at
/// its ends.
pub fn response_text(generated_tokens: &Vec<u32>, decoded: Option<&str>) -> (r: Result<String, FastVLMError>)
    ensures
        generated_tokens@.len() == 0 ==> r is Ok && r->Ok_0@ == EMPTY_RESPONSE@,
        generated_tokens@.len() > 0 && decoded is None ==> r is Err && r->Err_0 == FastVLMError::Tokenization,
        generated_tokens@.len() > 0 && decoded is Some ==> r is Ok && r->Ok_0@ == trimmed(decoded->Some_0@),
{
    if generated_tokens.len() == 0 {
        return Ok(String::from_str(EMPTY_RESPONSE));
    }
    match decoded {
        Some(text) => Ok(trim(text)),
        None => Err(FastVLMError::Tokenization),
    }
}

} // verus!
