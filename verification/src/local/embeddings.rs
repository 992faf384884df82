//! What the in-process embedder makes a vector of.

use crate::json::opt_string;
use crate::text::{trim, trimmed};
use vstd::prelude::*;

verus! {

/// The text that is embedded: without the white space around it. Of a blank text there is
/// nothing to embed, and its vector is all zeros.
pub fn embedding_text(text: &str) -> (r: Option<String>)
    ensures
        opt_string(r) == embedded_text(text@),
{
    let t = trim(text);
    if t.as_str().is_empty() {
        None
    } else {
        Some(t)
    }
}

/// How many tokens of a text are embedded.
pub open spec fn tokens_kept(tokens: int, n_batch: int) -> int {
    let cap = if n_batch == 0 {
        1
    } else {
        n_batch
    };
    if tokens > cap {
        cap
    } else {
        tokens
    }
}

/// The text that is embedded.
pub open spec fn embedded_text(text: Seq<char>) -> Option<Seq<char>> {
    if trimmed(text).len() == 0 {
        None
    } else {
        Some(trimmed(text))
    }
}

/// How many tokens of a text are embedded. They go to the engine in one batch, which ends
/// the process where it is too long, so that a longer text is cut.
pub fn kept_tokens(tokens: usize, n_batch: u32) -> (r: usize)
    ensures
        r == tokens_kept(tokens as int, n_batch as int),
{
    let cap: usize = if n_batch == 0 {
        1
    } else {
        n_batch as usize
    };
    if tokens > cap {
        cap
    } else {
        tokens
    }
}

/// The length of a model's vectors. A model that tells a negative one has none.
pub fn vector_len(n_embd: i32) -> (r: usize)
    ensures
        r == (if n_embd < 0 {
            0
        } else {
            n_embd as int
        }),
{
    if n_embd < 0 {
        0
    } else {
        n_embd as usize
    }
}

/// A text is embedded without the white space around it, a blank one not at all, and as many of
/// its tokens as one batch takes.
pub proof fn texts_are_embedded_in_one_batch(text: Seq<char>, tokens: int, n_batch: int)
    requires
        0 <= tokens,
        0 < n_batch,
    ensures
        trimmed(text).len() > 0 ==> embedded_text(text) == Some(trimmed(text)),
        trimmed(text).len() == 0 ==> embedded_text(text) is None,
        tokens <= n_batch ==> tokens_kept(tokens, n_batch) == tokens,
        tokens > n_batch ==> tokens_kept(tokens, n_batch) == n_batch,
        tokens_kept(tokens, 0) <= 1,
{
}

} // verus!
