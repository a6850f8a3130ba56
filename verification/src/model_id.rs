//! What the name of a model says about it.

use vstd::prelude::*;

use crate::text::{contains, has_text, occurs_at, starts_with, str_eq};

verus! {

/// The name under which a requested model is looked up.
pub open spec fn normalized_model(model: Seq<char>) -> Seq<char> {
    if model == "nimaproxy/auto"@ {
        "auto"@
    } else {
        model
    }
}

/// Resolves the alias of the automatic choice.
pub fn normalize_requested_model(model: &str) -> (r: &str)
    ensures
        r@ == normalized_model(model@),
{
    if str_eq(model, "nimaproxy/auto") {
        "auto"
    } else {
        model
    }
}

/// Whether the model is one of Mistral's.
pub open spec fn mistral_model(model: Seq<char>) -> bool {
    has_text(model, "mistral"@) || has_text(model, "devstral"@)
}

/// Whether the model is one of Mistral's, which need their own tool parameters.
pub fn is_mistral_model(model_id: &str) -> (r: bool)
    ensures
        r == mistral_model(model_id@),
{
    contains(model_id, "mistral") || contains(model_id, "devstral")
}

/// Whether the model is one of MiniMax's.
pub open spec fn minimax_model(model: Seq<char>) -> bool {
    occurs_at(model, "minimaxai/"@, 0)
}

/// Whether the model is one of MiniMax's, which need a hint on the format of tool calls.
pub fn is_minimax_model(model_id: &str) -> (r: bool)
    ensures
        r == minimax_model(model_id@),
{
    starts_with(model_id, "minimaxai/")
}

/// Resolving the alias twice is resolving it once.
pub proof fn law_normalized_model_is_stable(model: Seq<char>)
    ensures
        normalized_model(normalized_model(model)) == normalized_model(model),
{
    reveal_strlit("nimaproxy/auto");
    reveal_strlit("auto");
    assert("auto"@.len() != "nimaproxy/auto"@.len());
}

} // verus!
