//! The language models that the surrounding application may ask for.

use crate::text::same_text;
use vstd::prelude::*;

verus! {

/// Models served by a local installation.
pub const LOCAL_MODELS: [&'static str; 6] = [
    "qwen3-vl:235b-cloud",
    "deepseek-v3.1:671b-cloud",
    "deepseek-r1",
    "llava",
    "llama3.2-vision",
    "functiongemma",
];

/// Models served by a remote installation.
pub const REMOTE_MODELS: [&'static str; 10] = [
    "qwen3:14b",
    "qwen3-vl",
    "deepseek-r1:14b",
    "ministral-3:14b",
    "gemma3:12b",
    "minicpm-v:8b",
    "llava",
    "llama3.2-vision",
    "llava-llama3:latest",
    "functiongemma",
];

/// The address of the remote model server.
pub const REMOTE_SERVER: &'static str = "http://localhost:8050";

/// Where the model server is to be found: a local installation is at the
/// client's own default address, a remote one at `REMOTE_SERVER`.
pub fn server_address(is_local: bool) -> (r: Option<&'static str>)
    ensures
        match r {
            Some(address) => !is_local && address@ == REMOTE_SERVER@,
            None => is_local,
        },
{
    if is_local {
        None
    } else {
        Some(REMOTE_SERVER)
    }
}

/// Whether `model` is one of `names`.
pub open spec fn listed(names: Seq<&'static str>, model: Seq<char>) -> bool {
    exists|i: int| 0 <= i < names.len() && (#[trigger] names[i])@ == model
}

/// Whether `model` is one of `names`.
pub fn is_listed(names: &[&'static str], model: &str) -> (r: bool)
    ensures
        r == listed(names@, model@),
{
    let mut i: usize = 0;
    while i < names.len()
        invariant
            i <= names@.len(),
            forall|j: int| 0 <= j < i ==> (#[trigger] names@[j])@ != model@,
        decreases names@.len() - i,
    {
        if same_text(names[i], model) {
            return true;
        }
        i += 1;
    }
    false
}

/// Whether `model` can be asked for: from a local installation where
/// `is_local` holds, else from a remote one.
pub fn check_model(model: &str, is_local: bool) -> (r: bool)
    ensures
        r == if is_local {
            listed(LOCAL_MODELS@, model@)
        } else {
            listed(REMOTE_MODELS@, model@)
        },
{
    if is_local {
        is_listed(LOCAL_MODELS.as_slice(), model)
    } else {
        is_listed(REMOTE_MODELS.as_slice(), model)
    }
}

} // verus!
