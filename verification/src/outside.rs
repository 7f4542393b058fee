//! The outside items this library relies on. Nothing here is proved: each
//! contract states what the outside code is taken to do.

use vstd::prelude::*;

verus! {

/// `serde_json::Value`: an arbitrary JSON value, carried through unread.
#[verifier::external_type_specification]
#[verifier::external_body]
pub struct ExJsonValue(serde_json::Value);

/// `serde_json::Error`: why a text failed to parse.
#[verifier::external_type_specification]
#[verifier::external_body]
pub struct ExJsonError(serde_json::Error);

/// `candid::Principal`: the identity of an engine or of a caller.
#[verifier::external_type_specification]
#[verifier::external_body]
pub struct ExPrincipal(candid::Principal);

/// `Clone::clone` of `serde_json::Value` builds a structurally identical
/// value: the copy equals the value it was made from.
pub assume_specification[ <serde_json::Value as Clone>::clone ](v: &serde_json::Value) -> (r:
    serde_json::Value)
    ensures
        r == *v,
;

/// `Arc::clone` hands out another handle to the same shared value: what
/// the new handle points to equals what the old one does.
#[verifier::external_body]
pub(crate) fn share<T>(handle: &std::sync::Arc<T>) -> (r: std::sync::Arc<T>)
    ensures
        r == *handle,
{
    handle.clone()
}

/// The prompt that `serde_json::from_str::<anda_core::AgentArgs>` reads out
/// of an argument payload, or `None` where the payload is rejected.
pub uninterp spec fn agent_args_prompt(args: Seq<char>) -> Option<Seq<char>>;

/// Parses an argument payload with
/// `serde_json::from_str::<anda_core::AgentArgs>` and hands out the prompt.
/// The outcome depends on the payload alone: it is `Ok` with the prompt just
/// where `agent_args_prompt` is `Some` of it.
#[verifier::external_body]
pub(crate) fn parse_agent_args(args: &str) -> (r: Result<String, serde_json::Error>)
    ensures
        match r {
            Ok(prompt) => agent_args_prompt(args@) == Some(prompt@),
            Err(_) => agent_args_prompt(args@) is None,
        },
{
    match serde_json::from_str::<anda_core::AgentArgs>(args) {
        Ok(parsed) => Ok(parsed.prompt),
        Err(e) => Err(e),
    }
}

} // verus!
