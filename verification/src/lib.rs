//! A command pipeline with a verified core: a policy gate that screens
//! free-text commands, an envelope codec that seals an approved command in an
//! authenticated, integrity-checked byte packet, and a dispatcher that runs a
//! batch of agents against one command and aggregates their results with
//! fail-fast semantics.

use vstd::prelude::*;

pub mod agents;
pub mod encryption;
pub mod ethics;
pub mod integrity;
pub mod pipeline;

verus! {

/// The abstract value of an executable `Result<String, E>`: the same outcome
/// with the success payload replaced by its character sequence.
pub open spec fn res_view<E>(r: Result<String, E>) -> Result<Seq<char>, E> {
    match r {
        Ok(s) => Ok(s@),
        Err(e) => Err(e),
    }
}

} // verus!
