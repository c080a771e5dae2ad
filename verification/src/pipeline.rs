//! The end-to-end pipeline for one command: policy gate, then seal into an
//! envelope, then open and verify the envelope, then dispatch to the agent
//! batch. A rejected command is never encrypted; a sealed command reaches the
//! dispatcher exactly as submitted, because decoding inverts encoding.

use vstd::prelude::*;
use vstd::utf8::encode_utf8;

use crate::agents::{dispatch_spec, orchestrate, AgentImpl, DispatchError};
use crate::encryption::{
    decrypt_command_with_integrity, encrypt_command_with_integrity, lemma_round_trip,
    sealed_envelope, IntegrityError, KEY_LEN, PLAINTEXT_MAX,
};
use crate::ethics::{check_spec, EthicalGuard, PolicyViolation};
use crate::res_view;

verus! {

/// Why the pipeline failed a command.
#[derive(Debug, Clone, Copy, PartialEq, Eq, Structural)]
pub enum PipelineError {
    /// The policy gate rejected the command; nothing was encrypted.
    Policy(PolicyViolation),
    /// The envelope failed to decode.
    Integrity(IntegrityError),
    /// The dispatcher failed the batch.
    Dispatch(DispatchError),
}

/// The outcome of the pipeline on a command: the policy decision comes
/// first, and an approved command reaches the dispatcher unchanged — the
/// envelope layer drops out of the outcome because decoding inverts encoding.
pub open spec fn pipeline_spec(
    constraints: Seq<Seq<char>>,
    agents: Seq<AgentImpl>,
    cmd: Seq<char>,
) -> Result<Seq<char>, PipelineError> {
    match check_spec(constraints, cmd) {
        Err(v) => Err(PipelineError::Policy(v)),
        Ok(_) => match dispatch_spec(agents, cmd) {
            Err(d) => Err(PipelineError::Dispatch(d)),
            Ok(s) => Ok(s),
        },
    }
}

/// Run one command through the whole pipeline: gate, seal, open, dispatch.
pub fn process_command(
    guard: &EthicalGuard,
    agents: &Vec<AgentImpl>,
    cmd: &str,
    key: &[u8],
) -> (r: Result<String, PipelineError>)
    requires
        key@.len() == KEY_LEN,
        encode_utf8(cmd@).len() <= PLAINTEXT_MAX,
    ensures
        res_view(r) == pipeline_spec(guard.constraints_view(), agents@, cmd@),
{
    if let Err(v) = guard.check_command(cmd) {
        return Err(PipelineError::Policy(v));
    }
    let envelope = encrypt_command_with_integrity(cmd, key);
    proof {
        let nonce = choose|n: Seq<u8>| sealed_envelope(key@, n, encode_utf8(cmd@), envelope@);
        lemma_round_trip(key@, nonce, cmd@, envelope@);
    }
    let decoded = match decrypt_command_with_integrity(envelope.as_slice(), key) {
        Ok(s) => s,
        Err(e) => {
            proof {
                assert(false);
            }
            return Err(PipelineError::Integrity(e));
        },
    };
    match orchestrate(agents, decoded.as_str()) {
        Ok(s) => Ok(s),
        Err(d) => Err(PipelineError::Dispatch(d)),
    }
}

} // verus!
