//! Competitors and the forms their agent logic arrives in. A competitor's
//! code is resolved exactly once, at the boundary — source text is handed to
//! the external compiler, a builtin reference is looked up in the external
//! catalogue and then compiled — so that the trial runner only ever sees a
//! compiled binary.

use vstd::prelude::*;

use crate::trial::HarnessError;

verus! {

/// The three forms in which one side's agent logic can arrive.
#[derive(Clone, Debug, PartialEq, Eq)]
pub enum AgentCode {
    /// Source text still to be compiled by the external toolchain.
    SourceText(String),
    /// The name of a builtin whose source the external catalogue holds.
    BuiltinReference(String),
    /// An already-compiled binary, ready to run.
    CompiledBinary(Vec<u8>),
}

/// What the driver must do next to turn one `AgentCode` into a runnable
/// binary.
#[derive(Clone, Debug, PartialEq, Eq)]
pub enum ResolveAction {
    /// Hand this source text to the external compiler.
    CompileSource(String),
    /// Look the named builtin up in the external catalogue, then accept
    /// the result with `builtin_source`.
    FetchBuiltin(String),
    /// Nothing left to do: the code is already compiled.
    UseBinary(Vec<u8>),
}

/// One competitor: a display name plus its agent logic. Once compiled it
/// is immutable and may be shared read-only across every trial it
/// participates in.
#[derive(Clone, Debug, PartialEq, Eq)]
pub struct Competitor {
    pub name: String,
    pub code: AgentCode,
}

/// A competitor is resolved once its code is in the canonical compiled
/// form that trials consume.
pub open spec fn is_resolved(c: Competitor) -> bool {
    c.code is CompiledBinary
}

/// The single resolution step for each code form: source goes to the
/// compiler, a builtin reference goes to the catalogue, a binary is done.
pub fn resolve_step(code: AgentCode) -> (action: ResolveAction)
    ensures
        match code {
            AgentCode::SourceText(src) => action == ResolveAction::CompileSource(src),
            AgentCode::BuiltinReference(name) => action == ResolveAction::FetchBuiltin(name),
            AgentCode::CompiledBinary(bin) => action == ResolveAction::UseBinary(bin),
        },
{
    match code {
        AgentCode::SourceText(src) => ResolveAction::CompileSource(src),
        AgentCode::BuiltinReference(name) => ResolveAction::FetchBuiltin(name),
        AgentCode::CompiledBinary(bin) => ResolveAction::UseBinary(bin),
    }
}

/// Accepts what the external catalogue returned for a builtin reference.
/// Only source text can be compiled into an opponent; any other form is a
/// configuration the harness must reject.
pub fn builtin_source(looked_up: AgentCode) -> (r: Result<String, HarnessError>)
    ensures
        match looked_up {
            AgentCode::SourceText(src) => r == Ok::<String, HarnessError>(src),
            _ => r == Err::<String, HarnessError>(HarnessError::InvalidConfiguration),
        },
{
    match looked_up {
        AgentCode::SourceText(src) => Ok(src),
        _ => Err(HarnessError::InvalidConfiguration),
    }
}

/// Binds a freshly compiled binary to a display name, yielding the
/// resolved competitor that every trial of a round shares.
pub fn with_binary(name: String, binary: Vec<u8>) -> (c: Competitor)
    ensures
        c.name == name,
        c.code == AgentCode::CompiledBinary(binary),
        is_resolved(c),
{
    Competitor { name, code: AgentCode::CompiledBinary(binary) }
}

} // verus!
