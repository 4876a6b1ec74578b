//! A sandbox runtime that decides which host capabilities an agent script may use,
//! under which policy, and keeps the bookkeeping of executions and requests.
use vstd::prelude::*;

pub mod capabilities;
pub mod clock;
pub mod execution_state;
pub mod mcp;
pub mod policy;
pub mod sandbox;
pub mod strmap;
pub mod text;
pub mod tools;
pub mod url;

pub use capabilities::{Capability, GrantSet, ResourceLimits};
pub use execution_state::{ExecutionRecord, ExecutionState, ExecutionStateManager};
pub use policy::Policy;
pub use sandbox::Aegis;

verus! {

/// `std::io::Error`, carried in `AegisError::Io`.
#[verifier::external_type_specification]
#[verifier::external_body]
pub struct ExIoError(std::io::Error);

/// `serde_json::Error`, carried in `AegisError::Json`.
#[verifier::external_type_specification]
#[verifier::external_body]
pub struct ExJsonError(serde_json::Error);

/// The errors of the runtime.
#[derive(Debug)]
pub enum AegisError {
    Execution(String),
    CapabilityDenied(String),
    Policy(String),
    Tool(String),
    Io(std::io::Error),
    Json(serde_json::Error),
}

} // verus!
