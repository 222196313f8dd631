//! Client-side core of a remote function-execution protocol.
//!
//! The library contains the verified logic of an RPC client for a managed
//! function-execution platform: the invocation state machine that drives a
//! submit / enqueue / poll / fetch exchange with a remote control plane, the
//! deterministic schema-driven encoding of class parameters, and the
//! resolution of method names to bound function identifiers.  All network
//! traffic is performed by a thin unverified shell that feeds transport
//! responses back into the state machine as plain values.

pub mod assoc;
pub mod cls;
pub mod config;
pub mod engine;
pub mod params;
pub mod wire;

pub use cls::Cls;
pub use cls::ClsInstance;
pub use cls::InstancePlan;
pub use engine::EngineAction;
pub use engine::EngineEvent;
pub use engine::EngineState;
pub use engine::InvocationError;
pub use engine::ResultEnvelope;
pub use engine::invoke;
pub use params::BindError;
pub use params::ParamDecl;
pub use params::ParamKind;
pub use params::ParamMap;
pub use params::ParamValue;
pub use params::encode_parameter_set;
