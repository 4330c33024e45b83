//! Settling an invoke: which calls a procedure set takes, how a raw body is
//! refused, and how a dispatched call's result becomes the invoke's
//! resolution or rejection.

use vstd::prelude::*;
use crate::routing::Procedures;
use crate::text::{concat2, concat3, owned};
use crate::validate::{ValidationError, validation_error_text};

verus! {

/// A dispatched call's wire response: the value to resolve the invoke with,
/// or (when the procedure returned `Err`) the serialized error to reject it
/// with. Distinct from `DispatchError`, the layer's own wire-level failure.
pub enum Outcome {
    /// Resolve with this value (the procedure returned `Ok`, or a plain value).
    Resolve(serde_json::Value),
    /// Reject with this serialized error (the procedure returned `Err`).
    Reject(serde_json::Value),
}

/// Why a call could not reach or leave the procedure. Wire-level failures
/// only: a procedure's own failures belong in its return type.
pub enum DispatchError {
    /// No procedure with the requested name exists in this set.
    UnknownProcedure(String),
    /// The arguments failed to deserialize into the parameter types.
    Deserialize(serde_json::Error),
    /// The procedure's return value failed to serialize.
    Serialize(serde_json::Error),
    /// The invoke arrived with a raw byte body; procedures take JSON named
    /// arguments.
    RawBody,
    /// A parameter is injected by type, but the call offered no value of it.
    MissingInjection(&'static str),
    /// A `State<T>` parameter was requested, but no value of that type is
    /// managed.
    MissingState(&'static str),
    /// A `Channel<T>` parameter was requested, but the dispatch carried no
    /// channel factory.
    MissingChannel(&'static str),
    /// The payload failed validation against the command's schema.
    Invalid(ValidationError),
}

/// The display text of a `serde_json::Error` (its `Display`). What serde
/// says is not stated here.
#[verifier::external_body]
fn json_error_text(error: &serde_json::Error) -> String {
    error.to_string()
}

/// Whether `m` is the display text of `e`. For the two serde failures it is
/// the fixed prefix followed by serde's own text, which is not stated.
pub open spec fn dispatch_text_fits(e: DispatchError, m: Seq<char>) -> bool {
    match e {
        DispatchError::UnknownProcedure(p) => m == "unknown procedure: "@ + p@,
        DispatchError::Deserialize(_) => exists|t: Seq<char>| m == "invalid arguments: "@ + t,
        DispatchError::Serialize(_) => exists|t: Seq<char>| m == "response serialization failed: "@ + t,
        DispatchError::RawBody => m == "procedures take JSON arguments, not a raw body"@,
        DispatchError::MissingInjection(t) => m == "missing injectable value: "@ + t@,
        DispatchError::MissingState(t) => m == "state not managed: "@ + t@
            + " -- did the app call `.manage()` for it?"@,
        DispatchError::MissingChannel(t) => m == "no channel factory: "@ + t@,
        DispatchError::Invalid(v) => m == validation_error_text(v),
    }
}

impl DispatchError {
    /// The display text of this failure, which is what a rejected invoke
    /// carries.
    pub fn message(&self) -> (m: String)
        ensures
            dispatch_text_fits(*self, m@),
    {
        match self {
            DispatchError::UnknownProcedure(p) => concat2("unknown procedure: ", p.as_str()),
            DispatchError::Deserialize(e) => {
                let t = json_error_text(e);
                concat2("invalid arguments: ", t.as_str())
            },
            DispatchError::Serialize(e) => {
                let t = json_error_text(e);
                concat2("response serialization failed: ", t.as_str())
            },
            DispatchError::RawBody => owned("procedures take JSON arguments, not a raw body"),
            DispatchError::MissingInjection(t) => concat2("missing injectable value: ", t),
            DispatchError::MissingState(t) => concat3(
                "state not managed: ",
                t,
                " -- did the app call `.manage()` for it?",
            ),
            DispatchError::MissingChannel(t) => concat2("no channel factory: ", t),
            DispatchError::Invalid(v) => v.to_message(),
        }
    }
}

/// How an invoke is settled.
pub enum Settlement {
    /// Resolve the invoke with this value.
    Resolve(serde_json::Value),
    /// Reject the invoke with this value (a procedure's typed error).
    Reject(serde_json::Value),
    /// Reject the invoke with this text (a wire-level failure).
    RejectText(String),
}

/// Resolves or rejects an invoke from a dispatched call's result: a resolved
/// outcome resolves, a procedure's typed `Err` rejects with the serialized
/// error as-is, and a wire-level failure rejects with its display text.
pub fn settle(result: Result<Outcome, DispatchError>) -> (s: Settlement)
    ensures
        match result {
            Ok(Outcome::Resolve(v)) => s == Settlement::Resolve(v),
            Ok(Outcome::Reject(v)) => s == Settlement::Reject(v),
            Err(e) => s matches Settlement::RejectText(m) && dispatch_text_fits(e, m@),
        },
{
    match result {
        Ok(Outcome::Resolve(v)) => Settlement::Resolve(v),
        Ok(Outcome::Reject(v)) => Settlement::Reject(v),
        Err(e) => Settlement::RejectText(e.message()),
    }
}

/// What the handler does with one invoke.
#[derive(PartialEq, Eq, Structural, Clone, Copy, Debug)]
pub enum InvokeStep {
    /// The command is not in the set: hand the invoke to the fallback.
    Fallback,
    /// The command is in the set but arrived with a raw body: reject it with
    /// `DispatchError::RawBody`.
    RejectRawBody,
    /// Dispatch the JSON arguments to the set.
    Dispatch,
}

/// The handler's first decision on an invoke: commands outside the set fall
/// through (so tauri answers `Command {name} not found` exactly as for a raw
/// command); a procedure invoked with a raw body is refused; anything else is
/// dispatched.
pub fn invoke_step<D>(procedures: &Procedures<D>, command: &str, json_body: bool) -> (s: InvokeStep)
    ensures
        !procedures.defines(command@) ==> s == InvokeStep::Fallback,
        procedures.defines(command@) && !json_body ==> s == InvokeStep::RejectRawBody,
        procedures.defines(command@) && json_body ==> s == InvokeStep::Dispatch,
{
    if !procedures.contains(command) {
        InvokeStep::Fallback
    } else if !json_body {
        InvokeStep::RejectRawBody
    } else {
        InvokeStep::Dispatch
    }
}

} // verus!
