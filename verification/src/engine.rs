//! Failures of the engine that compiles and runs components.

use vstd::prelude::*;

use crate::error::{about, ErrorKind, HostError};

verus! {

/// `wasmtime::Error`, carried as it is.
#[verifier::external_type_specification]
#[verifier::external_body]
pub struct ExEngineError(wasmtime::Error);

/// What the outermost error of a `wasmtime::Error` says.
pub uninterp spec fn error_wording(error: wasmtime::Error) -> Seq<char>;

/// The `Display` of a `wasmtime::Error`: what its outermost error says, without
/// those behind it.
#[verifier::external_body]
fn error_text(error: &wasmtime::Error) -> (text: String)
    ensures
        text@ == error_wording(*error),
{
    error.to_string()
}

/// Tells what the engine was doing, and what it says of its failure.
pub fn engine_failure(context: &str, text: &str) -> (error: HostError)
    ensures
        error@ == about(ErrorKind::EngineFailure, context@ + ": "@ + text@),
{
    let mut subject: String = context.to_owned();
    subject.append(": ");
    subject.append(text);
    HostError::about(ErrorKind::EngineFailure, subject.as_str())
}

/// Turns a failure of the engine into one of the host that tells what the engine
/// was doing.
pub fn wasmtime_result<T>(result: Result<T, wasmtime::Error>, context: &str) -> (turned: Result<
    T,
    HostError,
>)
    ensures
        match (result, turned) {
            (Ok(value), Ok(kept)) => kept == value,
            (Err(cause), Err(error)) => error@ == about(
                ErrorKind::EngineFailure,
                context@ + ": "@ + error_wording(cause),
            ),
            _ => false,
        },
{
    match result {
        Ok(value) => Ok(value),
        Err(error) => Err(engine_failure(context, error_text(&error).as_str())),
    }
}

} // verus!
