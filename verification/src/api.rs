//! What the daemon answers where it cannot do what is asked.

use crate::streams::{core_audio_error_text, CoreAudioError};
use vstd::prelude::*;
use vstd::string::*;

verus! {

/// What a command ends with.
#[derive(Debug, Clone, Copy, PartialEq, Eq, Structural)]
pub enum ExitCode {
    Success,
    InvalidInput,
    DaemonCommunication,
    ApplyFailed,
    DriverUnavailable,
    MissingExternal,
    Interrupted,
}

/// An answer that says why a request failed.
#[derive(Debug, PartialEq, Eq)]
pub struct ApiError {
    pub message: String,
    pub exit_code: ExitCode,
}

/// An answer that says why a request failed, in characters.
#[verifier::ext_equal]
pub struct ErrorView {
    pub message: Seq<char>,
    pub exit_code: ExitCode,
}

impl View for ApiError {
    type V = ErrorView;

    open spec fn view(&self) -> ErrorView {
        ErrorView { message: self.message@, exit_code: self.exit_code }
    }
}

impl ApiError {
    /// An answer with this message and code.
    pub fn new(message: String, exit_code: ExitCode) -> (r: ApiError)
        ensures
            r.message == message,
            r.exit_code == exit_code,
    {
        ApiError { message, exit_code }
    }
}

/// An error that leads with what failed.
pub open spec fn led_error(lead: Seq<char>, error: Seq<char>, exit_code: ExitCode) -> ErrorView {
    ErrorView { message: lead + error, exit_code }
}

/// An error that leads with what failed.
pub fn lead_error(lead: &str, error: &str, exit_code: ExitCode) -> (r: ApiError)
    ensures
        r@ == led_error(lead@, error@, exit_code),
{
    let mut message = String::from_str(lead);
    message.append(error);
    ApiError { message, exit_code }
}

/// The answer where the audio system refuses; the number in its message, if any, is given
/// as text.
pub fn coreaudio_to_api_error(error: &CoreAudioError, score: &str) -> (r: ApiError)
    ensures
        r@ == led_error(
            "coreaudio operation failed: "@,
            core_audio_error_text(*error, score@),
            ExitCode::ApplyFailed,
        ),
{
    lead_error("coreaudio operation failed: ", error.message(score).as_str(), ExitCode::ApplyFailed)
}

} // verus!
