//! What can go wrong, and how it is told.

use vstd::prelude::*;
use vstd::string::*;

verus! {

/// A failed request.
#[derive(Debug, Clone)]
pub enum Error {
    /// Input or output failed; what the operating system said.
    Io(String),
    /// The native plugin failed; what it said.
    PluginInvoke(String),
    /// There is no session.
    SessionNotActive,
    /// There is a session already.
    SessionAlreadyActive,
    /// The session could not be set up, and why.
    SessionSetupFailed(String),
    /// The user or the system said no, and to what.
    PermissionDenied(String),
    /// Some other operation failed, and why.
    OperationFailed(String),
}

/// The result of a request.
pub type Result<T> = std::result::Result<T, Error>;

impl Error {
    /// The code that names the kind of an error.
    pub open spec fn code_text(self) -> Seq<char> {
        match self {
            Error::Io(_) => "IO_ERROR"@,
            Error::PluginInvoke(_) => "PLUGIN_INVOKE_ERROR"@,
            Error::SessionNotActive => "SESSION_NOT_ACTIVE"@,
            Error::SessionAlreadyActive => "SESSION_ALREADY_ACTIVE"@,
            Error::SessionSetupFailed(_) => "SESSION_SETUP_FAILED"@,
            Error::PermissionDenied(_) => "PERMISSION_DENIED"@,
            Error::OperationFailed(_) => "OPERATION_FAILED"@,
        }
    }

    /// The sentence that tells an error to a person.
    pub open spec fn message_text(self) -> Seq<char> {
        match self {
            Error::Io(cause) => cause@,
            Error::PluginInvoke(cause) => cause@,
            Error::SessionNotActive => "Audio session not active — call initSession first"@,
            Error::SessionAlreadyActive => "Audio session already active"@,
            Error::SessionSetupFailed(cause) => "Audio session setup failed: "@ + cause@,
            Error::PermissionDenied(cause) => "Permission denied: "@ + cause@,
            Error::OperationFailed(cause) => "Audio operation failed: "@ + cause@,
        }
    }

    /// The code that names the kind of an error.
    pub fn code(&self) -> (code: &'static str)
        ensures
            code@ == self.code_text(),
    {
        match self {
            Error::Io(_) => "IO_ERROR",
            Error::PluginInvoke(_) => "PLUGIN_INVOKE_ERROR",
            Error::SessionNotActive => "SESSION_NOT_ACTIVE",
            Error::SessionAlreadyActive => "SESSION_ALREADY_ACTIVE",
            Error::SessionSetupFailed(_) => "SESSION_SETUP_FAILED",
            Error::PermissionDenied(_) => "PERMISSION_DENIED",
            Error::OperationFailed(_) => "OPERATION_FAILED",
        }
    }

    /// The sentence that tells an error to a person.
    pub fn message(&self) -> (message: String)
        ensures
            message@ == self.message_text(),
    {
        match self {
            Error::Io(cause) => cause.clone(),
            Error::PluginInvoke(cause) => cause.clone(),
            Error::SessionNotActive => "Audio session not active — call initSession first".to_owned(),
            Error::SessionAlreadyActive => "Audio session already active".to_owned(),
            Error::SessionSetupFailed(cause) => with_cause("Audio session setup failed: ", cause),
            Error::PermissionDenied(cause) => with_cause("Permission denied: ", cause),
            Error::OperationFailed(cause) => with_cause("Audio operation failed: ", cause),
        }
    }
}

/// A lead followed by a cause.
pub(crate) fn with_cause(lead: &str, cause: &String) -> (text: String)
    ensures
        text@ == lead@ + cause@,
{
    let mut text = lead.to_owned();
    text.append(cause.as_str());
    text
}

} // verus!
