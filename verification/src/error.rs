//! The errors that the core reports, and the shape in which they are
//! handed to a front end.

use vstd::prelude::*;
use vstd::string::to_string_from_display_ensures;

use crate::clock::{now_rfc3339, Timestamp};

verus! {

#[verifier::external_type_specification]
#[verifier::external_body]
pub struct ExIoError(std::io::Error);

/// The text that `Debug` formatting gives for a string: the string in
/// double quotes, with the characters escaped that `str`'s `Debug` escapes.
pub uninterp spec fn debug_quoted(s: Seq<char>) -> Seq<char>;

/// Formats `s` with `str`'s `Debug` implementation. Trusted to return
/// [`debug_quoted`].
#[verifier::external_body]
fn quote(s: &str) -> (r: String)
    ensures
        r@ == debug_quoted(s@),
{
    format!("{:?}", s)
}

/// Formats `e` with `std::io::Error`'s `Debug` implementation. The text
/// depends on the platform, so nothing is claimed of it.
#[verifier::external_body]
fn io_debug(e: &std::io::Error) -> String {
    format!("{:?}", e)
}

/// Errors of the scanning core.
#[derive(Debug)]
pub enum VeloxError {
    Io(std::io::Error),
    ScanCancelled,
    InvalidPath(String),
    AccessDenied(String),
    ScanInProgress(String),
    NoActiveScan(String),
    Serialization(String),
    StateLock(String),
    Unknown(String),
}

impl VeloxError {
    /// The text that the error carries; empty for the variants without one.
    pub open spec fn detail(self) -> Seq<char> {
        match self {
            VeloxError::Io(_) => Seq::empty(),
            VeloxError::ScanCancelled => Seq::empty(),
            VeloxError::InvalidPath(s) => s@,
            VeloxError::AccessDenied(s) => s@,
            VeloxError::ScanInProgress(s) => s@,
            VeloxError::NoActiveScan(s) => s@,
            VeloxError::Serialization(s) => s@,
            VeloxError::StateLock(s) => s@,
            VeloxError::Unknown(s) => s@,
        }
    }

    /// The machine-readable code of the error.
    pub open spec fn code(self) -> Seq<char> {
        match self {
            VeloxError::Io(_) => "IO_ERROR"@,
            VeloxError::ScanCancelled => "SCAN_CANCELLED"@,
            VeloxError::InvalidPath(_) => "INVALID_PATH"@,
            VeloxError::AccessDenied(_) => "ACCESS_DENIED"@,
            VeloxError::ScanInProgress(_) => "SCAN_IN_PROGRESS"@,
            VeloxError::NoActiveScan(_) => "NO_ACTIVE_SCAN"@,
            VeloxError::Serialization(_) => "SERIALIZATION_ERROR"@,
            VeloxError::StateLock(_) => "STATE_LOCK_ERROR"@,
            VeloxError::Unknown(_) => "UNKNOWN_ERROR"@,
        }
    }

    /// What precedes the carried text in the error's own message.
    pub open spec fn display_prefix(self) -> Seq<char> {
        match self {
            VeloxError::Io(_) => "IO Error: "@,
            VeloxError::ScanCancelled => "Scan operation cancelled by user"@,
            VeloxError::InvalidPath(_) => "Invalid path: "@,
            VeloxError::AccessDenied(_) => "Access denied: "@,
            VeloxError::ScanInProgress(_) => "Scan already in progress for session: "@,
            VeloxError::NoActiveScan(_) => "No active scan found for session: "@,
            VeloxError::Serialization(_) => "Serialization error: "@,
            VeloxError::StateLock(_) => "State lock error: "@,
            VeloxError::Unknown(_) => "Unknown error: "@,
        }
    }

    /// The error's own message, for every variant but `Io`.
    pub open spec fn display_text(self) -> Seq<char> {
        self.display_prefix() + self.detail()
    }

    /// What precedes the carried text in the message of a response.
    pub open spec fn response_prefix(self) -> Seq<char> {
        match self {
            VeloxError::Io(_) => Seq::empty(),
            VeloxError::ScanCancelled => "Scan operation cancelled by user"@,
            VeloxError::InvalidPath(_) => "Invalid path: "@,
            VeloxError::AccessDenied(_) => "Access denied: "@,
            VeloxError::ScanInProgress(_) => "Scan already running: "@,
            VeloxError::NoActiveScan(_) => "No scan found: "@,
            VeloxError::Serialization(_) => Seq::empty(),
            VeloxError::StateLock(_) => Seq::empty(),
            VeloxError::Unknown(_) => Seq::empty(),
        }
    }

    /// The message of the response made from the error, for every variant
    /// but `Io`.
    pub open spec fn response_message(self) -> Seq<char> {
        self.response_prefix() + self.detail()
    }

    /// The name of the variant.
    pub open spec fn variant_name(self) -> Seq<char> {
        match self {
            VeloxError::Io(_) => "Io"@,
            VeloxError::ScanCancelled => "ScanCancelled"@,
            VeloxError::InvalidPath(_) => "InvalidPath"@,
            VeloxError::AccessDenied(_) => "AccessDenied"@,
            VeloxError::ScanInProgress(_) => "ScanInProgress"@,
            VeloxError::NoActiveScan(_) => "NoActiveScan"@,
            VeloxError::Serialization(_) => "Serialization"@,
            VeloxError::StateLock(_) => "StateLock"@,
            VeloxError::Unknown(_) => "Unknown"@,
        }
    }

    /// The developer-facing text of the error, for every variant but `Io`:
    /// the variant's name, followed for a variant that carries a text by
    /// that text, quoted, in parentheses.
    pub open spec fn debug_text(self) -> Seq<char> {
        if self is ScanCancelled {
            self.variant_name()
        } else {
            self.variant_name() + "("@ + debug_quoted(self.detail()) + ")"@
        }
    }

    /// The text that the error carries, if it carries one.
    fn carried(&self) -> (r: Option<&String>)
        ensures
            r is None <==> (self is Io || self is ScanCancelled),
            r matches Some(s) ==> s@ == self.detail(),
    {
        match self {
            VeloxError::Io(_) => None,
            VeloxError::ScanCancelled => None,
            VeloxError::InvalidPath(s) => Some(s),
            VeloxError::AccessDenied(s) => Some(s),
            VeloxError::ScanInProgress(s) => Some(s),
            VeloxError::NoActiveScan(s) => Some(s),
            VeloxError::Serialization(s) => Some(s),
            VeloxError::StateLock(s) => Some(s),
            VeloxError::Unknown(s) => Some(s),
        }
    }

    /// The error's own message. For `Io` it is `"IO Error: "` followed by
    /// the message of the underlying error.
    pub fn to_string(&self) -> (r: String)
        ensures
            !(self is Io) ==> r@ == self.display_text(),
            self matches VeloxError::Io(e) ==> exists|t: String|
                to_string_from_display_ensures::<std::io::Error>(&e, t) && r@
                    == self.display_prefix() + t@,
    {
        let prefix = match self {
            VeloxError::Io(_) => "IO Error: ",
            VeloxError::ScanCancelled => "Scan operation cancelled by user",
            VeloxError::InvalidPath(_) => "Invalid path: ",
            VeloxError::AccessDenied(_) => "Access denied: ",
            VeloxError::ScanInProgress(_) => "Scan already in progress for session: ",
            VeloxError::NoActiveScan(_) => "No active scan found for session: ",
            VeloxError::Serialization(_) => "Serialization error: ",
            VeloxError::StateLock(_) => "State lock error: ",
            VeloxError::Unknown(_) => "Unknown error: ",
        };
        let mut r = String::from_str(prefix);
        match self {
            VeloxError::Io(e) => {
                let t = e.to_string();
                r.append(t.as_str());
            },
            _ => {
                match self.carried() {
                    Some(s) => {
                        r.append(s.as_str());
                    },
                    None => {
                        assert(r@ + Seq::<char>::empty() =~= r@);
                    },
                }
            },
        }
        r
    }

    /// The code under which a front end knows the error.
    pub fn code_string(&self) -> (r: String)
        ensures
            r@ == self.code(),
    {
        match self {
            VeloxError::Io(_) => String::from_str("IO_ERROR"),
            VeloxError::ScanCancelled => String::from_str("SCAN_CANCELLED"),
            VeloxError::InvalidPath(_) => String::from_str("INVALID_PATH"),
            VeloxError::AccessDenied(_) => String::from_str("ACCESS_DENIED"),
            VeloxError::ScanInProgress(_) => String::from_str("SCAN_IN_PROGRESS"),
            VeloxError::NoActiveScan(_) => String::from_str("NO_ACTIVE_SCAN"),
            VeloxError::Serialization(_) => String::from_str("SERIALIZATION_ERROR"),
            VeloxError::StateLock(_) => String::from_str("STATE_LOCK_ERROR"),
            VeloxError::Unknown(_) => String::from_str("UNKNOWN_ERROR"),
        }
    }

    /// The developer-facing text of the error. For `Io` it is that of the
    /// underlying error in `Io(..)`, of which nothing more is known.
    pub fn debug_string(&self) -> (r: String)
        ensures
            !(self is Io) ==> r@ == self.debug_text(),
            self is Io ==> exists|inner: Seq<char>| r@ == "Io"@ + "("@ + inner + ")"@,
    {
        let mut r = match self {
            VeloxError::Io(_) => String::from_str("Io"),
            VeloxError::ScanCancelled => String::from_str("ScanCancelled"),
            VeloxError::InvalidPath(_) => String::from_str("InvalidPath"),
            VeloxError::AccessDenied(_) => String::from_str("AccessDenied"),
            VeloxError::ScanInProgress(_) => String::from_str("ScanInProgress"),
            VeloxError::NoActiveScan(_) => String::from_str("NoActiveScan"),
            VeloxError::Serialization(_) => String::from_str("Serialization"),
            VeloxError::StateLock(_) => String::from_str("StateLock"),
            VeloxError::Unknown(_) => String::from_str("Unknown"),
        };
        match self {
            VeloxError::Io(e) => {
                let inner = io_debug(e);
                r.append("(");
                r.append(inner.as_str());
                r.append(")");
            },
            _ => {
                match self.carried() {
                    Some(s) => {
                        let quoted = quote(s.as_str());
                        r.append("(");
                        r.append(quoted.as_str());
                        r.append(")");
                    },
                    None => {},
                }
            },
        }
        r
    }
}

impl Clone for VeloxError {
    /// A copy of the error. The underlying error of `Io` cannot be copied:
    /// such an error becomes `Unknown` with the underlying error's message.
    fn clone(&self) -> (r: Self)
        ensures
            !(self is Io) ==> r == *self,
            self matches VeloxError::Io(e) ==> r matches VeloxError::Unknown(t)
                && to_string_from_display_ensures::<std::io::Error>(&e, t),
    {
        match self {
            VeloxError::Io(e) => VeloxError::Unknown(e.to_string()),
            VeloxError::ScanCancelled => VeloxError::ScanCancelled,
            VeloxError::InvalidPath(p) => VeloxError::InvalidPath(p.clone()),
            VeloxError::AccessDenied(p) => VeloxError::AccessDenied(p.clone()),
            VeloxError::ScanInProgress(s) => VeloxError::ScanInProgress(s.clone()),
            VeloxError::NoActiveScan(s) => VeloxError::NoActiveScan(s.clone()),
            VeloxError::Serialization(e) => VeloxError::Serialization(e.clone()),
            VeloxError::StateLock(e) => VeloxError::StateLock(e.clone()),
            VeloxError::Unknown(e) => VeloxError::Unknown(e.clone()),
        }
    }
}

impl From<std::io::Error> for VeloxError {
    fn from(e: std::io::Error) -> (r: Self) {
        VeloxError::Io(e)
    }
}

impl vstd::std_specs::convert::FromSpecImpl<std::io::Error> for VeloxError {
    open spec fn obeys_from_spec() -> bool {
        true
    }

    open spec fn from_spec(e: std::io::Error) -> Self {
        VeloxError::Io(e)
    }
}

/// An error in the shape that a front end consumes.
#[derive(Debug, Clone)]
pub struct ErrorResponse {
    pub code: String,
    pub message: String,
    pub details: Option<String>,
    pub timestamp: String,
}

impl From<VeloxError> for ErrorResponse {
    /// The response for `error`: its code, the message for the front end,
    /// the developer-facing text as details, and the time of the
    /// conversion.
    ///
    /// Panics if the system clock is set before 1970.
    fn from(error: VeloxError) -> (r: Self)
        ensures
            r.code@ == error.code(),
            !(error is Io) ==> r.message@ == error.response_message(),
            error matches VeloxError::Io(e) ==> to_string_from_display_ensures::<std::io::Error>(
                &e,
                r.message,
            ),
            r.details is Some,
            !(error is Io) ==> r.details->0@ == error.debug_text(),
            error is Io ==> exists|inner: Seq<char>| r.details->0@ == "Io"@ + "("@ + inner + ")"@,
            exists|t: Timestamp| t.text() == Some(r.timestamp@),
    {
        let code = error.code_string();
        let message = match &error {
            VeloxError::Io(e) => e.to_string(),
            VeloxError::ScanCancelled => error.to_string(),
            VeloxError::InvalidPath(p) => String::from_str("Invalid path: ").concat(p.as_str()),
            VeloxError::AccessDenied(p) => String::from_str("Access denied: ").concat(p.as_str()),
            VeloxError::ScanInProgress(s) => String::from_str("Scan already running: ").concat(
                s.as_str(),
            ),
            VeloxError::NoActiveScan(s) => String::from_str("No scan found: ").concat(s.as_str()),
            VeloxError::Serialization(e) => e.clone(),
            VeloxError::StateLock(e) => e.clone(),
            VeloxError::Unknown(e) => e.clone(),
        };
        proof {
            assert(Seq::<char>::empty() + error.detail() =~= error.detail());
            assert(error.display_prefix() + Seq::<char>::empty() =~= error.display_prefix());
        }
        let details = Some(error.debug_string());
        ErrorResponse { code, message, details, timestamp: now_rfc3339() }
    }
}

impl vstd::std_specs::convert::FromSpecImpl<VeloxError> for ErrorResponse {
    /// The response carries the time of the conversion, so it is not a
    /// function of the error alone.
    open spec fn obeys_from_spec() -> bool {
        false
    }

    open spec fn from_spec(error: VeloxError) -> Self {
        arbitrary()
    }
}

/// The result of an operation of the core.
pub type VeloxResult<T> = Result<T, VeloxError>;

} // verus!
