//! Plain data shared by the whole library.

use vstd::prelude::*;
use vstd::string::*;

verus! {

/// Where and as whom to open a session.
pub struct ConnectionConfig {
    pub host: String,
    pub port: u16,
    pub username: String,
    pub private_key_path: Option<String>,
    pub passphrase: Option<String>,
    pub password: Option<String>,
}

/// One entry of a directory listing.
pub struct FileInfo {
    pub name: String,
    pub path: String,
    pub size: u64,
    pub is_dir: bool,
    pub modified: u64,
    pub permissions: String,
}

/// A directory together with its arranged entries.
pub struct DirectoryListing {
    pub path: String,
    pub files: Vec<FileInfo>,
}

/// Why an operation failed.
pub enum SftpError {
    /// The host was unreachable or the handshake failed.
    Connect { message: String },
    /// No credential was supplied, or the credential was rejected.
    Auth { message: String },
    /// The session or transfer identifier is unknown.
    NotFound,
    /// A local or remote read, write or stat failed.
    Io { message: String },
    /// The transfer was aborted on request.
    Cancelled,
}

/// The kind of an error, without its message.
#[derive(Clone, Copy, Debug, PartialEq, Eq, Structural)]
pub enum ErrorKind {
    Connect,
    Auth,
    NotFound,
    Io,
    Cancelled,
}

/// An error as its kind and its message.
pub struct ErrorView {
    pub kind: ErrorKind,
    pub message: Seq<char>,
}

impl View for SftpError {
    type V = ErrorView;

    open spec fn view(&self) -> ErrorView {
        ErrorView { kind: self.spec_kind(), message: self.spec_message() }
    }
}

/// How a credential is presented.
#[derive(Clone, Copy, Debug, PartialEq, Eq, Structural)]
pub enum AuthMethod {
    PrivateKey,
    Password,
}

impl ConnectionConfig {
    /// The way to authenticate, if the configuration names one.
    pub open spec fn spec_auth_method(&self) -> Option<AuthMethod> {
        if self.private_key_path is Some {
            Some(AuthMethod::PrivateKey)
        } else if self.password is Some {
            Some(AuthMethod::Password)
        } else {
            None
        }
    }

    /// The way to authenticate: by private key where a key path is given,
    /// else by password where one is given, else not at all.
    #[verifier::when_used_as_spec(spec_auth_method)]
    pub fn auth_method(&self) -> (m: Option<AuthMethod>)
        ensures
            m == self.spec_auth_method(),
    {
        if self.private_key_path.is_some() {
            Some(AuthMethod::PrivateKey)
        } else if self.password.is_some() {
            Some(AuthMethod::Password)
        } else {
            None
        }
    }
}

/// `prefix` followed by `detail`.
pub fn prefixed(prefix: &str, detail: &str) -> (text: String)
    ensures
        text@ == prefix@ + detail@,
{
    String::from_str(prefix).concat(detail)
}

impl SftpError {
    /// The message of this error.
    pub open spec fn spec_message(&self) -> Seq<char> {
        match self {
            SftpError::Connect { message } => message@,
            SftpError::Auth { message } => message@,
            SftpError::NotFound => "Not found"@,
            SftpError::Io { message } => message@,
            SftpError::Cancelled => "Transfer cancelled"@,
        }
    }

    /// The message of this error.
    pub fn message(&self) -> (text: String)
        ensures
            text@ == self.spec_message(),
    {
        match self {
            SftpError::Connect { message } => message.clone(),
            SftpError::Auth { message } => message.clone(),
            SftpError::NotFound => String::from_str("Not found"),
            SftpError::Io { message } => message.clone(),
            SftpError::Cancelled => String::from_str("Transfer cancelled"),
        }
    }

    /// The kind of this error.
    pub open spec fn spec_kind(&self) -> ErrorKind {
        match self {
            SftpError::Connect { .. } => ErrorKind::Connect,
            SftpError::Auth { .. } => ErrorKind::Auth,
            SftpError::NotFound => ErrorKind::NotFound,
            SftpError::Io { .. } => ErrorKind::Io,
            SftpError::Cancelled => ErrorKind::Cancelled,
        }
    }

    /// The kind of this error.
    #[verifier::when_used_as_spec(spec_kind)]
    pub fn kind(&self) -> (k: ErrorKind)
        ensures
            k == self.spec_kind(),
    {
        match self {
            SftpError::Connect { .. } => ErrorKind::Connect,
            SftpError::Auth { .. } => ErrorKind::Auth,
            SftpError::NotFound => ErrorKind::NotFound,
            SftpError::Io { .. } => ErrorKind::Io,
            SftpError::Cancelled => ErrorKind::Cancelled,
        }
    }
}

} // verus!
