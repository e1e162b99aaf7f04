//! Sessions and their registry.
//!
//! The transport is the caller's: it makes the connection and reports how
//! that went. The library decides whether a session comes of it, under
//! which identifier, and which error is returned where none does. An
//! identifier is issued once: the registry remembers every identifier it
//! has issued, so one that was disconnected stays invalid.

use vstd::prelude::*;
use vstd::string::*;
use crate::id_map::IdMap;
use crate::ident::{random_identifier, IDENTIFIER_LENGTH};
use crate::listing::{arrange_listing, entry_views, info_views, listing_of, RemoteEntry};
use crate::types::{prefixed, ConnectionConfig, ErrorKind, ErrorView, FileInfo, SftpError};

verus! {

/// How an attempt to open a session went wrong.
pub enum TransportFailure {
    /// The host could not be reached.
    Unreachable { detail: String },
    /// The transport could not set up its session.
    SessionSetup { detail: String },
    /// The handshake failed.
    Handshake { detail: String },
    /// The private key was rejected.
    KeyRejected { detail: String },
    /// The password was rejected.
    PasswordRejected { detail: String },
    /// The transport took the credential and still is not authenticated.
    NotAuthenticated,
    /// The file-transfer channel could not be opened.
    Subsystem { detail: String },
}

impl TransportFailure {
    /// Whether the failure came before any credential was presented.
    pub open spec fn spec_before_auth(&self) -> bool {
        self is Unreachable || self is SessionSetup || self is Handshake
    }

    /// Whether the failure came before any credential was presented.
    #[verifier::when_used_as_spec(spec_before_auth)]
    pub fn before_auth(&self) -> (b: bool)
        ensures
            b == self.spec_before_auth(),
    {
        match self {
            TransportFailure::Unreachable { .. } => true,
            TransportFailure::SessionSetup { .. } => true,
            TransportFailure::Handshake { .. } => true,
            _ => false,
        }
    }

    /// The error that stands for the failure: a rejected credential is an
    /// `Auth` error, everything else a `Connect` error.
    pub open spec fn error_view(&self) -> ErrorView {
        match self {
            TransportFailure::Unreachable { detail } => ErrorView {
                kind: ErrorKind::Connect,
                message: "Failed to connect: "@ + detail@,
            },
            TransportFailure::SessionSetup { detail } => ErrorView {
                kind: ErrorKind::Connect,
                message: "Failed to create session: "@ + detail@,
            },
            TransportFailure::Handshake { detail } => ErrorView {
                kind: ErrorKind::Connect,
                message: "SSH handshake failed: "@ + detail@,
            },
            TransportFailure::KeyRejected { detail } => ErrorView {
                kind: ErrorKind::Auth,
                message: "Key authentication failed: "@ + detail@,
            },
            TransportFailure::PasswordRejected { detail } => ErrorView {
                kind: ErrorKind::Auth,
                message: "Password authentication failed: "@ + detail@,
            },
            TransportFailure::NotAuthenticated => ErrorView {
                kind: ErrorKind::Auth,
                message: "Authentication failed"@,
            },
            TransportFailure::Subsystem { detail } => ErrorView {
                kind: ErrorKind::Connect,
                message: "Failed to create SFTP session: "@ + detail@,
            },
        }
    }

    /// The error that stands for the failure.
    pub fn into_error(self) -> (e: SftpError)
        ensures
            e@ == self.error_view(),
    {
        match self {
            TransportFailure::Unreachable { detail } => SftpError::Connect {
                message: prefixed("Failed to connect: ", detail.as_str()),
            },
            TransportFailure::SessionSetup { detail } => SftpError::Connect {
                message: prefixed("Failed to create session: ", detail.as_str()),
            },
            TransportFailure::Handshake { detail } => SftpError::Connect {
                message: prefixed("SSH handshake failed: ", detail.as_str()),
            },
            TransportFailure::KeyRejected { detail } => SftpError::Auth {
                message: prefixed("Key authentication failed: ", detail.as_str()),
            },
            TransportFailure::PasswordRejected { detail } => SftpError::Auth {
                message: prefixed("Password authentication failed: ", detail.as_str()),
            },
            TransportFailure::NotAuthenticated => SftpError::Auth {
                message: String::from_str("Authentication failed"),
            },
            TransportFailure::Subsystem { detail } => SftpError::Connect {
                message: prefixed("Failed to create SFTP session: ", detail.as_str()),
            },
        }
    }
}

/// The error of a configuration that names neither a key nor a password.
pub open spec fn no_credential() -> ErrorView {
    ErrorView { kind: ErrorKind::Auth, message: "No authentication method provided"@ }
}

/// The error of an identifier that has been issued before.
pub open spec fn identifier_taken() -> ErrorView {
    ErrorView { kind: ErrorKind::Connect, message: "Connection identifier already issued"@ }
}

/// Why no session comes of an attempt, or `None` where one does. A
/// failure before authentication stands first; then a configuration
/// without credential; then any later failure.
pub open spec fn refusal<T>(
    config: ConnectionConfig,
    attempt: Result<T, TransportFailure>,
) -> Option<ErrorView> {
    match attempt {
        Err(f) => if f.before_auth() || config.auth_method() is Some {
            Some(f.error_view())
        } else {
            Some(no_credential())
        },
        Ok(_) => if config.auth_method() is None {
            Some(no_credential())
        } else {
            None
        },
    }
}

/// What is asked of the transport on behalf of a session.
pub enum RemoteRequest {
    RemoveDirectory { path: String },
    RemoveFile { path: String },
    MakeDirectory { path: String, mode: u32 },
    Rename { from: String, to: String },
}

/// A request with its paths as sequences of characters.
pub enum RequestView {
    RemoveDirectory { path: Seq<char> },
    RemoveFile { path: Seq<char> },
    MakeDirectory { path: Seq<char>, mode: u32 },
    Rename { from: Seq<char>, to: Seq<char> },
}

impl View for RemoteRequest {
    type V = RequestView;

    open spec fn view(&self) -> RequestView {
        match self {
            RemoteRequest::RemoveDirectory { path } => RequestView::RemoveDirectory { path: path@ },
            RemoteRequest::RemoveFile { path } => RequestView::RemoveFile { path: path@ },
            RemoteRequest::MakeDirectory { path, mode } => RequestView::MakeDirectory {
                path: path@,
                mode: *mode,
            },
            RemoteRequest::Rename { from, to } => RequestView::Rename { from: from@, to: to@ },
        }
    }
}

/// The request that deletes `path`: as a directory or as a file.
pub open spec fn delete_request(path: Seq<char>, is_dir: bool) -> RequestView {
    if is_dir {
        RequestView::RemoveDirectory { path }
    } else {
        RequestView::RemoveFile { path }
    }
}

impl RemoteRequest {
    /// How the message of a failed request begins.
    pub open spec fn failure_prefix(&self) -> Seq<char> {
        match self {
            RemoteRequest::RemoveDirectory { .. } => "Failed to delete directory: "@,
            RemoteRequest::RemoveFile { .. } => "Failed to delete file: "@,
            RemoteRequest::MakeDirectory { .. } => "Failed to create directory: "@,
            RemoteRequest::Rename { .. } => "Failed to rename: "@,
        }
    }

    /// The result of the request, given what the transport answered: its
    /// failure becomes an `Io` error that says what was being done.
    pub fn settle(&self, outcome: Result<(), String>) -> (r: Result<(), SftpError>)
        ensures
            match outcome {
                Ok(_) => r is Ok,
                Err(detail) => r matches Err(e) && e@ == (ErrorView {
                    kind: ErrorKind::Io,
                    message: self.failure_prefix() + detail@,
                }),
            },
    {
        match outcome {
            Ok(_) => Ok(()),
            Err(detail) => {
                let message = match self {
                    RemoteRequest::RemoveDirectory { .. } => prefixed(
                        "Failed to delete directory: ",
                        detail.as_str(),
                    ),
                    RemoteRequest::RemoveFile { .. } => prefixed(
                        "Failed to delete file: ",
                        detail.as_str(),
                    ),
                    RemoteRequest::MakeDirectory { .. } => prefixed(
                        "Failed to create directory: ",
                        detail.as_str(),
                    ),
                    RemoteRequest::Rename { .. } => prefixed("Failed to rename: ", detail.as_str()),
                };
                Err(SftpError::Io { message })
            },
        }
    }
}

/// The mode of a directory that the client creates.
pub const DIRECTORY_MODE: u32 = 0o755;

/// One authenticated session: the transport's handle, the configuration
/// it was opened with, and its identifier.
pub struct SftpClient<T> {
    pub transport: T,
    pub config: ConnectionConfig,
    pub connection_id: String,
}

impl<T> SftpClient<T> {
    /// Makes a session of an attempt to connect, under a new random
    /// identifier, or says why none comes of it.
    pub fn connect(config: ConnectionConfig, attempt: Result<T, TransportFailure>) -> (r: Result<
        SftpClient<T>,
        SftpError,
    >)
        ensures
            match r {
                Ok(client) => refusal(config, attempt) is None && attempt == Ok::<
                    T,
                    TransportFailure,
                >(client.transport) && client.config == config && client.connection_id@.len()
                    == IDENTIFIER_LENGTH,
                Err(e) => refusal(config, attempt) == Some(e@),
            },
    {
        let method = config.auth_method();
        match attempt {
            Err(f) => {
                if f.before_auth() || method.is_some() {
                    Err(f.into_error())
                } else {
                    Err(
                        SftpError::Auth {
                            message: String::from_str("No authentication method provided"),
                        },
                    )
                }
            },
            Ok(transport) => {
                if method.is_none() {
                    Err(
                        SftpError::Auth {
                            message: String::from_str("No authentication method provided"),
                        },
                    )
                } else {
                    Ok(SftpClient { transport, config, connection_id: random_identifier() })
                }
            },
        }
    }

    /// The identifier of the session.
    pub fn connection_id(&self) -> (id: &str)
        ensures
            id@ == self.connection_id@,
    {
        self.connection_id.as_str()
    }

    /// The listing of a directory, given what the transport read of it.
    pub fn list_directory(&self, read: Result<Vec<RemoteEntry>, String>) -> (r: Result<
        Vec<FileInfo>,
        SftpError,
    >)
        ensures
            match read {
                Ok(entries) => r matches Ok(files) && info_views(files@) == listing_of(
                    entry_views(entries@),
                ),
                Err(detail) => r matches Err(e) && e@ == (ErrorView {
                    kind: ErrorKind::Io,
                    message: "Error reading directory: "@ + detail@,
                }),
            },
    {
        match read {
            Ok(entries) => Ok(arrange_listing(&entries)),
            Err(detail) => Err(
                SftpError::Io { message: prefixed("Error reading directory: ", detail.as_str()) },
            ),
        }
    }

    /// The request that deletes `path`: as a directory or as a file.
    pub fn delete(&self, path: &str, is_dir: bool) -> (request: RemoteRequest)
        ensures
            request@ == delete_request(path@, is_dir),
    {
        if is_dir {
            RemoteRequest::RemoveDirectory { path: String::from_str(path) }
        } else {
            RemoteRequest::RemoveFile { path: String::from_str(path) }
        }
    }

    /// The request that creates the directory `path`.
    pub fn create_directory(&self, path: &str) -> (request: RemoteRequest)
        ensures
            request@ == (RequestView::MakeDirectory { path: path@, mode: DIRECTORY_MODE }),
    {
        RemoteRequest::MakeDirectory { path: String::from_str(path), mode: DIRECTORY_MODE }
    }

    /// The request that renames `old_path` to `new_path`.
    pub fn rename(&self, old_path: &str, new_path: &str) -> (request: RemoteRequest)
        ensures
            request@ == (RequestView::Rename { from: old_path@, to: new_path@ }),
    {
        RemoteRequest::Rename { from: String::from_str(old_path), to: String::from_str(new_path) }
    }
}

/// The live sessions by identifier, and every identifier issued so far.
pub struct ConnectionPool<T> {
    sessions: IdMap<SftpClient<T>>,
    issued: IdMap<()>,
}

impl<T> ConnectionPool<T> {
    /// Every live session stands under an identifier that was issued.
    pub closed spec fn wf(&self) -> bool {
        &&& self.sessions.wf()
        &&& self.issued.wf()
        &&& self.sessions@.dom().subset_of(self.issued@.dom())
    }

    /// The live sessions by identifier. This is one half of what the
    /// registry holds; `issued` is the other, and every contract that
    /// changes the registry speaks of both.
    pub closed spec fn sessions(&self) -> Map<Seq<char>, SftpClient<T>> {
        self.sessions@
    }

    /// Every identifier under which a session was ever added, live or
    /// not.
    pub closed spec fn issued(&self) -> Set<Seq<char>> {
        self.issued@.dom()
    }

    /// A live session's identifier was issued, so no later session gets it.
    pub proof fn law_live_ids_were_issued(&self)
        requires
            self.wf(),
        ensures
            self.sessions().dom().subset_of(self.issued()),
    {
    }

    /// A registry without sessions.
    pub fn new() -> (pool: Self)
        ensures
            pool.wf(),
            pool.sessions() == Map::<Seq<char>, SftpClient<T>>::empty(),
            pool.issued() == Set::<Seq<char>>::empty(),
    {
        let pool = ConnectionPool { sessions: IdMap::new(), issued: IdMap::new() };
        assert(pool.issued() =~= Set::<Seq<char>>::empty());
        pool
    }

    /// Registers `client` under `id`, unless `id` was issued before.
    pub fn add(&mut self, id: String, client: SftpClient<T>) -> (r: Result<(), SftpError>)
        requires
            old(self).wf(),
        ensures
            final(self).wf(),
            match r {
                Ok(_) => !old(self).issued().contains(id@) && final(self).sessions() == old(self).sessions().insert(id@, client) && final(self).issued() == old(self).issued().insert(id@),
                Err(e) => old(self).issued().contains(id@) && e@ == identifier_taken()
                    && final(self).sessions() == old(self).sessions() && final(self).issued()
                    == old(self).issued(),
            },
    {
        if self.issued.contains(id.as_str()) {
            return Err(
                SftpError::Connect {
                    message: String::from_str("Connection identifier already issued"),
                },
            );
        }
        let key = id.clone();
        self.issued.insert(key, ());
        self.sessions.insert(id, client);
        assert(self.issued() =~= old(self).issued().insert(id@));
        Ok(())
    }

    /// Whether `id` names a live session.
    pub fn contains(&self, id: &str) -> (b: bool)
        requires
            self.wf(),
        ensures
            b == self.sessions().dom().contains(id@),
    {
        self.sessions.contains(id)
    }

    /// The live session that `id` names, or `NotFound` where there is
    /// none.
    pub fn get(&self, id: &str) -> (r: Result<&SftpClient<T>, SftpError>)
        requires
            self.wf(),
        ensures
            match r {
                Ok(client) => self.sessions().dom().contains(id@) && *client
                    == self.sessions()[id@],
                Err(e) => !self.sessions().dom().contains(id@) && e is NotFound,
            },
    {
        match self.sessions.get(id) {
            Some(client) => Ok(client),
            None => Err(SftpError::NotFound),
        }
    }

    /// Takes the session that `id` names out of the registry. Its
    /// identifier stays issued.
    pub fn remove(&mut self, id: &str) -> (r: Option<SftpClient<T>>)
        requires
            old(self).wf(),
        ensures
            final(self).wf(),
            final(self).sessions() == old(self).sessions().remove(id@),
            final(self).issued() == old(self).issued(),
            match r {
                Some(client) => old(self).sessions().dom().contains(id@) && client == old(self).sessions()[id@],
                None => !old(self).sessions().dom().contains(id@),
            },
    {
        self.sessions.remove(id)
    }
}

impl<T> Default for ConnectionPool<T> {
    /// A registry without sessions.
    fn default() -> (pool: Self)
        ensures
            pool.wf(),
            pool.sessions() == Map::<Seq<char>, SftpClient<T>>::empty(),
            pool.issued() == Set::<Seq<char>>::empty(),
    {
        ConnectionPool::new()
    }
}

/// Opens a session: makes a client of the attempt and registers it under
/// its new identifier, which is returned. The identifier was never issued
/// by this registry before. Where no session is opened the registry is
/// unchanged, and the error is a `Connect` or an `Auth` error. An attempt
/// that is not refused fails only where the identifier that was drawn had
/// been issued before, so it succeeds on a registry that has issued none.
pub fn connect_sftp<T>(
    pool: &mut ConnectionPool<T>,
    config: ConnectionConfig,
    attempt: Result<T, TransportFailure>,
) -> (r: Result<String, SftpError>)
    requires
        old(pool).wf(),
    ensures
        final(pool).wf(),
        refusal(config, attempt) is None && old(pool).issued() == Set::<Seq<char>>::empty()
            ==> r is Ok,
        match r {
            Ok(id) => refusal(config, attempt) is None && id@.len() == IDENTIFIER_LENGTH && !old(pool).issued().contains(id@)
                && final(pool).issued() == old(pool).issued().insert(id@) && final(pool).sessions().dom() == old(pool).sessions().dom().insert(id@) && final(pool).sessions()[id@].connection_id@ == id@ && final(pool).sessions()[id@].config
                == config && attempt == Ok::<T, TransportFailure>(
                final(pool).sessions()[id@].transport,
            ) && forall|k: Seq<char>|
                old(pool).sessions().dom().contains(k) ==> #[trigger] final(pool).sessions()[k]
                    == old(pool).sessions()[k],
            Err(e) => (e.kind() == ErrorKind::Connect || e.kind() == ErrorKind::Auth) && final(pool).sessions() == old(pool).sessions() && final(pool).issued() == old(pool).issued()
                && (refusal(config, attempt) matches Some(v) ==> e@ == v) && (refusal(
                config,
                attempt,
            ) is None ==> e@ == identifier_taken()),
        },
{
    match SftpClient::connect(config, attempt) {
        Err(e) => Err(e),
        Ok(client) => {
            let id = client.connection_id.clone();
            let key = id.clone();
            proof {
                pool.law_live_ids_were_issued();
            }
            match pool.add(key, client) {
                Ok(_) => Ok(id),
                Err(e) => Err(e),
            }
        },
    }
}

/// Closes the session that `id` names and releases its transport.
pub fn disconnect_sftp<T>(pool: &mut ConnectionPool<T>, id: &str) -> (r: Result<(), SftpError>)
    requires
        old(pool).wf(),
    ensures
        final(pool).wf(),
        final(pool).sessions() == old(pool).sessions().remove(id@),
        final(pool).issued() == old(pool).issued(),
        match r {
            Ok(_) => old(pool).sessions().dom().contains(id@),
            Err(e) => !old(pool).sessions().dom().contains(id@) && e is NotFound,
        },
{
    match pool.remove(id) {
        Some(_) => Ok(()),
        None => Err(SftpError::NotFound),
    }
}

} // verus!
