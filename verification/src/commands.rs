//! The operations on a session, by the session's identifier.
//!
//! Each operation first finds the session. An identifier that names no
//! live session gives `NotFound`, whatever else was handed in.

use vstd::prelude::*;
use crate::listing::{entry_views, info_views, listing_of, RemoteEntry};
use crate::session::{delete_request, ConnectionPool, RemoteRequest, RequestView, DIRECTORY_MODE};
use crate::types::{ErrorKind, ErrorView, FileInfo, SftpError};

verus! {

/// The listing of a directory on the session `connection_id`, given what
/// the transport read of it.
pub fn list_directory<T>(
    pool: &ConnectionPool<T>,
    connection_id: &str,
    read: Result<Vec<RemoteEntry>, String>,
) -> (r: Result<Vec<FileInfo>, SftpError>)
    requires
        pool.wf(),
    ensures
        if pool.sessions().dom().contains(connection_id@) {
            match read {
                Ok(entries) => r matches Ok(files) && info_views(files@) == listing_of(
                    entry_views(entries@),
                ),
                Err(detail) => r matches Err(e) && e@ == (ErrorView {
                    kind: ErrorKind::Io,
                    message: "Error reading directory: "@ + detail@,
                }),
            }
        } else {
            r matches Err(e) && e is NotFound
        },
{
    match pool.get(connection_id) {
        Ok(client) => client.list_directory(read),
        Err(e) => Err(e),
    }
}

/// The request that deletes `path` on the session `connection_id`.
pub fn delete_file<T>(pool: &ConnectionPool<T>, connection_id: &str, path: &str, is_dir: bool) -> (r:
    Result<RemoteRequest, SftpError>)
    requires
        pool.wf(),
    ensures
        match r {
            Ok(request) => pool.sessions().dom().contains(connection_id@) && request@
                == delete_request(path@, is_dir),
            Err(e) => !pool.sessions().dom().contains(connection_id@) && e is NotFound,
        },
{
    match pool.get(connection_id) {
        Ok(client) => Ok(client.delete(path, is_dir)),
        Err(e) => Err(e),
    }
}

/// The request that creates the directory `path` on the session
/// `connection_id`.
pub fn create_directory<T>(pool: &ConnectionPool<T>, connection_id: &str, path: &str) -> (r: Result<
    RemoteRequest,
    SftpError,
>)
    requires
        pool.wf(),
    ensures
        match r {
            Ok(request) => pool.sessions().dom().contains(connection_id@) && request@
                == (RequestView::MakeDirectory { path: path@, mode: DIRECTORY_MODE }),
            Err(e) => !pool.sessions().dom().contains(connection_id@) && e is NotFound,
        },
{
    match pool.get(connection_id) {
        Ok(client) => Ok(client.create_directory(path)),
        Err(e) => Err(e),
    }
}

/// The request that renames `old_path` to `new_path` on the session
/// `connection_id`.
pub fn rename_file<T>(
    pool: &ConnectionPool<T>,
    connection_id: &str,
    old_path: &str,
    new_path: &str,
) -> (r: Result<RemoteRequest, SftpError>)
    requires
        pool.wf(),
    ensures
        match r {
            Ok(request) => pool.sessions().dom().contains(connection_id@) && request@
                == (RequestView::Rename { from: old_path@, to: new_path@ }),
            Err(e) => !pool.sessions().dom().contains(connection_id@) && e is NotFound,
        },
{
    match pool.get(connection_id) {
        Ok(client) => Ok(client.rename(old_path, new_path)),
        Err(e) => Err(e),
    }
}

} // verus!
