//! The storage router: from the location of a table to the way it is
//! reached.
//!
//! A location under `file://` is on local disk and is handed on as a plain
//! path. A location under `s3://` is in object storage and is handed on as it
//! is, with the options that such storage needs. Any other location is
//! refused: there is no default.

use vstd::prelude::*;
use crate::error::Error;
use crate::text::{has_prefix, skip_chars};

verus! {

/// Where a table is stored.
#[derive(Clone, Copy, Debug, PartialEq, Eq, Structural)]
pub enum StorageKind {
    /// On the local file system.
    Local,
    /// In object storage.
    Remote,
}

/// The kind of storage that `location` names, if its scheme is known.
pub open spec fn kind_of(location: Seq<char>) -> Option<StorageKind> {
    if "s3://"@.is_prefix_of(location) {
        Some(StorageKind::Remote)
    } else if "file://"@.is_prefix_of(location) {
        Some(StorageKind::Local)
    } else {
        None
    }
}

/// Whether `r` is the error for a location without a known scheme.
pub open spec fn is_unclassified<T>(r: Result<T, Error>) -> bool {
    r matches Err(Error::StorageClassification(m)) && m@
        == "storage type should start with either s3:// or file://"@
}

/// Classifies a location by its scheme: `s3://` is remote, `file://` is
/// local, and anything else is an error.
pub fn classify(location: &str) -> (r: Result<StorageKind, Error>)
    ensures
        match kind_of(location@) {
            Some(kind) => r == Ok::<StorageKind, Error>(kind),
            None => is_unclassified(r),
        },
{
    if has_prefix(location, "s3://") {
        Ok(StorageKind::Remote)
    } else if has_prefix(location, "file://") {
        Ok(StorageKind::Local)
    } else {
        Err(
            Error::StorageClassification(
                String::from_str("storage type should start with either s3:// or file://"),
            ),
        )
    }
}

/// Whether `uri` names a table on the local file system; an error where its
/// scheme is neither `file://` nor `s3://`.
pub fn is_local_storage(uri: &str) -> (r: Result<bool, Error>)
    ensures
        match kind_of(uri@) {
            Some(kind) => r == Ok::<bool, Error>(kind == StorageKind::Local),
            None => is_unclassified(r),
        },
{
    match classify(uri) {
        Ok(StorageKind::Local) => Ok(true),
        Ok(StorageKind::Remote) => Ok(false),
        Err(e) => Err(e),
    }
}

/// What is handed to the storage engine for `uri`: the path behind `file://`
/// for a local table, the whole of it for a remote one.
pub open spec fn engine_path(uri: Seq<char>) -> Seq<char> {
    if kind_of(uri) == Some(StorageKind::Local) {
        uri.skip("file://"@.len() as int)
    } else {
        uri
    }
}

/// Takes the `file://` prefix off a local location and leaves a remote one
/// as it is; an error for any other.
pub fn strip_file_prefix(uri: &str) -> (r: Result<String, Error>)
    ensures
        match kind_of(uri@) {
            Some(_) => r matches Ok(path) && path@ == engine_path(uri@),
            None => r matches Err(Error::StorageClassification(m)) && m@
                == "strip_file_prefix called on a non-file uri"@,
        },
{
    if has_prefix(uri, "file://") {
        proof {
            reveal_strlit("file://");
            reveal_strlit("s3://");
            if "s3://"@.is_prefix_of(uri@) {
                assert(uri@.subrange(0, 7)[0] == 'f');
            }
        }
        Ok(skip_chars(uri, 7))
    } else if has_prefix(uri, "s3://") {
        Ok(String::from_str(uri))
    } else {
        Err(
            Error::StorageClassification(
                String::from_str("strip_file_prefix called on a non-file uri"),
            ),
        )
    }
}

/// The options under which object storage is reached.
#[derive(Clone, Debug, PartialEq, Eq)]
pub struct StorageOptions {
    /// Load the credentials anew on every call; never reuse earlier ones.
    pub force_credential_load: bool,
    /// Commit without an atomic rename, which object stores lack.
    pub allow_unsafe_rename: bool,
    /// The endpoint to use in place of the provider's own, if one is set.
    pub endpoint_url: Option<String>,
    /// Accept plain HTTP; set exactly where an endpoint is given.
    pub allow_http: bool,
}

/// The options for object storage, given the endpoint that the ambient
/// configuration sets, if any: credentials are always loaded anew and
/// non-atomic renames always allowed; an endpoint is passed through, and
/// with it plain HTTP is allowed.
pub fn aws_config(endpoint_url: Option<&str>) -> (options: StorageOptions)
    ensures
        options.force_credential_load,
        options.allow_unsafe_rename,
        options.allow_http == endpoint_url is Some,
        match endpoint_url {
            Some(url) => options.endpoint_url matches Some(e) && e@ == url@,
            None => options.endpoint_url is None,
        },
{
    match endpoint_url {
        Some(url) => StorageOptions {
            force_credential_load: true,
            allow_unsafe_rename: true,
            endpoint_url: Some(String::from_str(url)),
            allow_http: true,
        },
        None => StorageOptions {
            force_credential_load: true,
            allow_unsafe_rename: true,
            endpoint_url: None,
            allow_http: false,
        },
    }
}

/// How the storage engine is to reach a table.
#[derive(Clone, Debug, PartialEq, Eq)]
pub enum StorageAccess {
    /// On local disk, at `path`.
    Local { path: String },
    /// In object storage, at `uri`, under `options`.
    Remote { uri: String, options: StorageOptions },
}

/// Whether `access` is the way to reach `location` when the ambient
/// configuration sets the endpoint `endpoint_url`.
pub open spec fn routes_to(
    access: StorageAccess,
    location: Seq<char>,
    endpoint_url: Option<Seq<char>>,
) -> bool {
    match access {
        StorageAccess::Local { path } => {
            &&& kind_of(location) == Some(StorageKind::Local)
            &&& path@ == engine_path(location)
        },
        StorageAccess::Remote { uri, options } => {
            &&& kind_of(location) == Some(StorageKind::Remote)
            &&& uri@ == location
            &&& options.force_credential_load
            &&& options.allow_unsafe_rename
            &&& options.allow_http == endpoint_url is Some
            &&& match endpoint_url {
                Some(url) => options.endpoint_url matches Some(e) && e@ == url,
                None => options.endpoint_url is None,
            }
        },
    }
}

/// The view of an optional string.
pub open spec fn text_of(s: Option<&str>) -> Option<Seq<char>> {
    match s {
        Some(s) => Some(s@),
        None => None,
    }
}

/// Decides how to reach the table at `location`: classifies it, and for a
/// remote table adds the options of [`aws_config`]. Fails exactly where the
/// location cannot be classified.
pub fn route(location: &str, endpoint_url: Option<&str>) -> (r: Result<StorageAccess, Error>)
    ensures
        match kind_of(location@) {
            Some(_) => r matches Ok(access) && routes_to(
                access,
                location@,
                text_of(endpoint_url),
            ),
            None => is_unclassified(r),
        },
{
    match classify(location) {
        Ok(StorageKind::Local) => {
            match strip_file_prefix(location) {
                Ok(path) => Ok(StorageAccess::Local { path }),
                Err(e) => Err(e),
            }
        },
        Ok(StorageKind::Remote) => Ok(
            StorageAccess::Remote {
                uri: String::from_str(location),
                options: aws_config(endpoint_url),
            },
        ),
        Err(e) => Err(e),
    }
}

} // verus!
