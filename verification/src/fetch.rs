//! Requests for signed metadata.

use vstd::prelude::*;

use crate::error::Error;
use crate::metadata::{hash_preference, preferred_hash};
use crate::metadata::{HashAlgorithm, HashValue, MetadataDescription, MetadataVersion, Role};
use crate::path::MetadataPath;

verus! {

/// Which repository a request goes to.
#[derive(Clone, Copy, Debug, PartialEq, Eq, Structural)]
pub enum Source {
    Local,
    Remote,
}

/// A request for signed metadata.
#[derive(Debug)]
pub struct Fetch {
    /// The repository to ask.
    pub source: Source,
    /// The path of the metadata.
    pub path: MetadataPath,
    /// The file of that path.
    pub version: MetadataVersion,
    /// The greatest length to accept.
    pub max_length: Option<usize>,
    /// The hash that the bytes must have.
    pub hash: Option<(HashAlgorithm, HashValue)>,
}

/// The request for a file of the root metadata from the remote repository.
pub open spec fn root_fetch(max_length: Option<usize>, version: MetadataVersion) -> Fetch {
    Fetch {
        source: Source::Remote,
        path: MetadataPath::Role(Role::Root),
        version,
        max_length,
        hash: None,
    }
}

/// The request for the timestamp metadata, which always is the unversioned file of the remote
/// repository.
pub open spec fn timestamp_fetch(max_length: Option<usize>) -> Fetch {
    Fetch {
        source: Source::Remote,
        path: MetadataPath::Role(Role::Timestamp),
        version: MetadataVersion::Unversioned,
        max_length,
        hash: None,
    }
}

/// The request for the metadata of `role` that `description` announces, if it is newer than the
/// version `trusted`.
///
/// Its length is at most the length described, and its hash is the preferred one of those
/// described. With consistent snapshots the file of the version described is asked for, without
/// them the unversioned one.
pub open spec fn described_fetch(
    role: Role,
    description: MetadataDescription,
    trusted: u32,
    consistent_snapshot: bool,
) -> Result<Option<Fetch>, Error> {
    if description.version <= trusted {
        Ok(None)
    } else {
        match preferred_hash(description.hashes@) {
            None => Err(Error::NoSupportedHashAlgorithm),
            Some(hash) => Ok(
                Some(
                    Fetch {
                        source: Source::Remote,
                        path: MetadataPath::Role(role),
                        version: if consistent_snapshot {
                            MetadataVersion::Number(description.version)
                        } else {
                            MetadataVersion::Unversioned
                        },
                        max_length: Some(description.length),
                        hash: Some(hash),
                    },
                ),
            ),
        }
    }
}

impl Fetch {
    /// The request for a file of the root metadata.
    pub fn root(max_length: Option<usize>, version: MetadataVersion) -> (r: Fetch)
        ensures
            r == root_fetch(max_length, version),
            r.source == Source::Remote,
            r.path == MetadataPath::Role(Role::Root),
            r.version == version,
            r.max_length == max_length,
            r.hash is None,
    {
        Fetch {
            source: Source::Remote,
            path: MetadataPath::from_role(&Role::Root),
            version,
            max_length,
            hash: None,
        }
    }

    /// The request for the timestamp metadata.
    pub fn timestamp(max_length: Option<usize>) -> (r: Fetch)
        ensures
            r == timestamp_fetch(max_length),
            r.source == Source::Remote,
            r.path == MetadataPath::Role(Role::Timestamp),
            r.version == MetadataVersion::Unversioned,
            r.max_length == max_length,
            r.hash is None,
    {
        Fetch {
            source: Source::Remote,
            path: MetadataPath::from_role(&Role::Timestamp),
            version: MetadataVersion::Unversioned,
            max_length,
            hash: None,
        }
    }

    /// The request for the metadata that `description` announces, if that is newer than the
    /// version `trusted`.
    pub fn described(
        role: Role,
        description: &MetadataDescription,
        trusted: u32,
        consistent_snapshot: bool,
    ) -> (r: Result<Option<Fetch>, Error>)
        ensures
            r == described_fetch(role, *description, trusted, consistent_snapshot),
            r == Ok::<Option<Fetch>, Error>(None) <==> description.version <= trusted,
            r is Err <==> description.version > trusted && !description.hashes@.contains_key(
                "sha512"@,
            ) && !description.hashes@.contains_key("sha256"@),
            r matches Err(error) ==> error == Error::NoSupportedHashAlgorithm,
            r matches Ok(Some(fetch)) ==> {
                &&& fetch.source == Source::Remote
                &&& fetch.path == MetadataPath::Role(role)
                &&& fetch.max_length == Some(description.length)
                &&& consistent_snapshot ==> fetch.version == MetadataVersion::Number(
                    description.version,
                )
                &&& !consistent_snapshot ==> fetch.version == MetadataVersion::Unversioned
                &&& fetch.hash == Some(
                    if description.hashes@.contains_key("sha512"@) {
                        (HashAlgorithm::Sha512, description.hashes@["sha512"@])
                    } else {
                        (HashAlgorithm::Sha256, description.hashes@["sha256"@])
                    },
                )
            },
    {
        if description.version <= trusted {
            return Ok(None);
        }
        match hash_preference(&description.hashes) {
            Err(error) => Err(error),
            Ok(hash) => {
                let version = if consistent_snapshot {
                    MetadataVersion::Number(description.version)
                } else {
                    MetadataVersion::Unversioned
                };
                Ok(
                    Some(
                        Fetch {
                            source: Source::Remote,
                            path: MetadataPath::from_role(&role),
                            version,
                            max_length: Some(description.length),
                            hash: Some(hash),
                        },
                    ),
                )
            },
        }
    }
}

} // verus!
