//! Trusted metadata, as plain values: what the client reads of it.

use std::sync::Arc;

use vstd::prelude::*;

use crate::error::Error;
use crate::path::{MetadataPath, VirtualTargetPath};
use crate::table::Table;
use crate::time::UtcTime;

verus! {

/// The four top-level roles.
#[derive(Clone, Copy, Debug, PartialEq, Eq, Structural)]
pub enum Role {
    Root,
    Snapshot,
    Targets,
    Timestamp,
}

impl Role {
    /// The name of the role.
    pub open spec fn spec_name(self) -> Seq<char> {
        match self {
            Role::Root => "root"@,
            Role::Snapshot => "snapshot"@,
            Role::Targets => "targets"@,
            Role::Timestamp => "timestamp"@,
        }
    }

    /// The name of the role.
    pub fn name(&self) -> (r: &'static str)
        ensures
            r@ == self.spec_name(),
    {
        match self {
            Role::Root => "root",
            Role::Snapshot => "snapshot",
            Role::Targets => "targets",
            Role::Timestamp => "timestamp",
        }
    }
}

/// The value of a hash, in hexadecimal.
#[derive(Debug, PartialEq, Eq)]
pub struct HashValue {
    pub hex: String,
}

impl Clone for HashValue {
    fn clone(&self) -> (r: Self)
        ensures
            r == *self,
    {
        HashValue { hex: self.hex.clone() }
    }
}

/// The hash algorithms that the client knows.
#[derive(Clone, Copy, Debug, PartialEq, Eq, Structural)]
pub enum HashAlgorithm {
    Sha256,
    Sha512,
}

/// The hash to check by, of those that `hashes` lists by algorithm: SHA-512 before SHA-256.
pub open spec fn preferred_hash(hashes: Map<Seq<char>, HashValue>) -> Option<
    (HashAlgorithm, HashValue),
> {
    if hashes.dom().contains("sha512"@) {
        Some((HashAlgorithm::Sha512, hashes["sha512"@]))
    } else if hashes.dom().contains("sha256"@) {
        Some((HashAlgorithm::Sha256, hashes["sha256"@]))
    } else {
        None
    }
}

/// Picks the hash to check by.
pub fn hash_preference(hashes: &Table<HashValue>) -> (r: Result<
    (HashAlgorithm, HashValue),
    Error,
>)
    ensures
        r == match preferred_hash(hashes@) {
            Some(hash) => Ok::<(HashAlgorithm, HashValue), Error>(hash),
            None => Err(Error::NoSupportedHashAlgorithm),
        },
        hashes@.contains_key("sha512"@) ==> r == Ok::<(HashAlgorithm, HashValue), Error>(
            (HashAlgorithm::Sha512, hashes@["sha512"@]),
        ),
        !hashes@.contains_key("sha512"@) && hashes@.contains_key("sha256"@) ==> r == Ok::<
            (HashAlgorithm, HashValue),
            Error,
        >((HashAlgorithm::Sha256, hashes@["sha256"@])),
        !hashes@.contains_key("sha512"@) && !hashes@.contains_key("sha256"@) ==> r == Err::<
            (HashAlgorithm, HashValue),
            Error,
        >(Error::NoSupportedHashAlgorithm),
{
    match hashes.get("sha512") {
        Some(value) => Ok((HashAlgorithm::Sha512, value.clone())),
        None => match hashes.get("sha256") {
            Some(value) => Ok((HashAlgorithm::Sha256, value.clone())),
            None => Err(Error::NoSupportedHashAlgorithm),
        },
    }
}

/// Which of the files of a metadata path is meant.
#[derive(Debug, PartialEq, Eq)]
pub enum MetadataVersion {
    /// The unversioned file.
    Unversioned,
    /// The file of this version.
    Number(u32),
    /// The file of this hash.
    Hash(HashValue),
}

impl Clone for MetadataVersion {
    fn clone(&self) -> (r: Self)
        ensures
            r == *self,
    {
        match self {
            MetadataVersion::Unversioned => MetadataVersion::Unversioned,
            MetadataVersion::Number(n) => MetadataVersion::Number(*n),
            MetadataVersion::Hash(value) => MetadataVersion::Hash(value.clone()),
        }
    }
}

/// What one piece of metadata says of another.
#[derive(Debug)]
pub struct MetadataDescription {
    pub version: u32,
    pub length: usize,
    /// The hashes, by the name of the algorithm.
    pub hashes: Table<HashValue>,
}

/// What targets metadata says of a target.
#[derive(Debug)]
pub struct TargetDescription {
    pub length: u64,
    /// The hashes, by the name of the algorithm.
    pub hashes: Table<HashValue>,
    /// Custom fields, each value in the encoding of the metadata.
    pub custom: Option<Table<String>>,
}

/// Trusted root metadata.
#[derive(Debug)]
pub struct RootMetadata {
    pub version: u32,
    pub expires: UtcTime,
    pub consistent_snapshot: bool,
}

/// Trusted timestamp metadata.
#[derive(Debug)]
pub struct TimestampMetadata {
    pub version: u32,
    /// The description of the snapshot metadata.
    pub snapshot: MetadataDescription,
}

/// Trusted snapshot metadata.
#[derive(Debug)]
pub struct SnapshotMetadata {
    pub version: u32,
    /// The descriptions of the targets metadata, by metadata path.
    pub meta: Table<MetadataDescription>,
}

/// A role that targets metadata delegates to.
#[derive(Debug)]
pub struct Delegation {
    pub role: MetadataPath,
    /// Whether a lookup fails where this delegation leads to no description.
    pub terminating: bool,
    /// The directories whose targets are delegated.
    pub paths: Vec<VirtualTargetPath>,
}

/// Trusted targets metadata, of the top-level role or of a delegated one.
#[derive(Debug)]
pub struct TargetsMetadata {
    pub version: u32,
    /// The descriptions of the targets, by virtual path.
    pub targets: Table<Arc<TargetDescription>>,
    /// The roles delegated to, in order of priority.
    pub delegations: Option<Vec<Delegation>>,
}

/// The metadata that is trusted at one moment.
#[derive(Debug)]
pub struct Tuf {
    pub root: RootMetadata,
    pub timestamp: Option<TimestampMetadata>,
    pub snapshot: Option<Arc<SnapshotMetadata>>,
    pub targets: Option<Arc<TargetsMetadata>>,
    /// The metadata of delegated roles, by metadata path.
    pub delegations: Table<Arc<TargetsMetadata>>,
}

/// Another handle on the same value, by `Arc::clone`, which copies the pointer and leaves the
/// value alone: what the result points to is what `shared` points to.
#[verifier::external_body]
pub(crate) fn share<T>(shared: &Arc<T>) -> (r: Arc<T>)
    ensures
        r == *shared,
{
    Arc::clone(shared)
}

} // verus!
