//! What is asked for, in terms of what the trusted metadata lists.

use vstd::prelude::*;

use crate::error::{Error, Message};
use crate::fetch::{Fetch, Source};
use crate::metadata::{preferred_hash, HashAlgorithm, HashValue, MetadataVersion, Role, Tuf};
use crate::path::MetadataPath;
use crate::update::{snapshot_wanted, targets_wanted};

verus! {

/// Of the hashes that a table lists by algorithm, a SHA-512 hash is used wherever there is one, a
/// SHA-256 hash where there is no SHA-512 hash, and none just where there is neither.
pub proof fn strongest_known_hash_is_used(hashes: Map<Seq<char>, HashValue>)
    ensures
        preferred_hash(hashes) is None <==> !hashes.contains_key("sha512"@)
            && !hashes.contains_key("sha256"@),
        hashes.contains_key("sha512"@) ==> preferred_hash(hashes) == Some(
            (HashAlgorithm::Sha512, hashes["sha512"@]),
        ),
        !hashes.contains_key("sha512"@) && hashes.contains_key("sha256"@) ==> preferred_hash(hashes)
            == Some((HashAlgorithm::Sha256, hashes["sha256"@])),
{
}

/// Snapshot metadata is asked for if and only if the trusted timestamp metadata lists a version
/// greater than the trusted one, by however much, or greater than zero where none is trusted. The
/// request is for what is listed: it goes to the remote repository, takes no more than the length
/// listed, has the strongest hash listed, and names the version listed just with consistent
/// snapshots. Without a known hash, and without timestamp metadata, there is an error instead.
pub proof fn newer_snapshot_is_asked_for(tuf: Tuf)
    ensures
        tuf.timestamp is None ==> snapshot_wanted(tuf) == Err::<Option<Fetch>, Error>(
            Error::MissingMetadata(Role::Timestamp),
        ),
        tuf.timestamp matches Some(timestamp) ==> {
            let listed = timestamp.snapshot;
            let newer = match tuf.snapshot {
                Some(snapshot) => snapshot.version < listed.version,
                None => 0 < listed.version,
            };
            let known = listed.hashes@.contains_key("sha512"@) || listed.hashes@.contains_key(
                "sha256"@,
            );
            &&& snapshot_wanted(tuf) == Ok::<Option<Fetch>, Error>(None) <==> !newer
            &&& snapshot_wanted(tuf) is Err <==> newer && !known
            &&& snapshot_wanted(tuf) matches Err(error) ==> error
                == Error::NoSupportedHashAlgorithm
            &&& newer && known ==> {
                &&& snapshot_wanted(tuf) matches Ok(Some(fetch))
                &&& fetch.source == Source::Remote
                &&& fetch.path == MetadataPath::Role(Role::Snapshot)
                &&& fetch.max_length == Some(listed.length)
                &&& tuf.root.consistent_snapshot ==> fetch.version == MetadataVersion::Number(
                    listed.version,
                )
                &&& !tuf.root.consistent_snapshot ==> fetch.version == MetadataVersion::Unversioned
                &&& listed.hashes@.contains_key("sha512"@) ==> fetch.hash == Some(
                    (HashAlgorithm::Sha512, listed.hashes@["sha512"@]),
                )
                &&& !listed.hashes@.contains_key("sha512"@) ==> fetch.hash == Some(
                    (HashAlgorithm::Sha256, listed.hashes@["sha256"@]),
                )
            }
        },
{
}

/// Targets metadata is asked for if and only if the trusted snapshot metadata lists a version
/// greater than the trusted one, by however much, or greater than zero where none is trusted. The
/// request is for what is listed: it goes to the remote repository, takes no more than the length
/// listed, has the strongest hash listed, and names the version listed just with consistent
/// snapshots. Without a known hash, where targets metadata is not listed, and without snapshot
/// metadata, there is an error instead.
pub proof fn newer_targets_are_asked_for(tuf: Tuf)
    ensures
        tuf.snapshot is None ==> targets_wanted(tuf) == Err::<Option<Fetch>, Error>(
            Error::MissingMetadata(Role::Snapshot),
        ),
        tuf.snapshot matches Some(snapshot) ==> {
            let listed = snapshot.meta@["targets"@];
            let newer = match tuf.targets {
                Some(targets) => targets.version < listed.version,
                None => 0 < listed.version,
            };
            let known = listed.hashes@.contains_key("sha512"@) || listed.hashes@.contains_key(
                "sha256"@,
            );
            if !snapshot.meta@.contains_key("targets"@) {
                targets_wanted(tuf) == Err::<Option<Fetch>, Error>(
                    Error::VerificationFailure(Message::TargetsNotDescribed),
                )
            } else {
                &&& targets_wanted(tuf) == Ok::<Option<Fetch>, Error>(None) <==> !newer
                &&& targets_wanted(tuf) is Err <==> newer && !known
                &&& targets_wanted(tuf) matches Err(error) ==> error
                    == Error::NoSupportedHashAlgorithm
                &&& newer && known ==> {
                    &&& targets_wanted(tuf) matches Ok(Some(fetch))
                    &&& fetch.source == Source::Remote
                    &&& fetch.path == MetadataPath::Role(Role::Targets)
                    &&& fetch.max_length == Some(listed.length)
                    &&& tuf.root.consistent_snapshot ==> fetch.version == MetadataVersion::Number(
                        listed.version,
                    )
                    &&& !tuf.root.consistent_snapshot ==> fetch.version
                        == MetadataVersion::Unversioned
                    &&& listed.hashes@.contains_key("sha512"@) ==> fetch.hash == Some(
                        (HashAlgorithm::Sha512, listed.hashes@["sha512"@]),
                    )
                    &&& !listed.hashes@.contains_key("sha512"@) ==> fetch.hash == Some(
                        (HashAlgorithm::Sha256, listed.hashes@["sha256"@]),
                    )
                }
            }
        },
{
}

} // verus!
