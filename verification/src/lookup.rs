//! Looking up the description of a target.
//!
//! The targets metadata lists targets and delegates others to further roles, whose metadata lists
//! targets and delegates in turn. A lookup walks these delegations depth first, in their order of
//! priority, and brings in the metadata of each role on its way.
//! [`Client::fetch_target_description`] gives its first step; the `lookup_*` methods take the reply
//! to a request and give the next one.
//!
//! The first role on the walk that lists the target provides its description.

use std::sync::Arc;

use vstd::pervasive::unreached;
use vstd::prelude::*;

use crate::client::{Client, ClientView};
use crate::error::Error;
use crate::fetch::{Fetch, Source};
use crate::metadata::{hash_preference, preferred_hash, share};
use crate::metadata::{
    Delegation, HashAlgorithm, HashValue, MetadataVersion, Role, SnapshotMetadata,
    TargetDescription, TargetsMetadata, Tuf,
};
use crate::path::{hash_prefixed, in_directory, safe_path};
use crate::path::{MetadataPath, TargetPath, VirtualTargetPath};
use crate::translate::PathTranslator;

verus! {

/// A step of a lookup: a request, or the result.
#[derive(Debug)]
pub enum LookupStep {
    /// Fetch metadata; resume with [`Client::lookup_fetched`].
    Fetch(LookupFetch),
    /// Verify metadata of a delegated role; resume with [`Client::lookup_trusted`].
    Trust(LookupTrust),
    /// Store metadata in the local repository as the unversioned file; resume with
    /// [`Client::lookup_stored`].
    Store(LookupStore),
    /// The lookup is over.
    Done(Result<Arc<TargetDescription>, Error>),
}

/// The request to fetch the metadata of a delegated role.
#[derive(Debug)]
pub struct LookupFetch {
    pub fetch: Fetch,
    /// What to fetch if this cannot be had.
    pub fallback: Option<Fetch>,
    /// Whether the delegation to the role is terminating.
    pub terminating: bool,
    pub walk: Walk,
}

/// The request to verify the metadata of the delegated role `role` against the trusted metadata of
/// the role that delegates to it, which is that of `walk.frame`.
#[derive(Debug)]
pub struct LookupTrust {
    pub role: MetadataPath,
    pub raw: Vec<u8>,
    /// Whether the delegation to the role is terminating.
    pub terminating: bool,
    pub walk: Walk,
}

/// The request to store the metadata of the delegated role `role`.
#[derive(Debug)]
pub struct LookupStore {
    pub role: MetadataPath,
    pub raw: Vec<u8>,
    /// Whether the delegation to the role is terminating.
    pub terminating: bool,
    /// The trusted metadata of the role.
    pub targets: Arc<TargetsMetadata>,
    pub walk: Walk,
}

/// Where a walk of the delegations stands.
#[derive(Debug)]
pub struct Walk {
    /// The target looked for.
    pub target: VirtualTargetPath,
    /// The snapshot metadata that describes the metadata of the delegated roles.
    pub snapshot: Arc<SnapshotMetadata>,
    /// The role whose delegations are being walked.
    pub frame: Frame,
}

/// A role on the way from the top-level targets role to where a walk stands.
#[derive(Debug)]
pub struct Frame {
    /// The number of delegations that led here.
    pub depth: u32,
    /// Whether the delegation that led here is terminating.
    pub terminating: bool,
    pub role: MetadataPath,
    /// The trusted metadata of the role.
    pub targets: Arc<TargetsMetadata>,
    /// The first delegation of the role that was not taken up yet.
    pub next: usize,
    /// The role that delegates to this one.
    pub parent: Option<Box<Frame>>,
}

impl TargetsMetadata {
    /// The roles delegated to.
    pub open spec fn roles(&self) -> Seq<Delegation> {
        match self.delegations {
            Some(roles) => roles@,
            None => Seq::empty(),
        }
    }
}

impl Frame {
    /// The number of roles on the way here.
    pub open spec fn height(self) -> nat
        decreases self,
    {
        match self.parent {
            None => 1,
            Some(parent) => 1 + parent.height(),
        }
    }

    /// The number of delegations of the role that were not taken up yet.
    pub open spec fn left(self) -> nat {
        if self.next < self.targets.roles().len() {
            (self.targets.roles().len() - self.next) as nat
        } else {
            0
        }
    }

    /// The frame behind its next delegation.
    pub open spec fn advanced(self) -> Frame {
        Frame { next: (self.next + 1) as usize, ..self }
    }
}

impl Delegation {
    /// The delegation is about `target`.
    pub open spec fn spec_covers(&self, target: Seq<char>) -> bool {
        exists|i: int|
            0 <= i < self.paths@.len() && in_directory(target, #[trigger] self.paths@[i]@)
    }

    /// Whether the delegation is about `target`.
    pub fn covers(&self, target: &VirtualTargetPath) -> (r: bool)
        ensures
            r == self.spec_covers(target@),
    {
        let n: usize = self.paths.len();
        let mut i: usize = 0;
        while i < n
            invariant
                i <= n,
                n == self.paths@.len(),
                forall|j: int| 0 <= j < i ==> !in_directory(target@, #[trigger] self.paths@[j]@),
            decreases n - i,
        {
            if target.is_child(&self.paths[i]) {
                return true;
            }
            i = i + 1;
        }
        false
    }
}

/// What to make of a delegation.
pub enum Examined {
    /// It has nothing for the target: go on with the next.
    Skip,
    /// The whole lookup fails.
    Fail(Error),
    /// The walk of the delegating role fails, and that of the role before it goes on.
    Return(Error),
    /// Bring in the metadata of the role, of at most this length and with this hash.
    Ask(usize, (HashAlgorithm, HashValue)),
}

/// What to make of `delegation` when looking for `target`.
///
/// A terminating delegation that does not lead to metadata fails the lookup. So does a delegation
/// whose metadata is described without a known hash, in so far as it ends the walk of the
/// delegating role.
pub open spec fn examined(
    delegation: &Delegation,
    target: Seq<char>,
    snapshot: &SnapshotMetadata,
) -> Examined {
    if !delegation.spec_covers(target) || !snapshot.meta@.dom().contains(delegation.role@) {
        if delegation.terminating {
            Examined::Fail(Error::NotFound)
        } else {
            Examined::Skip
        }
    } else {
        let description = snapshot.meta@[delegation.role@];
        match preferred_hash(description.hashes@) {
            Some(hash) => Examined::Ask(description.length, hash),
            None => if delegation.terminating {
                Examined::Fail(Error::NoSupportedHashAlgorithm)
            } else {
                Examined::Return(Error::NoSupportedHashAlgorithm)
            },
        }
    }
}

/// Decides what to make of `delegation` when looking for `target`.
pub fn examine(
    delegation: &Delegation,
    target: &VirtualTargetPath,
    snapshot: &SnapshotMetadata,
) -> (r: Examined)
    ensures
        r == examined(delegation, target@, snapshot),
{
    let missing = if delegation.terminating {
        Examined::Fail(Error::NotFound)
    } else {
        Examined::Skip
    };
    if !delegation.covers(target) {
        return missing;
    }
    match snapshot.meta.get(delegation.role.value()) {
        None => missing,
        Some(description) => match hash_preference(&description.hashes) {
            Ok(hash) => Examined::Ask(description.length, hash),
            Err(error) => if delegation.terminating {
                Examined::Fail(error)
            } else {
                Examined::Return(error)
            },
        },
    }
}

/// The request for the metadata of a delegated role from the local repository, where it is the
/// unversioned file.
pub open spec fn local_role_fetch(
    role: MetadataPath,
    length: usize,
    hash: (HashAlgorithm, HashValue),
) -> Fetch {
    Fetch {
        source: Source::Local,
        path: role,
        version: MetadataVersion::Unversioned,
        max_length: Some(length),
        hash: Some(hash),
    }
}

/// The request for the metadata of a delegated role from the remote repository: with consistent
/// snapshots the file of its hash, without them the unversioned one.
pub open spec fn remote_role_fetch(
    consistent_snapshot: bool,
    role: MetadataPath,
    length: usize,
    hash: (HashAlgorithm, HashValue),
) -> Fetch {
    Fetch {
        source: Source::Remote,
        path: role,
        version: if consistent_snapshot {
            MetadataVersion::Hash(hash.1)
        } else {
            MetadataVersion::Unversioned
        },
        max_length: Some(length),
        hash: Some(hash),
    }
}

/// The request to fetch the file of a target from the remote repository, checked by its
/// description.
#[derive(Debug)]
pub struct TargetFetch {
    /// Where the remote repository has the file.
    pub location: TargetPath,
    /// The length and the hashes that the file must have.
    pub description: Arc<TargetDescription>,
    /// Where the local repository is to have the file.
    pub stored_as: TargetPath,
}

/// The path at which the remote repository has the file of `target`, if there is one:
/// `$HASH.FILENAME` with consistent snapshots, its own path without.
pub open spec fn remote_location(
    consistent_snapshot: bool,
    target: Seq<char>,
    description: &TargetDescription,
) -> Result<Seq<char>, Error> {
    if !consistent_snapshot {
        Ok(target)
    } else {
        match preferred_hash(description.hashes@) {
            None => Err(Error::NoSupportedHashAlgorithm),
            Some((_, value)) => Ok(hash_prefixed(target, value.hex@)),
        }
    }
}

/// The step of a walk that goes on from where it stands: it takes up the delegations of the role
/// in order, down to the first that leads to metadata. Where none is left, a terminating
/// delegation to the role fails the lookup, and behind any other the walk goes on in the role
/// before.
pub open spec fn walk_step(consistent_snapshot: bool, walk: Walk) -> LookupStep
    decreases walk.frame.height(), 1 + walk.frame.left(),
{
    let frame = walk.frame;
    if frame.next >= frame.targets.roles().len() {
        if frame.terminating {
            LookupStep::Done(Err(Error::NotFound))
        } else {
            returned_step(consistent_snapshot, walk, Error::NotFound)
        }
    } else {
        let delegation = frame.targets.roles()[frame.next as int];
        let walk = Walk { frame: frame.advanced(), ..walk };
        proof {
            assert(frame.advanced().height() == frame.height());
            if let Some(roles) = frame.targets.delegations {
                assert(roles@.len() == roles.len());
            }
        }
        match examined(&delegation, walk.target@, &walk.snapshot) {
            Examined::Skip => walk_step(consistent_snapshot, walk),
            Examined::Fail(error) => LookupStep::Done(Err(error)),
            Examined::Return(error) => returned_step(consistent_snapshot, walk, error),
            Examined::Ask(length, hash) => LookupStep::Fetch(
                LookupFetch {
                    fetch: local_role_fetch(delegation.role, length, hash),
                    fallback: Some(
                        remote_role_fetch(consistent_snapshot, delegation.role, length, hash),
                    ),
                    terminating: delegation.terminating,
                    walk,
                },
            ),
        }
    }
}

/// The step after the walk of a role failed without failing the lookup: the walk goes on in the
/// role before, and where there is none the lookup fails.
pub open spec fn returned_step(consistent_snapshot: bool, walk: Walk, error: Error) -> LookupStep
    decreases walk.frame.height(), 0nat,
{
    match walk.frame.parent {
        None => LookupStep::Done(Err(error)),
        Some(parent) => walk_step(consistent_snapshot, Walk { frame: *parent, ..walk }),
    }
}

/// The step after the metadata of a delegated role was trusted and stored: the description, if the
/// role lists the target, or else the walk of that role, unless it lies too deep.
pub open spec fn role_step(
    max_depth: u32,
    consistent_snapshot: bool,
    role: MetadataPath,
    terminating: bool,
    targets: Arc<TargetsMetadata>,
    walk: Walk,
) -> LookupStep {
    if walk.frame.depth >= max_depth {
        if terminating {
            LookupStep::Done(Err(Error::NotFound))
        } else {
            walk_step(consistent_snapshot, walk)
        }
    } else if targets.targets@.dom().contains(walk.target@) {
        LookupStep::Done(Ok(targets.targets@[walk.target@]))
    } else {
        let frame = Frame {
            depth: (walk.frame.depth + 1) as u32,
            terminating,
            role,
            targets,
            next: 0,
            parent: Some(Box::new(walk.frame)),
        };
        walk_step(consistent_snapshot, Walk { frame, ..walk })
    }
}

/// The step after bringing in the metadata of a delegated role failed: a terminating delegation
/// fails the lookup, behind any other the walk goes on.
pub open spec fn failed_step(
    consistent_snapshot: bool,
    terminating: bool,
    walk: Walk,
    error: Error,
) -> LookupStep {
    if terminating {
        LookupStep::Done(Err(error))
    } else {
        walk_step(consistent_snapshot, walk)
    }
}

/// The step after metadata of a delegated role was asked for.
pub open spec fn role_fetched_step(
    consistent_snapshot: bool,
    request: LookupFetch,
    reply: Result<Vec<u8>, Error>,
) -> LookupStep {
    match reply {
        Ok(raw) => LookupStep::Trust(
            LookupTrust {
                role: request.fetch.path,
                raw,
                terminating: request.terminating,
                walk: request.walk,
            },
        ),
        Err(error) => match request.fallback {
            Some(fetch) => LookupStep::Fetch(LookupFetch { fetch, fallback: None, ..request }),
            None => failed_step(consistent_snapshot, request.terminating, request.walk, error),
        },
    }
}

/// The step after metadata of a delegated role was to be verified.
pub open spec fn role_trusted_step(
    consistent_snapshot: bool,
    request: LookupTrust,
    reply: Result<Tuf, Error>,
) -> LookupStep {
    match reply {
        Err(error) => failed_step(consistent_snapshot, request.terminating, request.walk, error),
        Ok(tuf) => LookupStep::Store(
            LookupStore {
                role: request.role,
                raw: request.raw,
                terminating: request.terminating,
                targets: tuf.delegations@[request.role@],
                walk: request.walk,
            },
        ),
    }
}

/// The first step of a lookup of `target`.
pub open spec fn lookup_step(tuf: Tuf, target: VirtualTargetPath) -> LookupStep {
    match (tuf.snapshot, tuf.targets) {
        (None, _) => LookupStep::Done(Err(Error::MissingMetadata(Role::Snapshot))),
        (Some(_), None) => LookupStep::Done(Err(Error::MissingMetadata(Role::Targets))),
        (Some(snapshot), Some(targets)) => if targets.targets@.dom().contains(target@) {
            LookupStep::Done(Ok(targets.targets@[target@]))
        } else {
            let frame = Frame {
                depth: 0,
                terminating: false,
                role: MetadataPath::Role(Role::Targets),
                targets,
                next: 0,
                parent: None,
            };
            walk_step(tuf.root.consistent_snapshot, Walk { target, snapshot, frame })
        },
    }
}

impl<T> Client<T>
where
    T: PathTranslator,
{
    /// Begins to fetch the description of a target from the remote repository.
    pub fn fetch_target_description(&self, target: &TargetPath) -> (r: LookupStep)
        ensures
            match self@.config.path_translator.spec_real_to_virtual(target@) {
                Err(error) => r == LookupStep::Done(Err(error)),
                Ok(path) => exists|virt: VirtualTargetPath|
                    virt@ == path && r == #[trigger] lookup_step(self@.tuf, virt),
            },
    {
        match self.config().path_translator().real_to_virtual(target) {
            Err(error) => LookupStep::Done(Err(error)),
            Ok(virt) => self.lookup_target_description(virt),
        }
    }

    /// Begins to look up the description of a target by its virtual path.
    pub fn lookup_target_description(&self, target: VirtualTargetPath) -> (r: LookupStep)
        ensures
            r == lookup_step(self@.tuf, target),
    {
        let tuf = self.tuf();
        match (&tuf.snapshot, &tuf.targets) {
            (None, _) => LookupStep::Done(Err(Error::MissingMetadata(Role::Snapshot))),
            (Some(_), None) => LookupStep::Done(Err(Error::MissingMetadata(Role::Targets))),
            (Some(snapshot), Some(targets)) => {
                match targets.targets.get(target.value()) {
                    Some(description) => LookupStep::Done(Ok(share(description))),
                    None => {
                        let frame = Frame {
                            depth: 0,
                            terminating: false,
                            role: MetadataPath::from_role(&Role::Targets),
                            targets: share(targets),
                            next: 0,
                            parent: None,
                        };
                        self.walk_on(Walk { target, snapshot: share(snapshot), frame })
                    },
                }
            },
        }
    }

    /// Goes on with a walk from where it stands.
    fn walk_on(&self, start: Walk) -> (r: LookupStep)
        ensures
            r == walk_step(self@.tuf.root.consistent_snapshot, start),
    {
        let consistent_snapshot = self.tuf().root.consistent_snapshot;
        let mut walk = start;
        loop
            invariant
                consistent_snapshot == self@.tuf.root.consistent_snapshot,
                walk_step(consistent_snapshot, walk) == walk_step(consistent_snapshot, start),
            decreases walk.frame.height(), walk.frame.left(),
        {
            proof {
                reveal_with_fuel(walk_step, 2);
                reveal_with_fuel(returned_step, 2);
                reveal_with_fuel(Frame::height, 2);
            }
            let next: usize = walk.frame.next;
            let taken = match &walk.frame.targets.delegations {
                Some(roles) => if next < roles.len() {
                    let delegation = &roles[next];
                    let examined = examine(delegation, &walk.target, &*walk.snapshot);
                    Some((examined, delegation.role.clone(), delegation.terminating))
                } else {
                    None
                },
                None => None,
            };
            match taken {
                None => {
                    if walk.frame.terminating {
                        return LookupStep::Done(Err(Error::NotFound));
                    }
                    match walk.frame.parent {
                        None => {
                            return LookupStep::Done(Err(Error::NotFound));
                        },
                        Some(parent) => {
                            walk = Walk {
                                target: walk.target,
                                snapshot: walk.snapshot,
                                frame: *parent,
                            };
                        },
                    }
                },
                Some((examined, role, terminating)) => {
                    walk.frame.next = next + 1;
                    match examined {
                        Examined::Skip => {},
                        Examined::Fail(error) => {
                            return LookupStep::Done(Err(error));
                        },
                        Examined::Return(error) => match walk.frame.parent {
                            None => {
                                return LookupStep::Done(Err(error));
                            },
                            Some(parent) => {
                                walk = Walk {
                                    target: walk.target,
                                    snapshot: walk.snapshot,
                                    frame: *parent,
                                };
                            },
                        },
                        Examined::Ask(length, hash) => {
                            let version = if consistent_snapshot {
                                MetadataVersion::Hash(hash.1.clone())
                            } else {
                                MetadataVersion::Unversioned
                            };
                            let remote = Fetch {
                                source: Source::Remote,
                                path: role.clone(),
                                version,
                                max_length: Some(length),
                                hash: Some((hash.0, hash.1.clone())),
                            };
                            let local = Fetch {
                                source: Source::Local,
                                path: role,
                                version: MetadataVersion::Unversioned,
                                max_length: Some(length),
                                hash: Some(hash),
                            };
                            let fallback = Some(remote);
                            return LookupStep::Fetch(
                                LookupFetch { fetch: local, fallback, terminating, walk },
                            );
                        },
                    }
                },
            }
        }
    }

    /// Goes on after bringing in the metadata of a delegated role failed.
    fn walk_failed(&self, terminating: bool, walk: Walk, error: Error) -> (r: LookupStep)
        ensures
            r == failed_step(self@.tuf.root.consistent_snapshot, terminating, walk, error),
    {
        if terminating {
            LookupStep::Done(Err(error))
        } else {
            self.walk_on(walk)
        }
    }

    /// Resumes a lookup with the metadata of a delegated role that was asked for. What the local
    /// repository does not have is asked of the remote repository.
    pub fn lookup_fetched(&self, request: LookupFetch, reply: Result<Vec<u8>, Error>) -> (r:
        LookupStep)
        ensures
            r == role_fetched_step(self@.tuf.root.consistent_snapshot, request, reply),
    {
        match reply {
            Ok(raw) => LookupStep::Trust(
                LookupTrust {
                    role: request.fetch.path,
                    raw,
                    terminating: request.terminating,
                    walk: request.walk,
                },
            ),
            Err(error) => match request.fallback {
                Some(fetch) => LookupStep::Fetch(
                    LookupFetch {
                        fetch,
                        fallback: None,
                        terminating: request.terminating,
                        walk: request.walk,
                    },
                ),
                None => self.walk_failed(request.terminating, request.walk, error),
            },
        }
    }

    /// Resumes a lookup with the outcome of the verification: what is trusted now, the metadata of
    /// the delegated role with it, or why that was rejected.
    pub fn lookup_trusted(&mut self, request: LookupTrust, reply: Result<Tuf, Error>) -> (r:
        LookupStep)
        requires
            reply matches Ok(tuf) ==> tuf.delegations@.dom().contains(request.role@),
        ensures
            r == role_trusted_step(old(self)@.tuf.root.consistent_snapshot, request, reply),
            final(self)@ == (ClientView {
                tuf: match reply {
                    Ok(tuf) => tuf,
                    Err(_) => old(self)@.tuf,
                },
                ..old(self)@
            }),
    {
        match reply {
            Err(error) => self.walk_failed(request.terminating, request.walk, error),
            Ok(tuf) => {
                let targets = match tuf.delegations.get(request.role.value()) {
                    Some(targets) => share(targets),
                    None => unreached(),
                };
                self.trust(tuf);
                LookupStep::Store(
                    LookupStore {
                        role: request.role,
                        raw: request.raw,
                        terminating: request.terminating,
                        targets,
                        walk: request.walk,
                    },
                )
            },
        }
    }

    /// Resumes a lookup after metadata was to be stored. The local repository is a cache: that
    /// storing failed is of no consequence.
    pub fn lookup_stored(&self, request: LookupStore, _outcome: Result<(), Error>) -> (r:
        LookupStep)
        ensures
            r == role_step(
                self@.config.max_delegation_depth,
                self@.tuf.root.consistent_snapshot,
                request.role,
                request.terminating,
                request.targets,
                request.walk,
            ),
    {
        let walk = request.walk;
        let depth: u32 = walk.frame.depth;
        if depth >= self.config().max_delegation_depth() {
            return self.walk_failed(request.terminating, walk, Error::NotFound);
        }
        match request.targets.targets.get(walk.target.value()) {
            Some(description) => {
                return LookupStep::Done(Ok(share(description)));
            },
            None => {},
        }
        let frame = Frame {
            depth: depth + 1,
            terminating: request.terminating,
            role: request.role,
            targets: request.targets,
            next: 0,
            parent: Some(Box::new(walk.frame)),
        };
        self.walk_on(Walk { target: walk.target, snapshot: walk.snapshot, frame })
    }

    /// Where the remote repository has the file of a target.
    pub fn target_location(&self, target: &TargetPath, description: &TargetDescription) -> (r:
        Result<TargetPath, Error>)
        ensures
            match remote_location(self@.tuf.root.consistent_snapshot, target@, description) {
                Err(error) => r == Err::<TargetPath, Error>(error),
                Ok(path) => {
                    &&& r is Ok <==> safe_path(path)
                    &&& r matches Ok(location) ==> location@ == path
                    &&& r matches Err(error) ==> (error matches Error::IllegalPath(illegal)
                        && illegal@ == path)
                },
            },
            !self@.tuf.root.consistent_snapshot ==> r == Ok::<TargetPath, Error>(*target),
            self@.tuf.root.consistent_snapshot ==> {
                let hashes = description.hashes@;
                &&& hashes.contains_key("sha512"@) ==> (r matches Ok(location) ==> location@
                    == hash_prefixed(target@, hashes["sha512"@].hex@))
                &&& hashes.contains_key("sha512"@) ==> (r is Ok <==> safe_path(
                    hash_prefixed(target@, hashes["sha512"@].hex@),
                ))
                &&& !hashes.contains_key("sha512"@) && hashes.contains_key("sha256"@) ==> (
                r matches Ok(location) ==> location@ == hash_prefixed(
                    target@,
                    hashes["sha256"@].hex@,
                ))
                &&& !hashes.contains_key("sha512"@) && hashes.contains_key("sha256"@) ==> (r is Ok
                    <==> safe_path(hash_prefixed(target@, hashes["sha256"@].hex@)))
                &&& !hashes.contains_key("sha512"@) && !hashes.contains_key("sha256"@) <==> r
                    == Err::<TargetPath, Error>(Error::NoSupportedHashAlgorithm)
            },
    {
        if self.tuf().root.consistent_snapshot {
            match hash_preference(&description.hashes) {
                Err(error) => Err(error),
                Ok((_, value)) => target.with_hash_prefix(&value),
            }
        } else {
            Ok(target.clone())
        }
    }

    /// Goes on from the lookup of a target to its file. The file is fetched from the remote
    /// repository, checked by the description found, and stored locally under the path of the
    /// target itself.
    pub fn fetch_target(
        &self,
        target: &TargetPath,
        found: Result<Arc<TargetDescription>, Error>,
    ) -> (r: Result<TargetFetch, Error>)
        ensures
            match found {
                Err(error) => r == Err::<TargetFetch, Error>(error),
                Ok(description) => match remote_location(
                    self@.tuf.root.consistent_snapshot,
                    target@,
                    &description,
                ) {
                    Err(error) => r == Err::<TargetFetch, Error>(error),
                    Ok(path) => {
                        &&& r is Ok <==> safe_path(path)
                        &&& r matches Ok(fetch) ==> {
                            &&& fetch.location@ == path
                            &&& fetch.description == description
                            &&& fetch.stored_as == *target
                        }
                        &&& r matches Err(error) ==> (error matches Error::IllegalPath(illegal)
                            && illegal@ == path)
                    },
                },
            },
            !self@.tuf.root.consistent_snapshot ==> (found matches Ok(description) ==> (
            r matches Ok(fetch) && fetch.location == *target)),
            self@.tuf.root.consistent_snapshot ==> (found matches Ok(description) ==> {
                let hashes = description.hashes@;
                &&& hashes.contains_key("sha512"@) ==> (r matches Ok(fetch) ==> fetch.location@
                    == hash_prefixed(target@, hashes["sha512"@].hex@))
                &&& !hashes.contains_key("sha512"@) && hashes.contains_key("sha256"@) ==> (
                r matches Ok(fetch) ==> fetch.location@ == hash_prefixed(
                    target@,
                    hashes["sha256"@].hex@,
                ))
                &&& !hashes.contains_key("sha512"@) && !hashes.contains_key("sha256"@) <==> r
                    == Err::<TargetFetch, Error>(Error::NoSupportedHashAlgorithm)
            }),
    {
        match found {
            Err(error) => Err(error),
            Ok(description) => match self.target_location(target, &description) {
                Err(error) => Err(error),
                Ok(location) => Ok(
                    TargetFetch { location, description, stored_as: target.clone() },
                ),
            },
        }
    }
}

} // verus!
