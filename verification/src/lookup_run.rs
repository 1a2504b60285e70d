//! A lookup as a whole, and what holds of every one.

use std::sync::Arc;

use vstd::prelude::*;

use crate::error::Error;
use crate::fetch::Fetch;
use crate::lookup::{
    examined, failed_step, local_role_fetch, lookup_step, remote_role_fetch, returned_step,
    role_fetched_step, role_step, role_trusted_step, walk_step,
};
use crate::lookup::{Examined, Frame, LookupFetch, LookupStep, LookupStore, LookupTrust, Walk};
use crate::metadata::{
    Delegation, HashAlgorithm, HashValue, MetadataVersion, Role, SnapshotMetadata,
    TargetDescription, TargetsMetadata,
};
use crate::path::{MetadataPath, VirtualTargetPath};
use crate::run::{ask_fetch, ask_store, ask_trust_delegation, finish, follow, wait};
use crate::run::{Reply, Request, Run, World};

verus! {

/// What a lookup looks for, and by what.
pub struct Quest {
    /// The virtual path of the target.
    pub target: Seq<char>,
    /// The snapshot metadata that describes the metadata of the delegated roles.
    pub snapshot: Arc<SnapshotMetadata>,
    /// The greatest number of delegations to follow.
    pub max_depth: u32,
}

/// What the walk of a role comes to: whether it ends the lookup even if it failed, and its result.
pub type Found = (bool, Result<Arc<TargetDescription>, Error>);

/// Fetches metadata from the local repository, and from the remote one if that fails.
pub open spec fn ask_local_or_else_remote<R>(
    w: World,
    local: Fetch,
    remote: Fetch,
    next: spec_fn(World, Result<Vec<u8>, Error>) -> Run<R>,
) -> Run<R> {
    ask_fetch(
        w,
        local,
        |w: World, fetched: Result<Vec<u8>, Error>|
            match fetched {
                Ok(raw) => next(w, Ok(raw)),
                Err(_) => ask_fetch(w, remote, next),
            },
    )
}

/// Looks for a target in the metadata `targets` of the role `role` and in what it delegates to.
/// A failure ends the lookup if `terminate`.
pub open spec fn lookup(
    q: Quest,
    w: World,
    terminate: bool,
    depth: int,
    role: MetadataPath,
    targets: Arc<TargetsMetadata>,
) -> Run<Found>
    decreases q.max_depth + 1 - depth, 1nat, 0int,
{
    if depth > q.max_depth {
        finish(w, (terminate, Err(Error::NotFound)))
    } else if targets.targets@.dom().contains(q.target) {
        finish(w, (terminate, Ok(targets.targets@[q.target])))
    } else {
        walk_roles(q, w, terminate, depth, role, targets.roles(), 0)
    }
}

/// Looks for a target behind the delegations `roles` of the role `role`, from the `i`th on.
pub open spec fn walk_roles(
    q: Quest,
    w: World,
    terminate: bool,
    depth: int,
    role: MetadataPath,
    roles: Seq<Delegation>,
    i: int,
) -> Run<Found>
    decreases q.max_depth + 1 - depth, 0nat, roles.len() - i,
    when depth <= q.max_depth
{
    if i >= roles.len() {
        finish(w, (terminate, Err(Error::NotFound)))
    } else {
        let delegation = roles[i];
        match examined(&delegation, q.target, &q.snapshot) {
            Examined::Skip => walk_roles(q, w, terminate, depth, role, roles, i + 1),
            Examined::Fail(error) => finish(w, (true, Err(error))),
            Examined::Return(error) => finish(w, (false, Err(error))),
            Examined::Ask(length, hash) => ask_local_or_else_remote(
                w,
                local_role_fetch(delegation.role, length, hash),
                remote_role_fetch(w.tuf.root.consistent_snapshot, delegation.role, length, hash),
                |w: World, fetched: Result<Vec<u8>, Error>|
                    match fetched {
                        Err(error) => if delegation.terminating {
                            finish(w, (true, Err(error)))
                        } else {
                            walk_roles(q, w, terminate, depth, role, roles, i + 1)
                        },
                        Ok(raw) => ask_trust_delegation(
                            w,
                            depth + 1,
                            role,
                            delegation.role,
                            raw,
                            |w: World, trusted: Result<Arc<TargetsMetadata>, Error>|
                                match trusted {
                                    Err(error) => if delegation.terminating {
                                        finish(w, (true, Err(error)))
                                    } else {
                                        walk_roles(q, w, terminate, depth, role, roles, i + 1)
                                    },
                                    Ok(targets) => ask_store(
                                        w,
                                        delegation.role,
                                        MetadataVersion::Unversioned,
                                        raw,
                                        |w: World, now|
                                            follow(
                                                lookup(
                                                    q,
                                                    w,
                                                    delegation.terminating,
                                                    depth + 1,
                                                    delegation.role,
                                                    targets,
                                                ),
                                                |w: World, found: Found|
                                                    if found.1 is Ok || found.0 {
                                                        finish(w, found)
                                                    } else {
                                                        walk_roles(
                                                            q,
                                                            w,
                                                            terminate,
                                                            depth,
                                                            role,
                                                            roles,
                                                            i + 1,
                                                        )
                                                    },
                                            ),
                                    ),
                                },
                        ),
                    },
            ),
        }
    }
}

/// Looks up the description of `target`.
pub open spec fn lookup_target(max_depth: u32, w: World, target: Seq<char>) -> Run<
    Result<Arc<TargetDescription>, Error>,
> {
    match (w.tuf.snapshot, w.tuf.targets) {
        (None, _) => finish(w, Err(Error::MissingMetadata(Role::Snapshot))),
        (Some(_), None) => finish(w, Err(Error::MissingMetadata(Role::Targets))),
        (Some(snapshot), Some(targets)) => {
            let q = Quest { target, snapshot, max_depth };
            follow(
                lookup(q, w, false, 0, MetadataPath::Role(Role::Targets), targets),
                |w: World, found: Found| finish(w, found.1),
            )
        },
    }
}

/// Takes a lookup on from `step`, as the client does: each reply resumes it.
pub open spec fn run_lookup(max_depth: u32, w: World, step: LookupStep) -> Run<
    Result<Arc<TargetDescription>, Error>,
>
    decreases w.replies.len(),
{
    let consistent_snapshot = w.tuf.root.consistent_snapshot;
    match step {
        LookupStep::Done(result) => finish(w, result),
        LookupStep::Fetch(request) => {
            let w = w.ask(Request::Fetch(request.fetch));
            if w.replies.len() == 0 {
                wait(w)
            } else {
                match w.replies[0] {
                    Reply::Fetched(reply) => run_lookup(
                        max_depth,
                        w.answered(),
                        role_fetched_step(consistent_snapshot, request, reply),
                    ),
                    _ => wait(w),
                }
            }
        },
        LookupStep::Trust(request) => {
            let w = w.ask(
                Request::TrustDelegation {
                    depth: request.walk.frame.depth + 1,
                    parent: request.walk.frame.role,
                    role: request.role,
                    raw: request.raw,
                },
            );
            if w.replies.len() == 0 {
                wait(w)
            } else {
                match w.replies[0] {
                    Reply::DelegationTrusted(Ok(tuf)) => if tuf.delegations@.dom().contains(
                        request.role@,
                    ) {
                        run_lookup(
                            max_depth,
                            w.answered().trusting(tuf),
                            role_trusted_step(consistent_snapshot, request, Ok(tuf)),
                        )
                    } else {
                        wait(w)
                    },
                    Reply::DelegationTrusted(Err(error)) => run_lookup(
                        max_depth,
                        w.answered(),
                        role_trusted_step(consistent_snapshot, request, Err(error)),
                    ),
                    _ => wait(w),
                }
            }
        },
        LookupStep::Store(request) => {
            let w = w.ask(
                Request::Store(request.role, MetadataVersion::Unversioned, request.raw),
            );
            if w.replies.len() == 0 {
                wait(w)
            } else {
                match w.replies[0] {
                    Reply::Stored(_) => run_lookup(
                        max_depth,
                        w.answered(),
                        role_step(
                            max_depth,
                            consistent_snapshot,
                            request.role,
                            request.terminating,
                            request.targets,
                            request.walk,
                        ),
                    ),
                    _ => wait(w),
                }
            }
        },
    }
}

/// Every role on the way lies within the depth allowed.
pub open spec fn within_depth(frame: Frame, max_depth: u32) -> bool
    decreases frame,
{
    frame.depth <= max_depth && match frame.parent {
        None => true,
        Some(parent) => within_depth(*parent, max_depth),
    }
}

/// What the walk looks for.
spec fn quest(max_depth: u32, walk: Walk) -> Quest {
    Quest { target: walk.target@, snapshot: walk.snapshot, max_depth }
}

/// What is left of the lookup from where `walk` stands: the walk of its role, then, unless that
/// ends the lookup, that of the role before.
#[verifier::opaque]
spec fn rest(max_depth: u32, w: World, walk: Walk) -> Run<Result<Arc<TargetDescription>, Error>>
    decreases walk.frame.height(),
{
    follow(
        walk_roles(
            quest(max_depth, walk),
            w,
            walk.frame.terminating,
            walk.frame.depth as int,
            walk.frame.role,
            walk.frame.targets.roles(),
            walk.frame.next as int,
        ),
        |w: World, found: Found|
            match walk.frame.parent {
                None => finish(w, found.1),
                Some(parent) => if found.1 is Ok || found.0 {
                    finish(w, found.1)
                } else {
                    rest(max_depth, w, Walk { frame: *parent, ..walk })
                },
            },
    )
}

/// What is left of the lookup after the walk of a role failed without ending the lookup.
spec fn rest_returned(max_depth: u32, w: World, walk: Walk, error: Error) -> Run<
    Result<Arc<TargetDescription>, Error>,
> {
    match walk.frame.parent {
        None => finish(w, Err(error)),
        Some(parent) => rest(max_depth, w, Walk { frame: *parent, ..walk }),
    }
}

/// What is left of the lookup after bringing in the metadata of a delegated role failed.
spec fn rest_failed(
    max_depth: u32,
    w: World,
    terminating: bool,
    walk: Walk,
    error: Error,
) -> Run<Result<Arc<TargetDescription>, Error>> {
    if terminating {
        finish(w, Err(error))
    } else {
        rest(max_depth, w, walk)
    }
}

/// The walk of the role that `delegation` of `walk` leads to.
spec fn child(delegation: Delegation, targets: Arc<TargetsMetadata>, walk: Walk) -> Walk {
    let frame = Frame {
        depth: (walk.frame.depth + 1) as u32,
        terminating: delegation.terminating,
        role: delegation.role,
        targets,
        next: 0,
        parent: Some(Box::new(walk.frame)),
    };
    Walk { frame, ..walk }
}

/// What is left of the lookup after the metadata of a delegated role was brought in.
spec fn rest_with_role(
    max_depth: u32,
    w: World,
    delegation: Delegation,
    targets: Arc<TargetsMetadata>,
    walk: Walk,
) -> Run<Result<Arc<TargetDescription>, Error>> {
    if walk.frame.depth >= max_depth {
        rest_failed(max_depth, w, delegation.terminating, walk, Error::NotFound)
    } else if targets.targets@.dom().contains(walk.target@) {
        finish(w, Ok(targets.targets@[walk.target@]))
    } else {
        rest(max_depth, w, child(delegation, targets, walk))
    }
}

/// What is left of the lookup after the metadata of a delegated role was fetched.
spec fn rest_with_raw(
    max_depth: u32,
    w: World,
    delegation: Delegation,
    raw: Vec<u8>,
    walk: Walk,
) -> Run<Result<Arc<TargetDescription>, Error>> {
    ask_trust_delegation(
        w,
        walk.frame.depth + 1,
        walk.frame.role,
        delegation.role,
        raw,
        |w: World, trusted: Result<Arc<TargetsMetadata>, Error>|
            match trusted {
                Err(error) => rest_failed(max_depth, w, delegation.terminating, walk, error),
                Ok(targets) => ask_store(
                    w,
                    delegation.role,
                    MetadataVersion::Unversioned,
                    raw,
                    |w: World, now| rest_with_role(max_depth, w, delegation, targets, walk),
                ),
            },
    )
}

/// What is left of the lookup when `delegation` is taken up.
spec fn rest_taken_up(
    max_depth: u32,
    w: World,
    delegation: Delegation,
    length: usize,
    hash: (HashAlgorithm, HashValue),
    walk: Walk,
) -> Run<Result<Arc<TargetDescription>, Error>> {
    ask_local_or_else_remote(
        w,
        local_role_fetch(delegation.role, length, hash),
        remote_role_fetch(w.tuf.root.consistent_snapshot, delegation.role, length, hash),
        |w: World, fetched: Result<Vec<u8>, Error>|
            match fetched {
                Err(error) => rest_failed(max_depth, w, delegation.terminating, walk, error),
                Ok(raw) => rest_with_raw(max_depth, w, delegation, raw, walk),
            },
    )
}

/// What is left of the lookup, by what becomes of the next delegation.
spec fn rest_by_next(max_depth: u32, w: World, walk: Walk) -> Run<
    Result<Arc<TargetDescription>, Error>,
> {
    let frame = walk.frame;
    if frame.next >= frame.targets.roles().len() {
        if frame.terminating {
            finish(w, Err(Error::NotFound))
        } else {
            rest_returned(max_depth, w, walk, Error::NotFound)
        }
    } else {
        let delegation = frame.targets.roles()[frame.next as int];
        let after = Walk { frame: frame.advanced(), ..walk };
        match examined(&delegation, walk.target@, &walk.snapshot) {
            Examined::Skip => rest(max_depth, w, after),
            Examined::Fail(error) => finish(w, Err(error)),
            Examined::Return(error) => rest_returned(max_depth, w, walk, error),
            Examined::Ask(length, hash) => rest_taken_up(
                max_depth,
                w,
                delegation,
                length,
                hash,
                after,
            ),
        }
    }
}

/// The walk of a delegated role, then that of the delegating one, is what is left after the
/// metadata of the delegated role was brought in.
proof fn lemma_rest_with_role(
    max_depth: u32,
    w: World,
    delegation: Delegation,
    targets: Arc<TargetsMetadata>,
    walk: Walk,
)
    requires
        within_depth(walk.frame, max_depth),
    ensures
        ({
            let frame = walk.frame;
            let q = quest(max_depth, walk);
            follow(
                follow(
                    lookup(q, w, delegation.terminating, frame.depth + 1, delegation.role, targets),
                    |w: World, found: Found|
                        if found.1 is Ok || found.0 {
                            finish(w, found)
                        } else {
                            walk_roles(
                                q,
                                w,
                                frame.terminating,
                                frame.depth as int,
                                frame.role,
                                frame.targets.roles(),
                                frame.next as int,
                            )
                        },
                ),
                |w: World, found: Found|
                    match frame.parent {
                        None => finish(w, found.1),
                        Some(parent) => if found.1 is Ok || found.0 {
                            finish(w, found.1)
                        } else {
                            rest(max_depth, w, Walk { frame: *parent, ..walk })
                        },
                    },
            )
        }) == rest_with_role(max_depth, w, delegation, targets, walk),
{
    reveal(rest);
}

/// What is left of the lookup goes by what becomes of the next delegation.
proof fn lemma_rest(max_depth: u32, w: World, walk: Walk)
    requires
        within_depth(walk.frame, max_depth),
    ensures
        rest(max_depth, w, walk) == rest_by_next(max_depth, w, walk),
{
    let frame = walk.frame;
    let roles = frame.targets.roles();
    let after = Walk { frame: frame.advanced(), ..walk };
    if let Some(v) = frame.targets.delegations {
        assert(v@.len() == v.len());
    }
    assert(within_depth(after.frame, max_depth));
    if frame.next < roles.len() {
        let delegation = roles[frame.next as int];
        match examined(&delegation, walk.target@, &walk.snapshot) {
            Examined::Ask(length, hash) => {
                assert forall|v: World, targets: Arc<TargetsMetadata>| #[trigger]
                    rest_with_role(max_depth, v, delegation, targets, after) == follow(
                        follow(
                            lookup(
                                quest(max_depth, walk),
                                v,
                                delegation.terminating,
                                frame.depth + 1,
                                delegation.role,
                                targets,
                            ),
                            |w: World, found: Found|
                                if found.1 is Ok || found.0 {
                                    finish(w, found)
                                } else {
                                    walk_roles(
                                        quest(max_depth, walk),
                                        w,
                                        frame.terminating,
                                        frame.depth as int,
                                        frame.role,
                                        roles,
                                        frame.next + 1,
                                    )
                                },
                        ),
                        |w: World, found: Found|
                            match frame.parent {
                                None => finish(w, found.1),
                                Some(parent) => if found.1 is Ok || found.0 {
                                    finish(w, found.1)
                                } else {
                                    rest(max_depth, w, Walk { frame: *parent, ..walk })
                                },
                            },
                    ) by {
                    lemma_rest_with_role(max_depth, v, delegation, targets, after);
                }
                reveal(rest);
            },
            _ => {
                reveal(rest);
            },
        }
    } else {
        reveal(rest);
    }
}

/// A walk taken on step by step is what is left of the lookup.
proof fn lemma_walk(max_depth: u32, w: World, walk: Walk)
    requires
        within_depth(walk.frame, max_depth),
    ensures
        run_lookup(max_depth, w, walk_step(w.tuf.root.consistent_snapshot, walk)) == rest(
            max_depth,
            w,
            walk,
        ),
    decreases 2 * w.replies.len(), walk.frame.height(), 1 + walk.frame.left(),
{
    lemma_rest(max_depth, w, walk);
    let frame = walk.frame;
    let roles = frame.targets.roles();
    let after = Walk { frame: frame.advanced(), ..walk };
    assert(after.frame.height() == frame.height());
    assert(within_depth(after.frame, max_depth));
    if let Some(v) = frame.targets.delegations {
        assert(v@.len() == v.len());
    }
    if frame.next >= roles.len() {
        lemma_returned(max_depth, w, walk, Error::NotFound);
    } else {
        let delegation = roles[frame.next as int];
        match examined(&delegation, walk.target@, &walk.snapshot) {
            Examined::Skip => {
                lemma_walk(max_depth, w, after);
            },
            Examined::Fail(error) => {},
            Examined::Return(error) => {
                lemma_returned(max_depth, w, after, error);
            },
            Examined::Ask(length, hash) => {
                lemma_ask(max_depth, w, delegation, length, hash, after);
            },
        }
    }
}

proof fn lemma_returned(max_depth: u32, w: World, walk: Walk, error: Error)
    requires
        within_depth(walk.frame, max_depth),
    ensures
        run_lookup(
            max_depth,
            w,
            returned_step(w.tuf.root.consistent_snapshot, walk, error),
        ) == rest_returned(max_depth, w, walk, error),
    decreases 2 * w.replies.len(), walk.frame.height(), 0nat,
{
    if let Some(parent) = walk.frame.parent {
        lemma_walk(max_depth, w, Walk { frame: *parent, ..walk });
    }
}

proof fn lemma_role(
    max_depth: u32,
    w: World,
    delegation: Delegation,
    targets: Arc<TargetsMetadata>,
    walk: Walk,
)
    requires
        within_depth(walk.frame, max_depth),
    ensures
        run_lookup(
            max_depth,
            w,
            role_step(
                max_depth,
                w.tuf.root.consistent_snapshot,
                delegation.role,
                delegation.terminating,
                targets,
                walk,
            ),
        ) == rest_with_role(max_depth, w, delegation, targets, walk),
    decreases 2 * w.replies.len() + 1, 0nat, 0nat,
{
    lemma_walk(max_depth, w, walk);
    if walk.frame.depth < max_depth {
        assert(within_depth(child(delegation, targets, walk).frame, max_depth));
        lemma_walk(max_depth, w, child(delegation, targets, walk));
    }
}

proof fn lemma_store(
    max_depth: u32,
    w: World,
    delegation: Delegation,
    raw: Vec<u8>,
    targets: Arc<TargetsMetadata>,
    walk: Walk,
)
    requires
        within_depth(walk.frame, max_depth),
    ensures
        run_lookup(
            max_depth,
            w,
            LookupStep::Store(
                LookupStore {
                    role: delegation.role,
                    raw,
                    terminating: delegation.terminating,
                    targets,
                    walk,
                },
            ),
        ) == ask_store(
            w,
            delegation.role,
            MetadataVersion::Unversioned,
            raw,
            |w: World, now| rest_with_role(max_depth, w, delegation, targets, walk),
        ),
    decreases 2 * w.replies.len() + 1, 0nat, 0nat,
{
    let w1 = w.ask(Request::Store(delegation.role, MetadataVersion::Unversioned, raw));
    if w1.replies.len() > 0 {
        lemma_role(max_depth, w1.answered(), delegation, targets, walk);
    }
}

proof fn lemma_failed(max_depth: u32, w: World, terminating: bool, walk: Walk, error: Error)
    requires
        within_depth(walk.frame, max_depth),
    ensures
        run_lookup(
            max_depth,
            w,
            failed_step(w.tuf.root.consistent_snapshot, terminating, walk, error),
        ) == rest_failed(max_depth, w, terminating, walk, error),
    decreases 2 * w.replies.len() + 1, 0nat, 0nat,
{
    lemma_walk(max_depth, w, walk);
}

proof fn lemma_verify(
    max_depth: u32,
    w: World,
    delegation: Delegation,
    raw: Vec<u8>,
    walk: Walk,
)
    requires
        within_depth(walk.frame, max_depth),
    ensures
        run_lookup(
            max_depth,
            w,
            LookupStep::Trust(
                LookupTrust {
                    role: delegation.role,
                    raw,
                    terminating: delegation.terminating,
                    walk,
                },
            ),
        ) == rest_with_raw(max_depth, w, delegation, raw, walk),
    decreases 2 * w.replies.len() + 1, 1nat, 0nat,
{
    let w1 = w.ask(
        Request::TrustDelegation {
            depth: walk.frame.depth + 1,
            parent: walk.frame.role,
            role: delegation.role,
            raw,
        },
    );
    if w1.replies.len() > 0 {
        match w1.replies[0] {
            Reply::DelegationTrusted(Err(error)) => {
                lemma_failed(max_depth, w1.answered(), delegation.terminating, walk, error);
            },
            Reply::DelegationTrusted(Ok(tuf)) => {
                if tuf.delegations@.dom().contains(delegation.role@) {
                    lemma_store(
                        max_depth,
                        w1.answered().trusting(tuf),
                        delegation,
                        raw,
                        tuf.delegations@[delegation.role@],
                        walk,
                    );
                }
            },
            _ => {},
        }
    }
}

proof fn lemma_fetch(
    max_depth: u32,
    w: World,
    delegation: Delegation,
    fetch: Fetch,
    walk: Walk,
)
    requires
        within_depth(walk.frame, max_depth),
        fetch.path == delegation.role,
    ensures
        run_lookup(
            max_depth,
            w,
            LookupStep::Fetch(
                LookupFetch { fetch, fallback: None, terminating: delegation.terminating, walk },
            ),
        ) == ask_fetch(
            w,
            fetch,
            |w: World, fetched: Result<Vec<u8>, Error>|
                match fetched {
                    Err(error) => rest_failed(max_depth, w, delegation.terminating, walk, error),
                    Ok(raw) => rest_with_raw(max_depth, w, delegation, raw, walk),
                },
        ),
    decreases 2 * w.replies.len() + 1, 0nat, 0nat,
{
    let w1 = w.ask(Request::Fetch(fetch));
    if w1.replies.len() > 0 {
        match w1.replies[0] {
            Reply::Fetched(Ok(raw)) => {
                lemma_verify(max_depth, w1.answered(), delegation, raw, walk);
            },
            Reply::Fetched(Err(error)) => {
                lemma_failed(max_depth, w1.answered(), delegation.terminating, walk, error);
            },
            _ => {},
        }
    }
}

proof fn lemma_ask(
    max_depth: u32,
    w: World,
    delegation: Delegation,
    length: usize,
    hash: (HashAlgorithm, HashValue),
    walk: Walk,
)
    requires
        within_depth(walk.frame, max_depth),
    ensures
        run_lookup(
            max_depth,
            w,
            LookupStep::Fetch(
                LookupFetch {
                    fetch: local_role_fetch(delegation.role, length, hash),
                    fallback: Some(
                        remote_role_fetch(
                            w.tuf.root.consistent_snapshot,
                            delegation.role,
                            length,
                            hash,
                        ),
                    ),
                    terminating: delegation.terminating,
                    walk,
                },
            ),
        ) == rest_taken_up(max_depth, w, delegation, length, hash, walk),
    decreases 2 * w.replies.len(), 0nat, 0nat,
{
    let remote = remote_role_fetch(w.tuf.root.consistent_snapshot, delegation.role, length, hash);
    let w1 = w.ask(Request::Fetch(local_role_fetch(delegation.role, length, hash)));
    if w1.replies.len() > 0 {
        match w1.replies[0] {
            Reply::Fetched(Ok(raw)) => {
                lemma_verify(max_depth, w1.answered(), delegation, raw, walk);
            },
            Reply::Fetched(Err(_)) => {
                lemma_fetch(max_depth, w1.answered(), delegation, remote, walk);
            },
            _ => {},
        }
    }
}

/// A lookup taken step by step is the lookup as a whole: for every sequence of replies it makes the
/// same requests in the same order, comes to trust the same metadata, and has the same result.
pub proof fn stepwise_lookup_is_lookup(max_depth: u32, w: World, target: VirtualTargetPath)
    ensures
        run_lookup(max_depth, w, lookup_step(w.tuf, target)) == lookup_target(
            max_depth,
            w,
            target@,
        ),
{
    match (w.tuf.snapshot, w.tuf.targets) {
        (Some(snapshot), Some(targets)) => {
            let frame = Frame {
                depth: 0,
                terminating: false,
                role: MetadataPath::Role(Role::Targets),
                targets,
                next: 0,
                parent: None,
            };
            let walk = Walk { target, snapshot, frame };
            assert(within_depth(frame, max_depth));
            lemma_walk(max_depth, w, walk);
            reveal(rest);
        },
        _ => {},
    }
}

} // verus!
