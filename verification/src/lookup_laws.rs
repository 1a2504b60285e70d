//! What holds of every lookup, whatever the replies.

use std::sync::Arc;

use vstd::prelude::*;

use crate::error::Error;
use crate::fetch::{Fetch, Source};
use crate::lookup::{
    examined, lookup_step, returned_step, role_fetched_step, role_step, role_trusted_step,
    walk_step,
};
use crate::lookup::{Examined, Frame, LookupFetch, LookupStep, LookupStore, LookupTrust, Walk};
use crate::lookup_run::{
    lookup, lookup_target, run_lookup, stepwise_lookup_is_lookup, walk_roles,
};
use crate::metadata::{
    preferred_hash, MetadataVersion, Role, SnapshotMetadata, TargetDescription, TargetsMetadata,
    Tuf,
};
use crate::path::{MetadataPath, VirtualTargetPath};
use crate::run::{
    had, lemma_orderly, lemma_stores, orderly, stores_accepted, trusted_after_replies, verifies,
    was_accepted,
};
use crate::run::{Reply, Request, World};
use crate::time::UtcTime;

verus! {

/// The fetch takes no more than `snapshot` describes: it says the length described and the
/// preferred of the hashes described.
pub open spec fn as_described(snapshot: &SnapshotMetadata, fetch: Fetch) -> bool {
    &&& snapshot.meta@.dom().contains(fetch.path@)
    &&& fetch.max_length == Some(snapshot.meta@[fetch.path@].length)
    &&& fetch.hash is Some
    &&& fetch.hash == preferred_hash(snapshot.meta@[fetch.path@].hashes@)
}

/// All fetches among the requests are as described.
pub open spec fn fetches_described(snapshot: &SnapshotMetadata, asked: Seq<Request>) -> bool {
    forall|i: int|
        0 <= i < asked.len() ==> ((#[trigger] asked[i]) matches Request::Fetch(fetch)
            ==> as_described(snapshot, fetch))
}

/// The two fetches ask the two repositories for the same metadata, the local one first.
pub open spec fn falls_back(local: Fetch, remote: Fetch) -> bool {
    &&& local.source == Source::Local
    &&& local.version == MetadataVersion::Unversioned
    &&& remote.source == Source::Remote
    &&& remote.path == local.path
    &&& remote.max_length == local.max_length
    &&& remote.hash == local.hash
}

/// If the `i`th request asks the remote repository, the one before asked the local repository for
/// the same and failed.
pub open spec fn fell_back(asked: Seq<Request>, replies: Seq<Reply>, i: int) -> bool {
    asked[i] matches Request::Fetch(remote) ==> remote.source == Source::Remote ==> {
        &&& i > 0
        &&& asked[i - 1] matches Request::Fetch(local)
        &&& falls_back(local, remote)
        &&& replies[i - 1] matches Reply::Fetched(Err(_))
    }
}

/// The remote repository is asked only after the local one was asked for the same and failed.
pub open spec fn local_first(asked: Seq<Request>, replies: Seq<Reply>) -> bool {
    forall|i: int| 0 <= i < asked.len() ==> #[trigger] fell_back(asked, replies, i)
}

/// The metadata lists the target.
pub open spec fn lists(targets: Arc<TargetsMetadata>, target: Seq<char>) -> bool {
    targets.targets@.dom().contains(target)
}

/// None of the roles lists the target.
pub open spec fn unlisted(roles: Seq<Arc<TargetsMetadata>>, target: Seq<char>) -> bool {
    forall|i: int| 0 <= i < roles.len() ==> !lists(#[trigger] roles[i], target)
}

/// The description of the target in the first of the roles that lists it.
pub open spec fn first_description(
    roles: Seq<Arc<TargetsMetadata>>,
    target: Seq<char>,
) -> Option<Arc<TargetDescription>>
    decreases roles.len(),
{
    if roles.len() == 0 {
        None
    } else if lists(roles[0], target) {
        Some(roles[0].targets@[target])
    } else {
        first_description(roles.drop_first(), target)
    }
}

/// The metadata of the delegated role that the request asked to be verified, if it was accepted
/// and lies within the depth.
pub open spec fn accepted_role(max_depth: u32, request: Request, reply: Reply) -> Option<
    Arc<TargetsMetadata>,
> {
    match (request, reply) {
        (
            Request::TrustDelegation { depth, role, .. },
            Reply::DelegationTrusted(Ok(tuf)),
        ) => if depth <= max_depth && tuf.delegations@.dom().contains(role@) {
            Some(tuf.delegations@[role@])
        } else {
            None
        },
        _ => None,
    }
}

/// The metadata of the delegated roles that were accepted and lie within the depth, in the order
/// of the walk.
pub open spec fn accepted_roles(
    max_depth: u32,
    asked: Seq<Request>,
    replies: Seq<Reply>,
) -> Seq<Arc<TargetsMetadata>>
    decreases asked.len(),
{
    if asked.len() == 0 {
        Seq::empty()
    } else {
        let before = accepted_roles(max_depth, asked.drop_last(), replies);
        if asked.len() <= replies.len() {
            match accepted_role(max_depth, asked.last(), replies[asked.len() - 1]) {
                Some(targets) => before.push(targets),
                None => before,
            }
        } else {
            before
        }
    }
}

/// The depth of each role on the way is the number of delegations that led to it, and within
/// `max_depth`.
pub open spec fn counted(frame: Frame, max_depth: u32) -> bool
    decreases frame,
{
    &&& frame.height() == frame.depth + 1
    &&& frame.depth <= max_depth
    &&& match frame.parent {
        None => true,
        Some(parent) => counted(*parent, max_depth),
    }
}

/// The walk that a step is about.
pub open spec fn step_walk(step: LookupStep) -> Option<Walk> {
    match step {
        LookupStep::Fetch(request) => Some(request.walk),
        LookupStep::Trust(request) => Some(request.walk),
        LookupStep::Store(request) => Some(request.walk),
        LookupStep::Done(_) => None,
    }
}

/// The request to verify the metadata of a delegated role.
spec fn trust_request(request: LookupTrust) -> Request {
    Request::TrustDelegation {
        depth: request.walk.frame.depth + 1,
        parent: request.walk.frame.role,
        role: request.role,
        raw: request.raw,
    }
}

/// The request of a step, if it makes one.
spec fn step_request(step: LookupStep) -> Option<Request> {
    match step {
        LookupStep::Fetch(request) => Some(Request::Fetch(request.fetch)),
        LookupStep::Trust(request) => Some(trust_request(request)),
        LookupStep::Store(request) => Some(
            Request::Store(request.role, MetadataVersion::Unversioned, request.raw),
        ),
        LookupStep::Done(_) => None,
    }
}

/// What a step that a walk leads to is like: it is no description, it stays with the target, with
/// the snapshot metadata and within the depth, and it asks the local repository for what is
/// described.
spec fn walks_well(
    max_depth: u32,
    target: VirtualTargetPath,
    snapshot: Arc<SnapshotMetadata>,
    step: LookupStep,
) -> bool {
    match step {
        LookupStep::Fetch(request) => {
            &&& request.walk.target == target
            &&& request.walk.snapshot == snapshot
            &&& counted(request.walk.frame, max_depth)
            &&& request.fetch.source == Source::Local
            &&& as_described(&snapshot, request.fetch)
            &&& request.fallback matches Some(remote)
            &&& as_described(&snapshot, remote)
            &&& falls_back(request.fetch, remote)
        },
        LookupStep::Done(result) => result is Err,
        _ => false,
    }
}

proof fn lemma_walk(max_depth: u32, consistent_snapshot: bool, walk: Walk)
    requires
        counted(walk.frame, max_depth),
    ensures
        walks_well(max_depth, walk.target, walk.snapshot, walk_step(consistent_snapshot, walk)),
    decreases walk.frame.height(), 1 + walk.frame.left(),
{
    let frame = walk.frame;
    if frame.next >= frame.targets.roles().len() {
        lemma_returned(max_depth, consistent_snapshot, walk, Error::NotFound);
    } else {
        let delegation = frame.targets.roles()[frame.next as int];
        let after = Walk { frame: frame.advanced(), ..walk };
        assert(after.frame.height() == frame.height());
        assert(counted(after.frame, max_depth));
        if let Some(roles) = frame.targets.delegations {
            assert(roles@.len() == roles.len());
        }
        match examined(&delegation, walk.target@, &walk.snapshot) {
            Examined::Skip => {
                lemma_walk(max_depth, consistent_snapshot, after);
            },
            Examined::Return(error) => {
                lemma_returned(max_depth, consistent_snapshot, after, error);
            },
            _ => {},
        }
    }
}

proof fn lemma_returned(max_depth: u32, consistent_snapshot: bool, walk: Walk, error: Error)
    requires
        counted(walk.frame, max_depth),
    ensures
        walks_well(max_depth, walk.target, walk.snapshot, returned_step(consistent_snapshot, walk, error)),
    decreases walk.frame.height(), 0nat,
{
    if let Some(parent) = walk.frame.parent {
        lemma_walk(max_depth, consistent_snapshot, Walk { frame: *parent, ..walk });
    }
}

proof fn lemma_role(
    max_depth: u32,
    consistent_snapshot: bool,
    role: MetadataPath,
    terminating: bool,
    targets: Arc<TargetsMetadata>,
    walk: Walk,
)
    requires
        counted(walk.frame, max_depth),
    ensures
        ({
            let step = role_step(
                max_depth,
                consistent_snapshot,
                role,
                terminating,
                targets,
                walk,
            );
            if walk.frame.depth < max_depth && lists(targets, walk.target@) {
                step == LookupStep::Done(Ok(targets.targets@[walk.target@]))
            } else {
                walks_well(max_depth, walk.target, walk.snapshot, step)
            }
        }),
{
    lemma_walk(max_depth, consistent_snapshot, walk);
    let frame = Frame {
        depth: (walk.frame.depth + 1) as u32,
        terminating,
        role,
        targets,
        next: 0,
        parent: Some(Box::new(walk.frame)),
    };
    if walk.frame.depth < max_depth {
        assert(counted(frame, max_depth));
        lemma_walk(max_depth, consistent_snapshot, Walk { frame, ..walk });
    }
}

/// The walk stays with the target, with the snapshot metadata and within the depth.
spec fn keeps_to(
    max_depth: u32,
    target: VirtualTargetPath,
    snapshot: Arc<SnapshotMetadata>,
    walk: Walk,
) -> bool {
    &&& walk.target == target
    &&& walk.snapshot == snapshot
    &&& counted(walk.frame, max_depth)
}

/// What a step takes for granted of the requests and replies before it.
spec fn step_fits(
    max_depth: u32,
    target: VirtualTargetPath,
    snapshot: Arc<SnapshotMetadata>,
    replies: Seq<Reply>,
    w: World,
    step: LookupStep,
) -> bool {
    match step {
        LookupStep::Fetch(request) => walks_well(max_depth, target, snapshot, step) || {
            &&& keeps_to(max_depth, target, snapshot, request.walk)
            &&& as_described(&snapshot, request.fetch)
            &&& request.fallback is None
            &&& w.asked.len() > 0
            &&& w.asked.last() matches Request::Fetch(local)
            &&& falls_back(local, request.fetch)
            &&& replies[w.asked.len() - 1] matches Reply::Fetched(Err(_))
        },
        LookupStep::Trust(request) => keeps_to(max_depth, target, snapshot, request.walk),
        LookupStep::Store(request) => keeps_to(max_depth, target, snapshot, request.walk)
            && was_accepted(w.asked, replies, request.role, request.raw),
        LookupStep::Done(_) => true,
    }
}

/// None of `roles` lists the target, up to the last one, which is `last` then.
spec fn unlisted_up_to(
    roles: Seq<Arc<TargetsMetadata>>,
    target: Seq<char>,
    last: Arc<TargetsMetadata>,
) -> bool {
    roles.len() > 0 && roles.last() == last && unlisted(roles.drop_last(), target)
}

/// What a step takes for granted of the roles walked so far: none lists the target, but for the
/// one that is just being brought in, or that gave the description.
spec fn roles_fit(
    max_depth: u32,
    target: Seq<char>,
    roles: Seq<Arc<TargetsMetadata>>,
    step: LookupStep,
) -> bool {
    match step {
        LookupStep::Store(request) => if request.walk.frame.depth < max_depth {
            unlisted_up_to(roles, target, request.targets)
        } else {
            unlisted(roles, target)
        },
        LookupStep::Done(Ok(description)) => exists|last: Arc<TargetsMetadata>| #[trigger]
            unlisted_up_to(roles, target, last) && lists(last, target) && last.targets@[target]
                == description,
        _ => unlisted(roles, target),
    }
}

/// What holds whenever a lookup that began with `tuf` trusted takes a step.
#[verifier::opaque]
spec fn lookup_fits(
    max_depth: u32,
    tuf: Tuf,
    target: VirtualTargetPath,
    snapshot: Arc<SnapshotMetadata>,
    replies: Seq<Reply>,
    w: World,
    step: LookupStep,
) -> bool {
    &&& orderly(tuf, replies, w)
    &&& fetches_described(&snapshot, w.asked)
    &&& local_first(w.asked, replies)
    &&& step_fits(max_depth, target, snapshot, replies, w, step)
    &&& roles_fit(max_depth, target@, accepted_roles(max_depth, w.asked, replies), step)
}

/// What is left to be shown of the requests made when a run ends or waits.
#[verifier::opaque]
spec fn asked_well(
    snapshot: Arc<SnapshotMetadata>,
    replies: Seq<Reply>,
    asked: Seq<Request>,
) -> bool {
    &&& stores_accepted(asked, replies)
    &&& fetches_described(&snapshot, asked)
    &&& local_first(asked, replies)
}

proof fn lemma_ask(
    max_depth: u32,
    tuf: Tuf,
    target: VirtualTargetPath,
    snapshot: Arc<SnapshotMetadata>,
    replies: Seq<Reply>,
    w: World,
    step: LookupStep,
)
    requires
        lookup_fits(max_depth, tuf, target, snapshot, replies, w, step),
        step_request(step) is Some,
    ensures
        asked_well(snapshot, replies, w.asked.push(step_request(step)->0)),
        w.tuf == trusted_after_replies(tuf, had(replies, w.ask(step_request(step)->0))),
        w.replies.len() > 0 ==> ({
            let asked = w.asked.push(step_request(step)->0);
            let before = accepted_roles(max_depth, w.asked, replies);
            accepted_roles(max_depth, asked, replies) == match accepted_role(
                max_depth,
                asked.last(),
                w.replies[0],
            ) {
                Some(targets) => before.push(targets),
                None => before,
            }
        }),
{
    reveal(lookup_fits);
    reveal(asked_well);
    let request = step_request(step)->0;
    lemma_stores(replies, w, request);
    let asked = w.asked.push(request);
    assert(asked.drop_last() =~= w.asked);
    assert forall|i: int| 0 <= i < asked.len() implies ((#[trigger] asked[i])
        matches Request::Fetch(fetch) ==> as_described(&snapshot, fetch)) by {
        if i < w.asked.len() {
            assert(asked[i] == w.asked[i]);
        }
    }
    assert forall|i: int| 0 <= i < asked.len() implies #[trigger] fell_back(asked, replies, i) by {
        if i < w.asked.len() {
            assert(fell_back(w.asked, replies, i));
        }
    }
}

proof fn lemma_fetched(
    max_depth: u32,
    tuf: Tuf,
    target: VirtualTargetPath,
    snapshot: Arc<SnapshotMetadata>,
    replies: Seq<Reply>,
    w: World,
    request: LookupFetch,
    reply: Result<Vec<u8>, Error>,
)
    requires
        lookup_fits(max_depth, tuf, target, snapshot, replies, w, LookupStep::Fetch(request)),
        w.replies.len() > 0,
        w.replies[0] == Reply::Fetched(reply),
    ensures
        lookup_fits(
            max_depth,
            tuf,
            target,
            snapshot,
            replies,
            w.ask(Request::Fetch(request.fetch)).answered(),
            role_fetched_step(w.tuf.root.consistent_snapshot, request, reply),
        ),
{
    lemma_ask(max_depth, tuf, target, snapshot, replies, w, LookupStep::Fetch(request));
    reveal(lookup_fits);
    reveal(asked_well);
    lemma_orderly(tuf, replies, w, Request::Fetch(request.fetch));
    lemma_walk(max_depth, w.tuf.root.consistent_snapshot, request.walk);
    assert(w.replies[0] == replies[w.asked.len() as int]);
}

proof fn lemma_trusted(
    max_depth: u32,
    tuf: Tuf,
    target: VirtualTargetPath,
    snapshot: Arc<SnapshotMetadata>,
    replies: Seq<Reply>,
    w: World,
    request: LookupTrust,
    reply: Result<Tuf, Error>,
)
    requires
        lookup_fits(max_depth, tuf, target, snapshot, replies, w, LookupStep::Trust(request)),
        w.replies.len() > 0,
        w.replies[0] == Reply::DelegationTrusted(reply),
        reply matches Ok(new) ==> new.delegations@.dom().contains(request.role@),
    ensures
        ({
            let asking = w.ask(trust_request(request));
            lookup_fits(
                max_depth,
                tuf,
                target,
                snapshot,
                replies,
                match reply {
                    Ok(new) => asking.answered().trusting(new),
                    Err(_) => asking.answered(),
                },
                role_trusted_step(w.tuf.root.consistent_snapshot, request, reply),
            )
        }),
{
    let asked = trust_request(request);
    lemma_ask(max_depth, tuf, target, snapshot, replies, w, LookupStep::Trust(request));
    reveal(lookup_fits);
    reveal(asked_well);
    lemma_orderly(tuf, replies, w, asked);
    lemma_walk(max_depth, w.tuf.root.consistent_snapshot, request.walk);
    assert(verifies(asked, request.role, request.raw));
}

proof fn lemma_stored(
    max_depth: u32,
    tuf: Tuf,
    target: VirtualTargetPath,
    snapshot: Arc<SnapshotMetadata>,
    replies: Seq<Reply>,
    w: World,
    request: LookupStore,
)
    requires
        lookup_fits(max_depth, tuf, target, snapshot, replies, w, LookupStep::Store(request)),
        w.replies.len() > 0,
        w.replies[0] is Stored,
    ensures
        lookup_fits(
            max_depth,
            tuf,
            target,
            snapshot,
            replies,
            w.ask(
                Request::Store(request.role, MetadataVersion::Unversioned, request.raw),
            ).answered(),
            role_step(
                max_depth,
                w.tuf.root.consistent_snapshot,
                request.role,
                request.terminating,
                request.targets,
                request.walk,
            ),
        ),
{
    let asked = Request::Store(request.role, MetadataVersion::Unversioned, request.raw);
    lemma_ask(max_depth, tuf, target, snapshot, replies, w, LookupStep::Store(request));
    reveal(lookup_fits);
    reveal(asked_well);
    lemma_orderly(tuf, replies, w, asked);
    let roles = accepted_roles(max_depth, w.asked, replies);
    assert(accepted_roles(max_depth, w.asked.push(asked), replies) == roles);
    if request.walk.frame.depth < max_depth && !lists(request.targets, target@) {
        assert forall|i: int| 0 <= i < roles.len() implies !lists(#[trigger] roles[i], target@) by {
            if i < roles.len() - 1 {
                assert(roles[i] == roles.drop_last()[i]);
            }
        }
    }
    lemma_role(
        max_depth,
        w.tuf.root.consistent_snapshot,
        request.role,
        request.terminating,
        request.targets,
        request.walk,
    );
}

proof fn lemma_lookup_run(
    max_depth: u32,
    tuf: Tuf,
    target: VirtualTargetPath,
    snapshot: Arc<SnapshotMetadata>,
    replies: Seq<Reply>,
    w: World,
    step: LookupStep,
)
    requires
        lookup_fits(max_depth, tuf, target, snapshot, replies, w, step),
    ensures
        ({
            let run = run_lookup(max_depth, w, step);
            &&& asked_well(snapshot, replies, run.world.asked)
            &&& run.world.tuf == trusted_after_replies(tuf, had(replies, run.world))
            &&& run.result matches Some(result) ==> roles_fit(
                max_depth,
                target@,
                accepted_roles(max_depth, run.world.asked, replies),
                LookupStep::Done(result),
            )
        }),
    decreases w.replies.len(),
{
    let consistent_snapshot = w.tuf.root.consistent_snapshot;
    match step {
        LookupStep::Done(_) => {
            reveal(lookup_fits);
            reveal(asked_well);
        },
        _ => {
            lemma_ask(max_depth, tuf, target, snapshot, replies, w, step);
        },
    }
    if w.replies.len() > 0 {
        match (step, w.replies[0]) {
            (LookupStep::Fetch(request), Reply::Fetched(reply)) => {
                lemma_fetched(max_depth, tuf, target, snapshot, replies, w, request, reply);
                lemma_lookup_run(
                    max_depth,
                    tuf,
                    target,
                    snapshot,
                    replies,
                    w.ask(Request::Fetch(request.fetch)).answered(),
                    role_fetched_step(consistent_snapshot, request, reply),
                );
            },
            (LookupStep::Trust(request), Reply::DelegationTrusted(reply)) => {
                let asking = w.ask(trust_request(request));
                let (next, goes_on) = match reply {
                    Ok(new) => (
                        asking.answered().trusting(new),
                        new.delegations@.dom().contains(request.role@),
                    ),
                    Err(_) => (asking.answered(), true),
                };
                if goes_on {
                    lemma_trusted(max_depth, tuf, target, snapshot, replies, w, request, reply);
                    lemma_lookup_run(
                        max_depth,
                        tuf,
                        target,
                        snapshot,
                        replies,
                        next,
                        role_trusted_step(consistent_snapshot, request, reply),
                    );
                }
            },
            (LookupStep::Store(request), Reply::Stored(_)) => {
                lemma_stored(max_depth, tuf, target, snapshot, replies, w, request);
                lemma_lookup_run(
                    max_depth,
                    tuf,
                    target,
                    snapshot,
                    replies,
                    w.ask(
                        Request::Store(request.role, MetadataVersion::Unversioned, request.raw),
                    ).answered(),
                    role_step(
                        max_depth,
                        consistent_snapshot,
                        request.role,
                        request.terminating,
                        request.targets,
                        request.walk,
                    ),
                );
            },
            _ => {},
        }
    }
}

/// The first of the roles that lists the target is the last of them, if none before does.
proof fn lemma_first(roles: Seq<Arc<TargetsMetadata>>, target: Seq<char>)
    requires
        roles.len() > 0,
        unlisted(roles.drop_last(), target),
    ensures
        first_description(roles, target) == if lists(roles.last(), target) {
            Some(roles.last().targets@[target])
        } else {
            None
        },
    decreases roles.len(),
{
    if roles.len() > 1 {
        assert(!lists(roles.drop_last()[0], target));
        let rest = roles.drop_first();
        assert forall|i: int| 0 <= i < rest.drop_last().len() implies !lists(
            #[trigger] rest.drop_last()[i],
            target,
        ) by {
            assert(rest.drop_last()[i] == roles.drop_last()[i + 1]);
        }
        lemma_first(rest, target);
    } else {
        assert(roles.drop_first().len() == 0);
        assert(first_description(roles.drop_first(), target) is None);
    }
}

/// The roles that a lookup walked, in order: the top level, then the delegated roles whose metadata
/// was accepted and that lie within the depth.
pub open spec fn walked(
    max_depth: u32,
    top: Arc<TargetsMetadata>,
    asked: Seq<Request>,
    replies: Seq<Reply>,
) -> Seq<Arc<TargetsMetadata>> {
    seq![top] + accepted_roles(max_depth, asked, replies)
}

/// The result is the description in the first of the roles that lists the target, and an error if
/// none does.
pub open spec fn finds_first(
    roles: Seq<Arc<TargetsMetadata>>,
    target: Seq<char>,
    result: Result<Arc<TargetDescription>, Error>,
) -> bool {
    match first_description(roles, target) {
        Some(description) => result == Ok::<Arc<TargetDescription>, Error>(description),
        None => result is Err,
    }
}

proof fn lemma_finds_first(
    max_depth: u32,
    target: Seq<char>,
    top: Arc<TargetsMetadata>,
    roles: Seq<Arc<TargetsMetadata>>,
    result: Result<Arc<TargetDescription>, Error>,
)
    requires
        !lists(top, target),
        roles_fit(max_depth, target, roles, LookupStep::Done(result)),
    ensures
        finds_first(seq![top] + roles, target, result),
        unlisted((seq![top] + roles).drop_last(), target),
{
    let all = seq![top] + roles;
    assert forall|i: int| 0 <= i < all.drop_last().len() implies !lists(
        #[trigger] all.drop_last()[i],
        target,
    ) by {
        if i > 0 {
            assert(all.drop_last()[i] == roles[i - 1]);
            assert(roles[i - 1] == roles.drop_last()[i - 1]);
        }
    }
    lemma_first(all, target);
    if roles.len() > 0 {
        assert(all.last() == roles.last());
    } else {
        assert(all.last() == top);
    }
}

proof fn lemma_lookup(max_depth: u32, tuf: Tuf, replies: Seq<Reply>, target: VirtualTargetPath)
    ensures
        ({
            let run = lookup_target(max_depth, World::begin(tuf, replies), target@);
            &&& run.world.tuf == trusted_after_replies(tuf, had(replies, run.world))
            &&& stores_accepted(run.world.asked, replies)
            &&& local_first(run.world.asked, replies)
            &&& match tuf.snapshot {
                Some(snapshot) => fetches_described(&snapshot, run.world.asked),
                None => run.world.asked == Seq::<Request>::empty(),
            }
            &&& run.result matches Some(result) ==> match (tuf.snapshot, tuf.targets) {
                (Some(_), Some(top)) => {
                    let roles = walked(max_depth, top, run.world.asked, replies);
                    finds_first(roles, target@, result) && unlisted(roles.drop_last(), target@)
                },
                _ => result is Err,
            }
        }),
{
    let w = World::begin(tuf, replies);
    assert(had(replies, w) =~= Seq::empty());
    assert(replies =~= replies.skip(0));
    stepwise_lookup_is_lookup(max_depth, w, target);
    let run = run_lookup(max_depth, w, lookup_step(tuf, target));
    match (tuf.snapshot, tuf.targets) {
        (Some(snapshot), Some(top)) => {
            let none = accepted_roles(max_depth, w.asked, replies);
            if lists(top, target@) {
                assert((seq![top] + none).drop_last() =~= Seq::empty());
            } else {
                let frame = Frame {
                    depth: 0,
                    terminating: false,
                    role: MetadataPath::Role(Role::Targets),
                    targets: top,
                    next: 0,
                    parent: None,
                };
                let walk = Walk { target, snapshot, frame };
                assert(counted(frame, max_depth));
                lemma_walk(max_depth, tuf.root.consistent_snapshot, walk);
                let step = lookup_step(tuf, target);
                assert(lookup_fits(max_depth, tuf, target, snapshot, replies, w, step)) by {
                    reveal(lookup_fits);
                }
                lemma_lookup_run(max_depth, tuf, target, snapshot, replies, w, step);
                reveal(asked_well);
                if let Some(result) = run.result {
                    let roles = accepted_roles(max_depth, run.world.asked, replies);
                    lemma_finds_first(max_depth, target@, top, roles, result);
                }
            }
        },
        _ => {},
    }
}

/// A lookup that ends gives the description in the first role on its walk that lists the target:
/// the top level, or a delegated role within the depth whose metadata was accepted. If none lists
/// it, the lookup fails. With the first that does the lookup ends; it walks no role behind that.
/// Without trusted snapshot and targets metadata it fails.
pub proof fn lookup_finds_what_the_first_role_lists(
    max_depth: u32,
    tuf: Tuf,
    replies: Seq<Reply>,
    target: VirtualTargetPath,
)
    ensures
        ({
            let run = lookup_target(max_depth, World::begin(tuf, replies), target@);
            run.result matches Some(result) ==> match (tuf.snapshot, tuf.targets) {
                (Some(_), Some(top)) => {
                    let roles = walked(max_depth, top, run.world.asked, replies);
                    finds_first(roles, target@, result) && unlisted(roles.drop_last(), target@)
                },
                _ => result is Err,
            }
        }),
{
    lemma_lookup(max_depth, tuf, replies, target);
}

/// A target that the top level lists is found there: the lookup makes no request and changes
/// nothing.
pub proof fn listed_target_needs_no_walk(
    max_depth: u32,
    tuf: Tuf,
    replies: Seq<Reply>,
    target: Seq<char>,
)
    requires
        tuf.snapshot is Some,
        tuf.targets matches Some(top) && lists(top, target),
    ensures
        ({
            let run = lookup_target(max_depth, World::begin(tuf, replies), target);
            let description = tuf.targets->0.targets@[target];
            &&& run.result == Some(Ok::<Arc<TargetDescription>, Error>(description))
            &&& run.world == World::begin(tuf, replies)
        }),
{
}

/// A target is found in the role that the first delegation leads to, if that covers the target, is
/// described, and is accepted and lists the target: whether it came from the local repository or,
/// that having failed, from the remote one, and whether it could be stored or not.
pub proof fn delegated_target_is_found(
    max_depth: u32,
    tuf: Tuf,
    target: Seq<char>,
    missing: Option<Error>,
    raw: Vec<u8>,
    accepted: Tuf,
    now: UtcTime,
    rest: Seq<Reply>,
)
    requires
        max_depth >= 1,
        tuf.snapshot is Some,
        tuf.targets matches Some(top) && !lists(top, target) && top.roles().len() > 0 && {
            let delegation = top.roles()[0];
            &&& examined(&delegation, target, &tuf.snapshot->0) is Ask
            &&& accepted.delegations@.dom().contains(delegation.role@)
            &&& lists(accepted.delegations@[delegation.role@], target)
        },
    ensures
        ({
            let fetched = match missing {
                None => seq![Reply::Fetched(Ok(raw))],
                Some(error) => seq![Reply::Fetched(Err(error)), Reply::Fetched(Ok(raw))],
            };
            let trusted = seq![Reply::DelegationTrusted(Ok(accepted)), Reply::Stored(now)];
            let run = lookup_target(max_depth, World::begin(tuf, fetched + trusted + rest), target);
            let role = tuf.targets->0.roles()[0].role@;
            let description = accepted.delegations@[role].targets@[target];
            &&& run.result == Some(Ok::<Arc<TargetDescription>, Error>(description))
            &&& run.world.tuf == accepted
            &&& run.world.replies == rest
        }),
{
    let trusted = seq![Reply::DelegationTrusted(Ok(accepted)), Reply::Stored(now)];
    match missing {
        None => {
            let replies = seq![Reply::Fetched(Ok(raw))] + trusted + rest;
            let second = replies.drop_first();
            let third = second.drop_first();
            assert(second[0] == Reply::DelegationTrusted(Ok(accepted)));
            assert(third[0] == Reply::Stored(now));
            assert(third.drop_first() =~= rest);
        },
        Some(error) => {
            let replies = seq![Reply::Fetched(Err(error)), Reply::Fetched(Ok(raw))] + trusted
                + rest;
            let second = replies.drop_first();
            let third = second.drop_first();
            let fourth = third.drop_first();
            assert(second[0] == Reply::Fetched(Ok(raw)));
            assert(third[0] == Reply::DelegationTrusted(Ok(accepted)));
            assert(fourth[0] == Reply::Stored(now));
            assert(fourth.drop_first() =~= rest);
        },
    }
    reveal_with_fuel(walk_roles, 2);
    reveal_with_fuel(lookup, 2);
}

/// A lookup changes the trusted metadata by accepted metadata only, whether it succeeds or fails:
/// what is trusted is always what the last verification that accepted metadata says.
pub proof fn lookup_trusts_what_was_accepted(
    max_depth: u32,
    tuf: Tuf,
    replies: Seq<Reply>,
    target: VirtualTargetPath,
)
    ensures
        ({
            let run = lookup_target(max_depth, World::begin(tuf, replies), target@);
            run.world.tuf == trusted_after_replies(tuf, had(replies, run.world))
        }),
{
    lemma_lookup(max_depth, tuf, replies, target);
}

/// A lookup stores metadata only after the same bytes were accepted as metadata of that role.
pub proof fn lookup_stores_what_was_accepted(
    max_depth: u32,
    tuf: Tuf,
    replies: Seq<Reply>,
    target: VirtualTargetPath,
)
    ensures
        stores_accepted(
            lookup_target(max_depth, World::begin(tuf, replies), target@).world.asked,
            replies,
        ),
{
    lemma_lookup(max_depth, tuf, replies, target);
}

/// A lookup asks for metadata only as the snapshot metadata that was trusted at its beginning
/// describes it, by length and hash; without snapshot metadata it makes no request at all.
pub proof fn lookup_fetches_are_described(
    max_depth: u32,
    tuf: Tuf,
    replies: Seq<Reply>,
    target: VirtualTargetPath,
)
    ensures
        ({
            let asked = lookup_target(max_depth, World::begin(tuf, replies), target@).world.asked;
            match tuf.snapshot {
                Some(snapshot) => fetches_described(&snapshot, asked),
                None => asked == Seq::<Request>::empty(),
            }
        }),
{
    lemma_lookup(max_depth, tuf, replies, target);
}

/// A lookup asks the local repository first, and the remote one only for what the local one failed
/// to give.
pub proof fn lookup_asks_local_first(
    max_depth: u32,
    tuf: Tuf,
    replies: Seq<Reply>,
    target: VirtualTargetPath,
)
    ensures
        local_first(
            lookup_target(max_depth, World::begin(tuf, replies), target@).world.asked,
            replies,
        ),
{
    lemma_lookup(max_depth, tuf, replies, target);
}

/// The walk of the step, if it has one, is no more than `max_depth` delegations deep.
pub open spec fn not_too_deep(max_depth: u32, step: LookupStep) -> bool {
    step_walk(step) matches Some(walk) ==> counted(walk.frame, max_depth)
}

/// A lookup never walks more than `max_depth` delegations deep: its first step does not, and no
/// step that follows one that does not does.
pub proof fn lookup_stays_within_depth(
    max_depth: u32,
    tuf: Tuf,
    target: VirtualTargetPath,
    fetch: LookupFetch,
    fetched: Result<Vec<u8>, Error>,
    trust: LookupTrust,
    trusted: Result<Tuf, Error>,
    store: LookupStore,
)
    ensures
        not_too_deep(max_depth, lookup_step(tuf, target)),
        counted(fetch.walk.frame, max_depth) ==> not_too_deep(
            max_depth,
            role_fetched_step(tuf.root.consistent_snapshot, fetch, fetched),
        ),
        counted(trust.walk.frame, max_depth) ==> not_too_deep(
            max_depth,
            role_trusted_step(tuf.root.consistent_snapshot, trust, trusted),
        ),
        counted(store.walk.frame, max_depth) ==> not_too_deep(
            max_depth,
            role_step(
                max_depth,
                tuf.root.consistent_snapshot,
                store.role,
                store.terminating,
                store.targets,
                store.walk,
            ),
        ),
{
    let consistent_snapshot = tuf.root.consistent_snapshot;
    match (tuf.snapshot, tuf.targets) {
        (Some(snapshot), Some(targets)) => {
            let frame = Frame {
                depth: 0,
                terminating: false,
                role: MetadataPath::Role(Role::Targets),
                targets,
                next: 0,
                parent: None,
            };
            assert(counted(frame, max_depth));
            lemma_walk(max_depth, consistent_snapshot, Walk { target, snapshot, frame });
        },
        _ => {},
    }
    if counted(fetch.walk.frame, max_depth) {
        lemma_walk(max_depth, consistent_snapshot, fetch.walk);
    }
    if counted(trust.walk.frame, max_depth) {
        lemma_walk(max_depth, consistent_snapshot, trust.walk);
    }
    if counted(store.walk.frame, max_depth) {
        lemma_role(
            max_depth,
            consistent_snapshot,
            store.role,
            store.terminating,
            store.targets,
            store.walk,
        );
    }
}

} // verus!
