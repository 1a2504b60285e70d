//! How a lookup walks the delegations, one by one.

use std::sync::Arc;

use vstd::prelude::*;

use crate::error::Error;
use crate::fetch::{Fetch, Source};
use crate::lookup::{examined, Examined};
use crate::lookup_run::{lookup, lookup_target, walk_roles, Found, Quest};
use crate::metadata::{
    Delegation, HashAlgorithm, HashValue, MetadataDescription, MetadataVersion, Role,
    SnapshotMetadata, TargetDescription, TargetsMetadata, Tuf,
};
use crate::path::{in_directory, MetadataPath};
use crate::run::{Reply, Request, World};
use crate::skip_laws::{lemma_by_one, lemma_reached, lemma_same_before, reached, taken_up};

verus! {

/// One of the paths of the delegation is a directory, written with a `/` at its end, that the target
/// lies in.
pub open spec fn covered(delegation: Delegation, target: Seq<char>) -> bool {
    exists|j: int|
        #![trigger delegation.paths@[j]]
        0 <= j < delegation.paths@.len() && delegation.paths@[j]@.len() > 0
            && delegation.paths@[j]@.last() == '/' && delegation.paths@[j]@.is_prefix_of(target)
}

/// A SHA-512 or a SHA-256 hash is listed.
pub open spec fn has_known_hash(description: MetadataDescription) -> bool {
    description.hashes@.contains_key("sha512"@) || description.hashes@.contains_key("sha256"@)
}

/// The hash is the SHA-512 hash listed, or, where there is none, the SHA-256 hash.
pub open spec fn strongest_hash(
    description: MetadataDescription,
    hash: (HashAlgorithm, HashValue),
) -> bool {
    if description.hashes@.contains_key("sha512"@) {
        hash == (HashAlgorithm::Sha512, description.hashes@["sha512"@])
    } else {
        hash == (HashAlgorithm::Sha256, description.hashes@["sha256"@])
    }
}

/// The delegation leads to metadata that can be asked for: it covers the target, and the snapshot
/// metadata describes its role with a known hash.
pub open spec fn can_be_asked_for(q: Quest, delegation: Delegation) -> bool {
    &&& covered(delegation, q.target)
    &&& q.snapshot.meta@.contains_key(delegation.role@)
    &&& has_known_hash(q.snapshot.meta@[delegation.role@])
}

/// The world after the metadata of the delegated role was asked for in `w`: of the local repository,
/// where it is the unversioned file, and, if that failed (`missing`), of the remote repository, where
/// it is the file of its hash just with consistent snapshots. Both requests have the length listed
/// and this hash.
pub open spec fn after_fetching(
    q: Quest,
    w: World,
    delegation: Delegation,
    hash: (HashAlgorithm, HashValue),
    missing: bool,
) -> World {
    let length = q.snapshot.meta@[delegation.role@].length;
    let local = Fetch {
        source: Source::Local,
        path: delegation.role,
        version: MetadataVersion::Unversioned,
        max_length: Some(length),
        hash: Some(hash),
    };
    let remote = Fetch {
        source: Source::Remote,
        path: delegation.role,
        version: if w.tuf.root.consistent_snapshot {
            MetadataVersion::Hash(hash.1)
        } else {
            MetadataVersion::Unversioned
        },
        max_length: Some(length),
        hash: Some(hash),
    };
    if missing {
        World {
            asked: w.asked.push(Request::Fetch(local)).push(Request::Fetch(remote)),
            tuf: w.tuf,
            replies: w.replies.skip(2),
        }
    } else {
        World { asked: w.asked.push(Request::Fetch(local)), tuf: w.tuf, replies: w.replies.skip(1) }
    }
}

/// The replies give the metadata `raw`: the local repository has it, or, if not (`missing`), the
/// remote one.
pub open spec fn fetches(replies: Seq<Reply>, missing: bool, raw: Vec<u8>) -> bool {
    if missing {
        &&& replies.len() >= 2
        &&& replies[0] matches Reply::Fetched(Err(_))
        &&& replies[1] == Reply::Fetched(Ok(raw))
    } else {
        &&& replies.len() >= 1
        &&& replies[0] == Reply::Fetched(Ok(raw))
    }
}

/// A delegation is about exactly the targets that lie in one of its directories.
pub proof fn delegation_is_about_what_lies_in_its_directories(
    delegation: Delegation,
    target: Seq<char>,
)
    ensures
        delegation.spec_covers(target) <==> exists|j: int|
            #![trigger delegation.paths@[j]]
            0 <= j < delegation.paths@.len() && delegation.paths@[j]@.len() > 0
                && delegation.paths@[j]@.last() == '/' && delegation.paths@[j]@.is_prefix_of(
                target,
            ),
{
    lemma_covered(delegation, target);
}

/// What is made of a delegation: where it does not cover the target, or its role is not described,
/// it is passed over, or fails the lookup if it is terminating. Where no known hash is described, it
/// ends the walk, and fails the lookup if it is terminating. Otherwise its metadata is brought in, by
/// the length and the strongest hash described.
pub proof fn delegation_is_examined(
    delegation: Delegation,
    target: Seq<char>,
    snapshot: &SnapshotMetadata,
)
    ensures
        ({
            let result = examined(&delegation, target, snapshot);
            let description = snapshot.meta@[delegation.role@];
            if !covered(delegation, target) || !snapshot.meta@.contains_key(delegation.role@) {
                &&& delegation.terminating ==> result == Examined::Fail(Error::NotFound)
                &&& !delegation.terminating ==> result == Examined::Skip
            } else if !has_known_hash(description) {
                let error = Error::NoSupportedHashAlgorithm;
                &&& delegation.terminating ==> result == Examined::Fail(error)
                &&& !delegation.terminating ==> result == Examined::Return(error)
            } else {
                &&& result matches Examined::Ask(length, hash)
                &&& length == description.length
                &&& strongest_hash(description, hash)
            }
        }),
{
    lemma_covered(delegation, target);
}

proof fn lemma_covered(delegation: Delegation, target: Seq<char>)
    ensures
        delegation.spec_covers(target) == covered(delegation, target),
{
    if covered(delegation, target) {
        let j = choose|j: int|
            #![trigger delegation.paths@[j]]
            0 <= j < delegation.paths@.len() && delegation.paths@[j]@.len() > 0
                && delegation.paths@[j]@.last() == '/' && delegation.paths@[j]@.is_prefix_of(target);
        assert(in_directory(target, delegation.paths@[j]@));
    }
}

/// Behind the last delegation the target is not found; that ends the lookup just if the delegation
/// to the role is terminating.
pub proof fn walk_ends_behind_the_last_delegation(
    q: Quest,
    w: World,
    terminate: bool,
    depth: int,
    role: MetadataPath,
    roles: Seq<Delegation>,
    i: int,
)
    requires
        depth <= q.max_depth,
        i >= roles.len(),
    ensures
        ({
            let run = walk_roles(q, w, terminate, depth, role, roles, i);
            let not_found = Err::<Arc<TargetDescription>, Error>(Error::NotFound);
            run.world == w && run.result == Some((terminate, not_found))
        }),
{
}

/// A delegation that does not cover the target, or whose role is not described, is passed over
/// without a request, unless it is terminating: then the lookup ends, and nothing is found.
pub proof fn delegation_beside_the_target_is_passed_over(
    q: Quest,
    w: World,
    terminate: bool,
    depth: int,
    role: MetadataPath,
    roles: Seq<Delegation>,
    i: int,
)
    requires
        depth <= q.max_depth,
        0 <= i < roles.len(),
        !covered(roles[i], q.target) || !q.snapshot.meta@.contains_key(roles[i].role@),
    ensures
        ({
            let run = walk_roles(q, w, terminate, depth, role, roles, i);
            let not_found = Err::<Arc<TargetDescription>, Error>(Error::NotFound);
            &&& !roles[i].terminating ==> run == walk_roles(
                q,
                w,
                terminate,
                depth,
                role,
                roles,
                i + 1,
            )
            &&& roles[i].terminating ==> run.world == w && run.result == Some((true, not_found))
        }),
{
    lemma_covered(roles[i], q.target);
}

/// A delegation that covers the target and is described without a known hash ends the walk of the
/// role without a request. It ends the lookup just if it is terminating.
pub proof fn delegation_without_a_known_hash_ends_the_walk(
    q: Quest,
    w: World,
    terminate: bool,
    depth: int,
    role: MetadataPath,
    roles: Seq<Delegation>,
    i: int,
)
    requires
        depth <= q.max_depth,
        0 <= i < roles.len(),
        covered(roles[i], q.target),
        q.snapshot.meta@.contains_key(roles[i].role@),
        !has_known_hash(q.snapshot.meta@[roles[i].role@]),
    ensures
        ({
            let run = walk_roles(q, w, terminate, depth, role, roles, i);
            let error = Err::<Arc<TargetDescription>, Error>(Error::NoSupportedHashAlgorithm);
            run.world == w && run.result == Some((roles[i].terminating, error))
        }),
{
    lemma_covered(roles[i], q.target);
}

/// A delegation whose metadata neither repository gives is passed over, unless it is terminating:
/// then the lookup ends with the error of the remote repository.
pub proof fn delegation_that_cannot_be_fetched_is_passed_over(
    q: Quest,
    w: World,
    terminate: bool,
    depth: int,
    role: MetadataPath,
    roles: Seq<Delegation>,
    i: int,
    hash: (HashAlgorithm, HashValue),
    local_error: Error,
    error: Error,
)
    requires
        depth <= q.max_depth,
        0 <= i < roles.len(),
        can_be_asked_for(q, roles[i]),
        strongest_hash(q.snapshot.meta@[roles[i].role@], hash),
        w.replies.len() >= 2,
        w.replies[0] == Reply::Fetched(Err(local_error)),
        w.replies[1] == Reply::Fetched(Err(error)),
    ensures
        ({
            let run = walk_roles(q, w, terminate, depth, role, roles, i);
            let after = after_fetching(q, w, roles[i], hash, true);
            &&& !roles[i].terminating ==> run == walk_roles(
                q,
                after,
                terminate,
                depth,
                role,
                roles,
                i + 1,
            )
            &&& roles[i].terminating ==> run.world == after && run.result == Some(
                (true, Err::<Arc<TargetDescription>, Error>(error)),
            )
        }),
{
    lemma_covered(roles[i], q.target);
    lemma_by_one(q, w, terminate, depth, role, roles, i);
    assert(w.replies.drop_first()[0] == w.replies[1]);
    assert(w.replies.drop_first().drop_first() =~= w.replies.skip(2));
}

/// A delegation whose metadata is rejected is passed over, unless it is terminating: then the lookup
/// ends with the error of the verification. The metadata was verified against that of the role that
/// delegates.
pub proof fn delegation_that_is_rejected_is_passed_over(
    q: Quest,
    w: World,
    terminate: bool,
    depth: int,
    role: MetadataPath,
    roles: Seq<Delegation>,
    i: int,
    hash: (HashAlgorithm, HashValue),
    missing: bool,
    raw: Vec<u8>,
    error: Error,
)
    requires
        depth <= q.max_depth,
        0 <= i < roles.len(),
        can_be_asked_for(q, roles[i]),
        strongest_hash(q.snapshot.meta@[roles[i].role@], hash),
        fetches(w.replies, missing, raw),
        ({
            let fetched = after_fetching(q, w, roles[i], hash, missing);
            &&& fetched.replies.len() > 0
            &&& fetched.replies[0] == Reply::DelegationTrusted(Err(error))
        }),
    ensures
        ({
            let run = walk_roles(q, w, terminate, depth, role, roles, i);
            let fetched = after_fetching(q, w, roles[i], hash, missing);
            let verify = Request::TrustDelegation {
                depth: depth + 1,
                parent: role,
                role: roles[i].role,
                raw,
            };
            let after = World {
                asked: fetched.asked.push(verify),
                tuf: w.tuf,
                replies: fetched.replies.skip(1),
            };
            &&& !roles[i].terminating ==> run == walk_roles(
                q,
                after,
                terminate,
                depth,
                role,
                roles,
                i + 1,
            )
            &&& roles[i].terminating ==> run.world == after && run.result == Some(
                (true, Err::<Arc<TargetDescription>, Error>(error)),
            )
        }),
{
    lemma_covered(roles[i], q.target);
    lemma_by_one(q, w, terminate, depth, role, roles, i);
    let first = w.replies.drop_first();
    assert(first =~= w.replies.skip(1));
    if missing {
        assert(first[0] == w.replies[1]);
        assert(first.drop_first() =~= w.replies.skip(2));
    }
    let fetched = after_fetching(q, w, roles[i], hash, missing);
    assert(fetched.replies.drop_first() =~= fetched.replies.skip(1));
}

/// The world after the metadata of the delegated role was fetched, accepted and stored, so that
/// `tuf` is trusted: it was verified against that of the role that delegates, and stored as the
/// unversioned file.
pub open spec fn after_accepting(
    q: Quest,
    w: World,
    depth: int,
    role: MetadataPath,
    delegation: Delegation,
    hash: (HashAlgorithm, HashValue),
    missing: bool,
    raw: Vec<u8>,
    tuf: Tuf,
) -> World {
    let fetched = after_fetching(q, w, delegation, hash, missing);
    let verify = Request::TrustDelegation {
        depth: depth + 1,
        parent: role,
        role: delegation.role,
        raw,
    };
    let store = Request::Store(delegation.role, MetadataVersion::Unversioned, raw);
    World {
        asked: fetched.asked.push(verify).push(store),
        tuf,
        replies: fetched.replies.skip(2),
    }
}

/// The replies behind those to the fetches say that the metadata was accepted, so that `tuf` is
/// trusted, the role with it, and that the attempt to store it is over.
pub open spec fn accepts(
    q: Quest,
    w: World,
    delegation: Delegation,
    hash: (HashAlgorithm, HashValue),
    missing: bool,
    raw: Vec<u8>,
    tuf: Tuf,
) -> bool {
    let fetched = after_fetching(q, w, delegation, hash, missing);
    &&& can_be_asked_for(q, delegation)
    &&& strongest_hash(q.snapshot.meta@[delegation.role@], hash)
    &&& fetches(w.replies, missing, raw)
    &&& fetched.replies.len() >= 2
    &&& fetched.replies[0] == Reply::DelegationTrusted(Ok(tuf))
    &&& tuf.delegations@.contains_key(delegation.role@)
    &&& fetched.replies[1] is Stored
}

/// A delegated role whose metadata was accepted is looked up in turn, one level deeper. What is
/// found there is what the walk finds. A failure there that ends the lookup ends this walk too, with
/// the same error; behind any other failure the next delegation is taken up.
pub proof fn accepted_role_is_looked_up(
    q: Quest,
    w: World,
    terminate: bool,
    depth: int,
    role: MetadataPath,
    roles: Seq<Delegation>,
    i: int,
    hash: (HashAlgorithm, HashValue),
    missing: bool,
    raw: Vec<u8>,
    tuf: Tuf,
)
    requires
        depth <= q.max_depth,
        0 <= i < roles.len(),
        accepts(q, w, roles[i], hash, missing, raw, tuf),
    ensures
        ({
            let run = walk_roles(q, w, terminate, depth, role, roles, i);
            let child = lookup(
                q,
                after_accepting(q, w, depth, role, roles[i], hash, missing, raw, tuf),
                roles[i].terminating,
                depth + 1,
                roles[i].role,
                tuf.delegations@[roles[i].role@],
            );
            &&& child.result is None ==> run.result is None && run.world == child.world
            &&& child.result matches Some((_, Ok(description))) ==> run.world == child.world && (
            run.result matches Some((_, Ok(found))) && found == description)
            &&& child.result matches Some((true, Err(error))) ==> run.world == child.world
                && run.result == Some((true, Err::<Arc<TargetDescription>, Error>(error)))
            &&& child.result matches Some((false, Err(_))) ==> run == walk_roles(
                q,
                child.world,
                terminate,
                depth,
                role,
                roles,
                i + 1,
            )
        }),
{
    lemma_covered(roles[i], q.target);
    lemma_by_one(q, w, terminate, depth, role, roles, i);
    let first = w.replies.drop_first();
    assert(first =~= w.replies.skip(1));
    if missing {
        assert(first[0] == w.replies[1]);
        assert(first.drop_first() =~= w.replies.skip(2));
    }
    let fetched = after_fetching(q, w, roles[i], hash, missing);
    assert(fetched.replies.drop_first()[0] == fetched.replies[1]);
    assert(fetched.replies.drop_first().drop_first() =~= fetched.replies.skip(2));
}

/// A role within the depth that lists the target gives the description, and one that does not is
/// walked from its first delegation on; a role beyond the depth is not looked in at all. No request
/// is made for that.
pub proof fn role_is_looked_in(
    q: Quest,
    w: World,
    terminate: bool,
    depth: int,
    role: MetadataPath,
    targets: Arc<TargetsMetadata>,
)
    ensures
        ({
            let run = lookup(q, w, terminate, depth, role, targets);
            let not_found = Err::<Arc<TargetDescription>, Error>(Error::NotFound);
            let lists = targets.targets@.contains_key(q.target);
            &&& depth > q.max_depth ==> run.world == w && run.result == Some(
                (terminate, not_found),
            )
            &&& depth <= q.max_depth && lists ==> run.world == w && run.result == Some(
                (terminate, Ok::<Arc<TargetDescription>, Error>(targets.targets@[q.target])),
            )
            &&& depth <= q.max_depth && !lists ==> match targets.delegations {
                Some(roles) => run == walk_roles(q, w, terminate, depth, role, roles@, 0),
                None => run.world == w && run.result == Some((terminate, not_found)),
            }
        }),
{
}

/// A lookup needs trusted snapshot and targets metadata, in this order; it looks in the top-level
/// targets role, at depth zero, and its result is what comes of that.
pub proof fn lookup_begins_at_the_top(max_depth: u32, w: World, target: Seq<char>)
    ensures
        ({
            let run = lookup_target(max_depth, w, target);
            &&& w.tuf.snapshot is None ==> run.world == w && run.result == Some(
                Err::<Arc<TargetDescription>, Error>(Error::MissingMetadata(Role::Snapshot)),
            )
            &&& w.tuf.snapshot is Some && w.tuf.targets is None ==> run.world == w && run.result
                == Some(Err::<Arc<TargetDescription>, Error>(Error::MissingMetadata(Role::Targets)))
            &&& w.tuf.snapshot is Some && w.tuf.targets is Some ==> {
                let q = Quest { target, snapshot: w.tuf.snapshot->0, max_depth };
                let root = MetadataPath::Role(Role::Targets);
                let top = lookup(q, w, false, 0, root, w.tuf.targets->0);
                &&& run.world == top.world
                &&& top.result matches Some((_, result)) ==> run.result == Some(result)
                &&& top.result is None ==> run.result is None
            }
        }),
{
}

/// Every role that the snapshot metadata describes is described with a known hash.
pub open spec fn all_hashes_known(snapshot: &SnapshotMetadata) -> bool {
    forall|role: Seq<char>| #[trigger]
        snapshot.meta@.contains_key(role) ==> has_known_hash(snapshot.meta@[role])
}

proof fn lemma_lookup_ends(
    q: Quest,
    w: World,
    depth: int,
    role: MetadataPath,
    targets: Arc<TargetsMetadata>,
)
    ensures
        lookup(q, w, true, depth, role, targets).result matches Some((false, result)) ==> (result
            == Err::<Arc<TargetDescription>, Error>(Error::NoSupportedHashAlgorithm)
            && !all_hashes_known(&q.snapshot)) || result is Ok,
{
    if depth <= q.max_depth && !targets.targets@.dom().contains(q.target) {
        lemma_walk_ends(q, w, depth, role, targets.roles(), 0);
    }
}

proof fn lemma_walk_ends(
    q: Quest,
    w: World,
    depth: int,
    role: MetadataPath,
    roles: Seq<Delegation>,
    i: int,
)
    requires
        depth <= q.max_depth,
        0 <= i,
    ensures
        walk_roles(q, w, true, depth, role, roles, i).result matches Some((false, result)) ==> (
        result == Err::<Arc<TargetDescription>, Error>(Error::NoSupportedHashAlgorithm)
            && !all_hashes_known(&q.snapshot)) || result is Ok,
    decreases roles.len() - i,
{
    if i < roles.len() {
        lemma_by_one(q, w, true, depth, role, roles, i);
        let one = taken_up(q, w, depth, role, roles[i]);
        lemma_covered(roles[i], q.target);
        if one.result == Some(None::<Found>) {
            lemma_walk_ends(q, one.world, depth, role, roles, i + 1);
        }
    }
}

proof fn lemma_terminating_ends(
    q: Quest,
    w: World,
    depth: int,
    role: MetadataPath,
    delegation: Delegation,
)
    requires
        delegation.terminating,
        all_hashes_known(&q.snapshot),
    ensures
        taken_up(q, w, depth, role, delegation).result != Some(None::<Found>),
{
    assert forall|v: World, targets: Arc<TargetsMetadata>|
        !((#[trigger] lookup(
            q,
            v,
            delegation.terminating,
            depth + 1,
            delegation.role,
            targets,
        )).result matches Some((false, Err(_)))) by {
        lemma_lookup_ends(q, v, depth + 1, delegation.role, targets);
    }
}

/// A failure in a role that a terminating delegation leads to ends the lookup: the walk of the
/// delegating role ends with the same error. The one exception is a delegation there that is not
/// terminating and is described without a known hash.
pub proof fn failure_behind_a_terminating_delegation_ends_the_lookup(
    q: Quest,
    w: World,
    depth: int,
    role: MetadataPath,
    targets: Arc<TargetsMetadata>,
    error: Error,
)
    requires
        lookup(q, w, true, depth, role, targets).result matches Some((_, Err(e))) && e == error,
        error != Error::NoSupportedHashAlgorithm || all_hashes_known(&q.snapshot),
    ensures
        lookup(q, w, true, depth, role, targets).result == Some(
            (true, Err::<Arc<TargetDescription>, Error>(error)),
        ),
{
    lemma_lookup_ends(q, w, depth, role, targets);
}

/// Nothing behind a terminating delegation is looked at: a role is looked up just as if its
/// delegations ended with the first terminating one, with the same requests and the same result.
/// (Where the snapshot metadata describes a role without a known hash, that role can end the walk of
/// its delegating role before; that is left out here.)
pub proof fn terminating_delegation_hides_all_behind_it(
    q: Quest,
    w: World,
    terminate: bool,
    depth: int,
    role: MetadataPath,
    targets: Arc<TargetsMetadata>,
    cut: Arc<TargetsMetadata>,
    k: int,
)
    requires
        all_hashes_known(&q.snapshot),
        targets.delegations is Some,
        cut.delegations is Some,
        0 <= k < targets.delegations->0@.len(),
        targets.delegations->0@[k].terminating,
        cut.delegations->0@ == targets.delegations->0@.take(k + 1),
        cut.targets@ == targets.targets@,
    ensures
        lookup(q, w, terminate, depth, role, cut) == lookup(q, w, terminate, depth, role, targets),
{
    if depth <= q.max_depth && !targets.targets@.dom().contains(q.target) {
        let roles = targets.delegations->0@;
        let others = roles.take(k + 1);
        assert(roles.take(k) =~= others.take(k));
        lemma_same_before(q, w, terminate, depth, role, roles, others, 0, k);
        if let Some(v) = reached(q, w, depth, role, roles, 0, k) {
            lemma_reached(q, w, terminate, depth, role, roles, 0, k);
            lemma_reached(q, w, terminate, depth, role, others, 0, k);
            lemma_by_one(q, v, terminate, depth, role, roles, k);
            lemma_by_one(q, v, terminate, depth, role, others, k);
            lemma_terminating_ends(q, v, depth, role, roles[k]);
        }
    }
}

/// A terminating delegation to a role that does not have the target ends the lookup: where its
/// metadata was accepted, does not list the target and delegates to no one, nothing is found, and
/// no request is made for any delegation behind it.
pub proof fn terminating_role_without_the_target_ends_the_lookup(
    q: Quest,
    w: World,
    terminate: bool,
    depth: int,
    role: MetadataPath,
    roles: Seq<Delegation>,
    i: int,
    hash: (HashAlgorithm, HashValue),
    missing: bool,
    raw: Vec<u8>,
    tuf: Tuf,
)
    requires
        depth <= q.max_depth,
        0 <= i < roles.len(),
        roles[i].terminating,
        accepts(q, w, roles[i], hash, missing, raw, tuf),
        ({
            let targets = tuf.delegations@[roles[i].role@];
            &&& !targets.targets@.contains_key(q.target)
            &&& targets.delegations matches Some(delegations) ==> delegations@.len() == 0
        }),
    ensures
        ({
            let run = walk_roles(q, w, terminate, depth, role, roles, i);
            let not_found = Err::<Arc<TargetDescription>, Error>(Error::NotFound);
            &&& run.result == Some((true, not_found))
            &&& run.world == after_accepting(
                q,
                w,
                depth,
                role,
                roles[i],
                hash,
                missing,
                raw,
                tuf,
            )
        }),
{
    accepted_role_is_looked_up(
        q,
        w,
        terminate,
        depth,
        role,
        roles,
        i,
        hash,
        missing,
        raw,
        tuf,
    );
    let after = after_accepting(q, w, depth, role, roles[i], hash, missing, raw, tuf);
    let targets = tuf.delegations@[roles[i].role@];
    role_is_looked_in(q, after, true, depth + 1, roles[i].role, targets);
    if depth + 1 <= q.max_depth {
        if let Some(delegations) = targets.delegations {
            walk_ends_behind_the_last_delegation(
                q,
                after,
                true,
                depth + 1,
                roles[i].role,
                delegations@,
                0,
            );
        }
    }
}

/// A delegated role within the depth whose metadata was accepted and lists the target gives the
/// description, at whatever depth, and ends the walk: no request is made for any delegation behind
/// it.
pub proof fn accepted_role_that_lists_the_target_gives_the_description(
    q: Quest,
    w: World,
    terminate: bool,
    depth: int,
    role: MetadataPath,
    roles: Seq<Delegation>,
    i: int,
    hash: (HashAlgorithm, HashValue),
    missing: bool,
    raw: Vec<u8>,
    tuf: Tuf,
)
    requires
        depth < q.max_depth,
        0 <= i < roles.len(),
        accepts(q, w, roles[i], hash, missing, raw, tuf),
        tuf.delegations@[roles[i].role@].targets@.contains_key(q.target),
    ensures
        ({
            let run = walk_roles(q, w, terminate, depth, role, roles, i);
            let description = tuf.delegations@[roles[i].role@].targets@[q.target];
            &&& run.result matches Some((_, Ok(found)))
            &&& found == description
            &&& run.world == after_accepting(
                q,
                w,
                depth,
                role,
                roles[i],
                hash,
                missing,
                raw,
                tuf,
            )
        }),
{
    accepted_role_is_looked_up(
        q,
        w,
        terminate,
        depth,
        role,
        roles,
        i,
        hash,
        missing,
        raw,
        tuf,
    );
    let after = after_accepting(q, w, depth, role, roles[i], hash, missing, raw, tuf);
    let targets = tuf.delegations@[roles[i].role@];
    role_is_looked_in(q, after, roles[i].terminating, depth + 1, roles[i].role, targets);
}

} // verus!
