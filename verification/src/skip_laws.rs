//! Delegations that lead nowhere: a lookup goes as if they were not there.

use std::sync::Arc;

use vstd::prelude::*;

use crate::error::Error;
use crate::lookup::{examined, local_role_fetch, remote_role_fetch, Examined};
use crate::lookup_run::{ask_local_or_else_remote, lookup, walk_roles, Found, Quest};
use crate::metadata::{
    preferred_hash, Delegation, MetadataVersion, TargetDescription, TargetsMetadata,
};
use crate::path::MetadataPath;
use crate::run::{ask_store, ask_trust_delegation, finish, follow};
use crate::run::{Reply, Request, Run, World};

verus! {

/// Takes up one delegation of the role `role`. The result is nothing if the walk of that role goes
/// on with the next delegation, and what the walk comes to if it ends.
pub open spec fn taken_up(
    q: Quest,
    w: World,
    depth: int,
    role: MetadataPath,
    delegation: Delegation,
) -> Run<Option<Found>> {
    match examined(&delegation, q.target, &q.snapshot) {
        Examined::Skip => finish(w, None),
        Examined::Fail(error) => finish(w, Some((true, Err(error)))),
        Examined::Return(error) => finish(w, Some((false, Err(error)))),
        Examined::Ask(length, hash) => ask_local_or_else_remote(
            w,
            local_role_fetch(delegation.role, length, hash),
            remote_role_fetch(w.tuf.root.consistent_snapshot, delegation.role, length, hash),
            |w: World, fetched: Result<Vec<u8>, Error>|
                match fetched {
                    Err(error) => if delegation.terminating {
                        finish(w, Some((true, Err(error))))
                    } else {
                        finish(w, None)
                    },
                    Ok(raw) => ask_trust_delegation(
                        w,
                        depth + 1,
                        role,
                        delegation.role,
                        raw,
                        |w: World, trusted: Result<Arc<TargetsMetadata>, Error>|
                            match trusted {
                                Err(error) => if delegation.terminating {
                                    finish(w, Some((true, Err(error))))
                                } else {
                                    finish(w, None)
                                },
                                Ok(targets) => ask_store(
                                    w,
                                    delegation.role,
                                    MetadataVersion::Unversioned,
                                    raw,
                                    |w: World, now|
                                        follow(
                                            lookup(
                                                q,
                                                w,
                                                delegation.terminating,
                                                depth + 1,
                                                delegation.role,
                                                targets,
                                            ),
                                            |w: World, found: Found|
                                                if found.1 is Ok || found.0 {
                                                    finish(w, Some(found))
                                                } else {
                                                    finish(w, None)
                                                },
                                        ),
                                ),
                            },
                    ),
                },
        ),
    }
}

/// A walk takes up its next delegation, and goes on with those behind it unless that ends it.
pub(crate) proof fn lemma_by_one(
    q: Quest,
    w: World,
    terminate: bool,
    depth: int,
    role: MetadataPath,
    roles: Seq<Delegation>,
    i: int,
)
    requires
        depth <= q.max_depth,
        0 <= i < roles.len(),
    ensures
        ({
            let one = taken_up(q, w, depth, role, roles[i]);
            let run = walk_roles(q, w, terminate, depth, role, roles, i);
            match one.result {
                None => run.result is None && run.world == one.world,
                Some(Some(found)) => run == finish(one.world, found),
                Some(None) => run == walk_roles(
                    q,
                    one.world,
                    terminate,
                    depth,
                    role,
                    roles,
                    i + 1,
                ),
            }
        }),
{
}

/// The number of replies that came between the two worlds.
spec fn used(w: World, v: World) -> int {
    w.replies.len() - v.replies.len()
}

/// The replies still to come in `v` are the last of those to come in `w`.
spec fn later(w: World, v: World) -> bool {
    &&& 0 <= used(w, v)
    &&& v.replies =~= w.replies.skip(used(w, v))
}

/// The two worlds trust the same, and the next `n` replies are the same.
spec fn alike(w: World, v: World, n: int) -> bool {
    &&& w.tuf == v.tuf
    &&& 0 <= n <= w.replies.len()
    &&& n <= v.replies.len()
    &&& forall|i: int| 0 <= i < n ==> w.replies[i] == #[trigger] v.replies[i]
}

/// A run that began in `v` ends as `run`, which began in `w`, and has used as many replies.
spec fn ends_alike<R>(w: World, v: World, run: Run<R>, other: Run<R>) -> bool {
    &&& other.result == run.result
    &&& other.world.tuf == run.world.tuf
    &&& other.world.replies =~= v.replies.skip(used(w, run.world))
}

/// The run comes to a later world, and if it ends, it ends alike wherever the replies that it used
/// come first.
spec fn depends_on_used<R>(w: World, v: World, run: Run<R>, other: Run<R>) -> bool {
    &&& later(w, run.world)
    &&& run.result is Some && alike(w, v, used(w, run.world)) ==> ends_alike(w, v, run, other)
}

/// What holds of a first part of a run and of the rest holds of the whole.
proof fn lemma_parts<A, B>(
    w: World,
    v: World,
    part: Run<A>,
    other_part: Run<A>,
    run: Run<B>,
    other: Run<B>,
)
    requires
        part.result is Some,
        depends_on_used(w, v, part, other_part),
        later(part.world, run.world),
        ends_alike(w, v, part, other_part) ==> depends_on_used(
            part.world,
            other_part.world,
            run,
            other,
        ),
    ensures
        depends_on_used(w, v, run, other),
{
    let first = used(w, part.world);
    let second = used(part.world, run.world);
    let n = used(w, run.world);
    assert(w.replies.skip(first).skip(second) =~= w.replies.skip(n));
    if alike(w, v, n) {
        assert(alike(w, v, first));
        assert forall|i: int| 0 <= i < second implies part.world.replies[i]
            == #[trigger] other_part.world.replies[i] by {
            assert(w.replies[first + i] == v.replies[first + i]);
        }
        assert(alike(part.world, other_part.world, second));
        assert(v.replies.skip(first).skip(second) =~= v.replies.skip(n));
    }
}

proof fn lemma_lookup_uses(
    q: Quest,
    w: World,
    v: World,
    terminate: bool,
    depth: int,
    role: MetadataPath,
    targets: Arc<TargetsMetadata>,
)
    ensures
        depends_on_used(
            w,
            v,
            lookup(q, w, terminate, depth, role, targets),
            lookup(q, v, terminate, depth, role, targets),
        ),
    decreases q.max_depth + 1 - depth, 2nat, 0int,
{
    if depth <= q.max_depth && !targets.targets@.dom().contains(q.target) {
        lemma_walk_uses(q, w, v, terminate, depth, role, targets.roles(), 0);
    }
}

proof fn lemma_walk_uses(
    q: Quest,
    w: World,
    v: World,
    terminate: bool,
    depth: int,
    role: MetadataPath,
    roles: Seq<Delegation>,
    i: int,
)
    requires
        depth <= q.max_depth,
        0 <= i,
    ensures
        depends_on_used(
            w,
            v,
            walk_roles(q, w, terminate, depth, role, roles, i),
            walk_roles(q, v, terminate, depth, role, roles, i),
        ),
    decreases q.max_depth + 1 - depth, 1nat, roles.len() - i,
{
    if i < roles.len() {
        lemma_by_one(q, w, terminate, depth, role, roles, i);
        lemma_by_one(q, v, terminate, depth, role, roles, i);
        lemma_taken_up_uses(q, w, v, depth, role, roles[i]);
        let part = taken_up(q, w, depth, role, roles[i]);
        let other_part = taken_up(q, v, depth, role, roles[i]);
        if part.result == Some(None::<Found>) {
            let (x, y) = (part.world, other_part.world);
            lemma_walk_uses(q, x, y, terminate, depth, role, roles, i + 1);
            let run = walk_roles(q, w, terminate, depth, role, roles, i);
            let other = walk_roles(q, v, terminate, depth, role, roles, i);
            lemma_parts(w, v, part, other_part, run, other);
        }
    }
}

/// What holds after one more reply held before it.
proof fn lemma_one_reply<R>(
    w: World,
    v: World,
    next_w: World,
    next_v: World,
    run: Run<R>,
    other: Run<R>,
)
    requires
        w.replies.len() > 0,
        next_w.replies == w.replies.drop_first(),
        later(next_w, run.world),
        alike(w, v, 1) ==> {
            &&& next_v.replies == v.replies.drop_first()
            &&& next_v.tuf == next_w.tuf
            &&& depends_on_used(next_w, next_v, run, other)
        },
    ensures
        depends_on_used(w, v, run, other),
{
    let n = used(w, run.world);
    assert(w.replies.drop_first().skip(n - 1) =~= w.replies.skip(n));
    if alike(w, v, n) {
        assert(w.replies[0] == v.replies[0]);
        assert(alike(w, v, 1));
        assert forall|i: int| 0 <= i < n - 1 implies next_w.replies[i]
            == #[trigger] next_v.replies[i] by {
            assert(w.replies[i + 1] == v.replies[i + 1]);
        }
        assert(alike(next_w, next_v, n - 1));
        assert(v.replies.drop_first().skip(n - 1) =~= v.replies.skip(n));
    }
}

/// What holds after two more replies held before them, if it is later than both.
proof fn lemma_two_replies<R>(
    w: World,
    v: World,
    next_w: World,
    next_v: World,
    run: Run<R>,
    other: Run<R>,
)
    requires
        w.replies.len() > 1,
        next_w.replies == w.replies.drop_first().drop_first(),
        later(next_w, run.world),
        alike(w, v, 2) ==> {
            &&& next_v.replies == v.replies.drop_first().drop_first()
            &&& next_v.tuf == next_w.tuf
            &&& depends_on_used(next_w, next_v, run, other)
        },
    ensures
        depends_on_used(w, v, run, other),
{
    let n = used(w, run.world);
    assert(w.replies.drop_first().drop_first().skip(n - 2) =~= w.replies.skip(n));
    if alike(w, v, n) {
        assert(alike(w, v, 2));
        assert forall|i: int| 0 <= i < n - 2 implies next_w.replies[i]
            == #[trigger] next_v.replies[i] by {
            assert(w.replies[i + 2] == v.replies[i + 2]);
        }
        assert(alike(next_w, next_v, n - 2));
        assert(v.replies.drop_first().drop_first().skip(n - 2) =~= v.replies.skip(n));
    }
}

/// Goes on with the metadata of the delegated role, which was trusted and stored.
spec fn with_targets(
    q: Quest,
    w: World,
    depth: int,
    delegation: Delegation,
    targets: Arc<TargetsMetadata>,
) -> Run<Option<Found>> {
    follow(
        lookup(q, w, delegation.terminating, depth + 1, delegation.role, targets),
        |w: World, found: Found|
            if found.1 is Ok || found.0 {
                finish(w, Some(found))
            } else {
                finish(w, None)
            },
    )
}

/// Goes on with the metadata of the delegated role, which was trusted.
spec fn with_trusted(
    q: Quest,
    w: World,
    depth: int,
    delegation: Delegation,
    raw: Vec<u8>,
    targets: Arc<TargetsMetadata>,
) -> Run<Option<Found>> {
    ask_store(
        w,
        delegation.role,
        MetadataVersion::Unversioned,
        raw,
        |w: World, now| with_targets(q, w, depth, delegation, targets),
    )
}

/// Goes on with the metadata of the delegated role, which was fetched, or with why it was not.
spec fn with_fetched(
    q: Quest,
    w: World,
    depth: int,
    role: MetadataPath,
    delegation: Delegation,
    fetched: Result<Vec<u8>, Error>,
) -> Run<Option<Found>> {
    match fetched {
        Err(error) => if delegation.terminating {
            finish(w, Some((true, Err(error))))
        } else {
            finish(w, None)
        },
        Ok(raw) => ask_trust_delegation(
            w,
            depth + 1,
            role,
            delegation.role,
            raw,
            |w: World, trusted: Result<Arc<TargetsMetadata>, Error>|
                match trusted {
                    Err(error) => if delegation.terminating {
                        finish(w, Some((true, Err(error))))
                    } else {
                        finish(w, None)
                    },
                    Ok(targets) => with_trusted(q, w, depth, delegation, raw, targets),
                },
        ),
    }
}

proof fn lemma_with_trusted_uses(
    q: Quest,
    w: World,
    v: World,
    depth: int,
    delegation: Delegation,
    raw: Vec<u8>,
    targets: Arc<TargetsMetadata>,
)
    requires
        depth <= q.max_depth,
    ensures
        depends_on_used(
            w,
            v,
            with_trusted(q, w, depth, delegation, raw, targets),
            with_trusted(q, v, depth, delegation, raw, targets),
        ),
    decreases q.max_depth + 1 - depth, 0nat, 0int,
{
    let store = Request::Store(delegation.role, MetadataVersion::Unversioned, raw);
    let next_w = w.ask(store).answered();
    let next_v = v.ask(store).answered();
    let terminating = delegation.terminating;
    lemma_lookup_uses(q, next_w, next_v, terminating, depth + 1, delegation.role, targets);
    if w.replies.len() > 0 && w.replies[0] is Stored {
        let run = with_trusted(q, w, depth, delegation, raw, targets);
        let other = with_trusted(q, v, depth, delegation, raw, targets);
        assert(run == with_targets(q, next_w, depth, delegation, targets));
        lemma_one_reply(w, v, next_w, next_v, run, other);
    }
}

proof fn lemma_with_fetched_uses(
    q: Quest,
    w: World,
    v: World,
    depth: int,
    role: MetadataPath,
    delegation: Delegation,
    fetched: Result<Vec<u8>, Error>,
)
    requires
        depth <= q.max_depth,
    ensures
        depends_on_used(
            w,
            v,
            with_fetched(q, w, depth, role, delegation, fetched),
            with_fetched(q, v, depth, role, delegation, fetched),
        ),
    decreases q.max_depth + 1 - depth, 0nat, 1int,
{
    let run = with_fetched(q, w, depth, role, delegation, fetched);
    let other = with_fetched(q, v, depth, role, delegation, fetched);
    if let Ok(raw) = fetched {
        let trust = Request::TrustDelegation {
            depth: depth + 1,
            parent: role,
            role: delegation.role,
            raw,
        };
        if w.replies.len() > 0 {
            let next_w = w.ask(trust).answered();
            let next_v = v.ask(trust).answered();
            match w.replies[0] {
                Reply::DelegationTrusted(Ok(tuf)) => {
                    if tuf.delegations@.dom().contains(delegation.role@) {
                        let next_w = next_w.trusting(tuf);
                        let next_v = next_v.trusting(tuf);
                        let targets = tuf.delegations@[delegation.role@];
                        lemma_with_trusted_uses(q, next_w, next_v, depth, delegation, raw, targets);
                        lemma_one_reply(w, v, next_w, next_v, run, other);
                    }
                },
                Reply::DelegationTrusted(Err(_)) => {
                    lemma_one_reply(w, v, next_w, next_v, run, other);
                },
                _ => {},
            }
        }
    }
}

proof fn lemma_taken_up_uses(
    q: Quest,
    w: World,
    v: World,
    depth: int,
    role: MetadataPath,
    delegation: Delegation,
)
    requires
        depth <= q.max_depth,
    ensures
        depends_on_used(
            w,
            v,
            taken_up(q, w, depth, role, delegation),
            taken_up(q, v, depth, role, delegation),
        ),
    decreases q.max_depth + 1 - depth, 0nat, 2int,
{
    let run = taken_up(q, w, depth, role, delegation);
    let other = taken_up(q, v, depth, role, delegation);
    match examined(&delegation, q.target, &q.snapshot) {
        Examined::Ask(length, hash) => {
            let local = Request::Fetch(local_role_fetch(delegation.role, length, hash));
            let w1 = w.ask(local).answered();
            let v1 = v.ask(local).answered();
            if w.replies.len() > 0 {
                match w.replies[0] {
                    Reply::Fetched(Ok(raw)) => {
                        lemma_with_fetched_uses(q, w1, v1, depth, role, delegation, Ok(raw));
                        lemma_one_reply(w, v, w1, v1, run, other);
                    },
                    Reply::Fetched(Err(_)) => {
                        let remote = Request::Fetch(
                            remote_role_fetch(
                                w.tuf.root.consistent_snapshot,
                                delegation.role,
                                length,
                                hash,
                            ),
                        );
                        let w2 = w1.ask(remote).answered();
                        let v2 = v1.ask(remote).answered();
                        if w1.replies.len() > 0 {
                            match w1.replies[0] {
                                Reply::Fetched(fetched) => {
                                    lemma_with_fetched_uses(
                                        q,
                                        w2,
                                        v2,
                                        depth,
                                        role,
                                        delegation,
                                        fetched,
                                    );
                                    let next = with_fetched(q, w2, depth, role, delegation, fetched);
                                    let last = with_fetched(q, v2, depth, role, delegation, fetched);
                                    assert(run == next);
                                    if alike(w, v, 2) {
                                        assert(v.replies[0] == w.replies[0]);
                                        assert(v.replies[1] == w.replies[1]);
                                        assert(other == last);
                                    }
                                    lemma_two_replies(w, v, w2, v2, run, other);
                                },
                                _ => {},
                            }
                        }
                    },
                    _ => {},
                }
            }
        },
        _ => {},
    }
}

/// The world in which a walk of the delegations from the `i`th on comes to the `k`th, if it comes
/// that far.
pub open spec fn reached(
    q: Quest,
    w: World,
    depth: int,
    role: MetadataPath,
    roles: Seq<Delegation>,
    i: int,
    k: int,
) -> Option<World>
    decreases k - i,
{
    if i >= k {
        Some(w)
    } else {
        let one = taken_up(q, w, depth, role, roles[i]);
        match one.result {
            Some(None) => reached(q, one.world, depth, role, roles, i + 1, k),
            _ => None,
        }
    }
}

/// The number of replies after which a delegation turns out to lead nowhere: at once where it does
/// not cover the target or is not described, and otherwise, its hashes being usable, where neither
/// repository has its metadata, or where that is rejected.
pub open spec fn leads_nowhere(q: Quest, delegation: Delegation, replies: Seq<Reply>) -> Option<
    nat,
> {
    if !delegation.spec_covers(q.target) || !q.snapshot.meta@.dom().contains(delegation.role@) {
        Some(0)
    } else if preferred_hash(q.snapshot.meta@[delegation.role@].hashes@) is None || replies.len()
        < 2 {
        None
    } else {
        match (replies[0], replies[1]) {
            (Reply::Fetched(Err(_)), Reply::Fetched(Err(_))) => Some(2),
            (Reply::Fetched(Ok(_)), Reply::DelegationTrusted(Err(_))) => Some(2),
            (Reply::Fetched(Err(_)), Reply::Fetched(Ok(_))) => if replies.len() > 2
                && replies[2] matches Reply::DelegationTrusted(Err(_)) {
                Some(3)
            } else {
                None
            },
            _ => None,
        }
    }
}

/// Behind a delegation that leads nowhere, and is not terminating, the walk goes on; nothing more
/// is trusted.
proof fn lemma_nowhere(q: Quest, w: World, depth: int, role: MetadataPath, delegation: Delegation)
    requires
        !delegation.terminating,
        leads_nowhere(q, delegation, w.replies) is Some,
    ensures
        ({
            let one = taken_up(q, w, depth, role, delegation);
            let n = leads_nowhere(q, delegation, w.replies)->0;
            &&& one.result == Some(None::<Found>)
            &&& one.world.tuf == w.tuf
            &&& n <= w.replies.len()
            &&& one.world.replies == w.replies.skip(n as int)
        }),
{
    let n = leads_nowhere(q, delegation, w.replies)->0;
    if n == 0 {
        assert(w.replies.skip(0) =~= w.replies);
    } else {
        let second = w.replies.drop_first();
        let third = second.drop_first();
        assert(second[0] == w.replies[1]);
        assert(third =~= w.replies.skip(2));
        if n == 3 {
            assert(third[0] == w.replies[2]);
            assert(third.drop_first() =~= w.replies.skip(3));
        }
    }
}

/// A walk that comes to the `k`th delegation goes on from there.
pub(crate) proof fn lemma_reached(
    q: Quest,
    w: World,
    terminate: bool,
    depth: int,
    role: MetadataPath,
    roles: Seq<Delegation>,
    i: int,
    k: int,
)
    requires
        depth <= q.max_depth,
        0 <= i <= k <= roles.len(),
        reached(q, w, depth, role, roles, i, k) is Some,
    ensures
        walk_roles(q, w, terminate, depth, role, roles, i) == walk_roles(
            q,
            reached(q, w, depth, role, roles, i, k)->0,
            terminate,
            depth,
            role,
            roles,
            k,
        ),
    decreases k - i,
{
    if i < k {
        lemma_by_one(q, w, terminate, depth, role, roles, i);
        let one = taken_up(q, w, depth, role, roles[i]);
        lemma_reached(q, one.world, terminate, depth, role, roles, i + 1, k);
    }
}

/// How far a walk comes rests on the replies used on the way there.
proof fn lemma_reached_uses(
    q: Quest,
    w: World,
    v: World,
    depth: int,
    role: MetadataPath,
    roles: Seq<Delegation>,
    i: int,
    k: int,
)
    requires
        depth <= q.max_depth,
        0 <= i <= k <= roles.len(),
        reached(q, w, depth, role, roles, i, k) is Some,
    ensures
        ({
            let x = reached(q, w, depth, role, roles, i, k)->0;
            &&& later(w, x)
            &&& alike(w, v, used(w, x)) ==> {
                &&& reached(q, v, depth, role, roles, i, k) matches Some(y)
                &&& y.tuf == x.tuf
                &&& y.replies =~= v.replies.skip(used(w, x))
            }
        }),
    decreases k - i,
{
    let x = reached(q, w, depth, role, roles, i, k)->0;
    if i < k {
        let part = taken_up(q, w, depth, role, roles[i]);
        let other_part = taken_up(q, v, depth, role, roles[i]);
        lemma_taken_up_uses(q, w, v, depth, role, roles[i]);
        lemma_reached_uses(q, part.world, other_part.world, depth, role, roles, i + 1, k);
        let run = finish(x, ());
        let y = reached(q, other_part.world, depth, role, roles, i + 1, k);
        let other: Run<()> = match y {
            Some(y) => finish(y, ()),
            None => Run { world: v, result: None },
        };
        lemma_parts(w, v, part, other_part, run, other);
        if alike(w, v, used(w, x)) {
            assert(alike(w, v, used(w, part.world)));
        }
    } else {
        assert(w.replies.skip(0) =~= w.replies);
        assert(v.replies.skip(0) =~= v.replies);
    }
}

/// The walk of `roles` from `i` on goes as that of `others` from `j` on, if the same delegations
/// are left.
proof fn lemma_same_left(
    q: Quest,
    w: World,
    terminate: bool,
    depth: int,
    role: MetadataPath,
    roles: Seq<Delegation>,
    i: int,
    others: Seq<Delegation>,
    j: int,
)
    requires
        depth <= q.max_depth,
        0 <= i <= roles.len(),
        0 <= j <= others.len(),
        roles.skip(i) =~= others.skip(j),
    ensures
        walk_roles(q, w, terminate, depth, role, roles, i) == walk_roles(
            q,
            w,
            terminate,
            depth,
            role,
            others,
            j,
        ),
    decreases roles.len() - i,
{
    assert(roles.skip(i).len() == others.skip(j).len());
    if i < roles.len() {
        assert(roles[i] == roles.skip(i)[0]);
        assert(others[j] == others.skip(j)[0]);
        assert(roles.skip(i + 1) =~= roles.skip(i).skip(1));
        assert(others.skip(j + 1) =~= others.skip(j).skip(1));
        lemma_by_one(q, w, terminate, depth, role, roles, i);
        lemma_by_one(q, w, terminate, depth, role, others, j);
        let one = taken_up(q, w, depth, role, roles[i]);
        let v = one.world;
        lemma_same_left(q, v, terminate, depth, role, roles, i + 1, others, j + 1);
    }
}

/// How far a walk comes rests on the delegations on the way there.
pub(crate) proof fn lemma_same_before(
    q: Quest,
    w: World,
    terminate: bool,
    depth: int,
    role: MetadataPath,
    roles: Seq<Delegation>,
    others: Seq<Delegation>,
    i: int,
    k: int,
)
    requires
        depth <= q.max_depth,
        0 <= i <= k <= roles.len(),
        k <= others.len(),
        roles.take(k) =~= others.take(k),
    ensures
        reached(q, w, depth, role, others, i, k) == reached(q, w, depth, role, roles, i, k),
        reached(q, w, depth, role, roles, i, k) is None ==> walk_roles(
            q,
            w,
            terminate,
            depth,
            role,
            others,
            i,
        ) == walk_roles(q, w, terminate, depth, role, roles, i),
    decreases k - i,
{
    if i < k {
        assert(roles[i] == roles.take(k)[i]);
        assert(others[i] == others.take(k)[i]);
        lemma_by_one(q, w, terminate, depth, role, roles, i);
        lemma_by_one(q, w, terminate, depth, role, others, i);
        let one = taken_up(q, w, depth, role, roles[i]);
        lemma_same_before(q, one.world, terminate, depth, role, roles, others, i + 1, k);
    }
}

/// A delegation that leads nowhere, and is not terminating, changes no result: the walk of a role
/// goes as it would without the delegation. Where the walk comes to it, its failure is passed over,
/// and the result is the same as without it, the replies to its own requests left out. Where the
/// walk does not come to it, it makes no difference at all.
pub proof fn skipped_delegation_changes_no_result(
    q: Quest,
    w: World,
    terminate: bool,
    depth: int,
    role: MetadataPath,
    roles: Seq<Delegation>,
    k: int,
)
    requires
        depth <= q.max_depth,
        0 <= k < roles.len(),
        !roles[k].terminating,
    ensures
        ({
            let run = walk_roles(q, w, terminate, depth, role, roles, 0);
            match reached(q, w, depth, role, roles, 0, k) {
                None => run == walk_roles(q, w, terminate, depth, role, roles.remove(k), 0),
                Some(v) => leads_nowhere(q, roles[k], v.replies) matches Some(n) ==> {
                    let before = w.replies.take(w.replies.len() - v.replies.len());
                    let without = World { replies: before + v.replies.skip(n as int), ..w };
                    let other = walk_roles(
                        q,
                        without,
                        terminate,
                        depth,
                        role,
                        roles.remove(k),
                        0,
                    );
                    &&& run.result == other.result
                    &&& run.result is Some ==> run.world.tuf == other.world.tuf
                        && run.world.replies == other.world.replies
                },
            }
        }),
{
    let others = roles.remove(k);
    assert(roles.take(k) =~= others.take(k));
    assert(roles.skip(k + 1) =~= others.skip(k));
    lemma_same_before(q, w, terminate, depth, role, roles, others, 0, k);
    if let Some(v) = reached(q, w, depth, role, roles, 0, k) {
        if let Some(n) = leads_nowhere(q, roles[k], v.replies) {
            lemma_reached(q, w, terminate, depth, role, roles, 0, k);
            lemma_by_one(q, v, terminate, depth, role, roles, k);
            lemma_nowhere(q, v, depth, role, roles[k]);
            let x = taken_up(q, v, depth, role, roles[k]).world;
            lemma_same_left(q, x, terminate, depth, role, roles, k + 1, others, k);

            let before = w.replies.take(w.replies.len() - v.replies.len());
            let without = World { replies: before + v.replies.skip(n as int), ..w };
            lemma_reached_uses(q, w, without, depth, role, roles, 0, k);
            assert(alike(w, without, used(w, v)));
            let y = reached(q, without, depth, role, roles, 0, k)->0;
            assert(y.replies =~= x.replies);
            lemma_same_before(q, without, terminate, depth, role, roles, others, 0, k);
            lemma_reached(q, without, terminate, depth, role, others, 0, k);

            lemma_walk_uses(q, x, y, terminate, depth, role, others, k);
            lemma_walk_uses(q, y, x, terminate, depth, role, others, k);
        }
    }
}

/// Every delegation from the `i`th on turns out to lead nowhere, and none is terminating.
pub open spec fn all_lead_nowhere(
    q: Quest,
    w: World,
    depth: int,
    role: MetadataPath,
    roles: Seq<Delegation>,
    i: int,
) -> bool
    decreases roles.len() - i,
{
    i >= roles.len() || {
        &&& !roles[i].terminating
        &&& leads_nowhere(q, roles[i], w.replies) is Some
        &&& all_lead_nowhere(
            q,
            taken_up(q, w, depth, role, roles[i]).world,
            depth,
            role,
            roles,
            i + 1,
        )
    }
}

/// Where every delegation leads nowhere, or there is none, the target is not found, and the walk
/// ends the lookup just if the delegation to the role is terminating.
pub proof fn nowhere_to_go_is_not_found(
    q: Quest,
    w: World,
    terminate: bool,
    depth: int,
    role: MetadataPath,
    roles: Seq<Delegation>,
    i: int,
)
    requires
        depth <= q.max_depth,
        0 <= i,
        all_lead_nowhere(q, w, depth, role, roles, i),
    ensures
        ({
            let run = walk_roles(q, w, terminate, depth, role, roles, i);
            let not_found = Err::<Arc<TargetDescription>, Error>(Error::NotFound);
            &&& run.result == Some((terminate, not_found))
            &&& run.world.tuf == w.tuf
        }),
    decreases roles.len() - i,
{
    if i < roles.len() {
        lemma_by_one(q, w, terminate, depth, role, roles, i);
        lemma_nowhere(q, w, depth, role, roles[i]);
        let one = taken_up(q, w, depth, role, roles[i]);
        nowhere_to_go_is_not_found(q, one.world, terminate, depth, role, roles, i + 1);
    }
}

} // verus!
