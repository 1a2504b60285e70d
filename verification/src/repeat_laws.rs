//! A repeated update: over a repository that has not changed, it finds nothing to do.

use vstd::prelude::*;

use crate::error::Error;
use crate::fetch::{root_fetch, timestamp_fetch, Fetch, Source};
use crate::fetch_laws::{newer_snapshot_is_asked_for, newer_targets_are_asked_for};
use crate::metadata::{MetadataVersion, Role, Tuf};
use crate::path::MetadataPath;
use crate::run::{in_step, trusted_after_replies, Reply, Request, World};
use crate::update::{
    fetched_step, parsed_step, root_step, snapshot_wanted, stored_step, targets_wanted,
    trusted_after, trusted_step,
};
use crate::update::{FetchPurpose, Limits, StorePurpose, TrustPurpose, UpdateStep, UpdateTrust};
use crate::update_laws::{step_request, verified_role};
use crate::update_run::{run_update, stepwise_update_is_update, update};

verus! {

/// What a client works on, as long as it does not change: the contents of the repositories, and the
/// judgement of the verification, by which nothing expires meanwhile.
pub struct Surroundings {
    /// The bytes that a fetch gives.
    pub fetch: spec_fn(Fetch) -> Result<Vec<u8>, Error>,
    /// The version that root metadata claims.
    pub claimed: spec_fn(Vec<u8>) -> Result<u32, Error>,
    /// What is trusted after metadata of a role was verified against what is trusted, if it is an
    /// update.
    pub verify: spec_fn(Tuf, Role, Vec<u8>) -> Result<Option<Tuf>, Error>,
}

/// The reply to the request is the one that the surroundings give while `tuf` is trusted.
pub open spec fn given_by(s: Surroundings, tuf: Tuf, request: Request, reply: Reply) -> bool {
    match request {
        Request::Fetch(fetch) => reply == Reply::Fetched((s.fetch)(fetch)),
        Request::Parse(raw) => reply == Reply::Parsed((s.claimed)(raw)),
        Request::Trust(role, raw) => reply == Reply::Trusted((s.verify)(tuf, role, raw)),
        Request::TrustDelegation { .. } => true,
        Request::Store(_, _, _) => reply is Stored,
    }
}

/// All replies to the requests of a run that began with `tuf` trusted are given by the surroundings.
pub open spec fn all_given_by(
    s: Surroundings,
    tuf: Tuf,
    asked: Seq<Request>,
    replies: Seq<Reply>,
) -> bool {
    forall|i: int|
        0 <= i < asked.len() && i < replies.len() ==> given_by(
            s,
            trusted_after_replies(tuf, replies.take(i)),
            #[trigger] asked[i],
            replies[i],
        )
}

/// The trusted snapshot metadata has the version that the trusted timestamp metadata lists.
pub open spec fn snapshot_as_listed(tuf: Tuf) -> bool {
    &&& tuf.timestamp matches Some(timestamp)
    &&& tuf.snapshot matches Some(snapshot)
    &&& snapshot.version == timestamp.snapshot.version
}

/// The trusted targets metadata has the version that the trusted snapshot metadata lists.
pub open spec fn targets_as_listed(tuf: Tuf) -> bool {
    &&& tuf.snapshot matches Some(snapshot)
    &&& tuf.targets matches Some(targets)
    &&& snapshot.meta@.dom().contains("targets"@)
    &&& targets.version == snapshot.meta@["targets"@].version
}

/// What a verification is to hold to:
/// - Root metadata that is accepted has the version that it claims.
/// - Timestamp metadata that is accepted leaves the root metadata alone, and is no update when it
///   comes again. Whether it is an update rests on the trusted root and timestamp metadata.
/// - Snapshot metadata that is not rejected has the version listed; it leaves the root and the
///   timestamp metadata alone.
/// - Targets metadata that is not rejected has the version listed; it leaves the metadata of the
///   other roles alone.
pub open spec fn verifies_well(s: Surroundings) -> bool {
    &&& forall|tuf: Tuf, raw: Vec<u8>|
        ((#[trigger] (s.verify)(tuf, Role::Root, raw)) matches Ok(Some(new)) ==> (s.claimed)(raw)
            == Ok::<u32, Error>(new.root.version))
    &&& forall|tuf: Tuf, raw: Vec<u8>|
        ((#[trigger] (s.verify)(tuf, Role::Timestamp, raw)) matches Ok(Some(new)) ==> {
            &&& new.root == tuf.root
            &&& (s.verify)(new, Role::Timestamp, raw) == Ok::<Option<Tuf>, Error>(None)
        })
    &&& forall|tuf: Tuf, other: Tuf, raw: Vec<u8>|
        tuf.root == other.root && tuf.timestamp == other.timestamp && (#[trigger] (s.verify)(
            tuf,
            Role::Timestamp,
            raw,
        )) == Ok::<Option<Tuf>, Error>(None) ==> (#[trigger] (s.verify)(
            other,
            Role::Timestamp,
            raw,
        )) == Ok::<Option<Tuf>, Error>(None)
    &&& forall|tuf: Tuf, raw: Vec<u8>|
        match #[trigger] (s.verify)(tuf, Role::Snapshot, raw) {
            Ok(Some(new)) => new.root == tuf.root && new.timestamp == tuf.timestamp
                && snapshot_as_listed(new),
            Ok(None) => snapshot_as_listed(tuf),
            Err(_) => true,
        }
    &&& forall|tuf: Tuf, raw: Vec<u8>|
        match #[trigger] (s.verify)(tuf, Role::Targets, raw) {
            Ok(Some(new)) => new.root == tuf.root && new.timestamp == tuf.timestamp
                && new.snapshot == tuf.snapshot && targets_as_listed(new),
            Ok(None) => targets_as_listed(tuf),
            Err(_) => true,
        }
}

/// The latest root metadata claims the trusted version.
spec fn root_current(s: Surroundings, limits: Limits, tuf: Tuf) -> bool {
    &&& (s.fetch)(root_fetch(limits.root, MetadataVersion::Unversioned)) matches Ok(raw)
    &&& (s.claimed)(raw) == Ok::<u32, Error>(tuf.root.version)
}

/// The timestamp metadata is no update.
spec fn timestamp_current(s: Surroundings, limits: Limits, tuf: Tuf) -> bool {
    &&& (s.fetch)(timestamp_fetch(limits.timestamp)) matches Ok(raw)
    &&& (s.verify)(tuf, Role::Timestamp, raw) == Ok::<Option<Tuf>, Error>(None)
}

/// Nothing more is wanted of a role.
spec fn settled(wanted: Result<Option<Fetch>, Error>) -> bool {
    wanted == Ok::<Option<Fetch>, Error>(None)
}

/// How much is up to date when an update takes a step, and by what bytes.
spec fn current(s: Surroundings, limits: Limits, tuf: Tuf, step: UpdateStep) -> bool {
    let latest_fetch = root_fetch(limits.root, MetadataVersion::Unversioned);
    let latest_root = (s.fetch)(latest_fetch);
    let root = root_current(s, limits, tuf);
    let timestamp = root && timestamp_current(s, limits, tuf);
    let snapshot = timestamp && settled(snapshot_wanted(tuf));
    let targets = snapshot && settled(targets_wanted(tuf));
    match step {
        UpdateStep::Fetch(request) => match request.purpose {
            FetchPurpose::LatestRoot => request.fetch == latest_fetch,
            FetchPurpose::NextRoot { latest, latest_raw, .. } => latest_root == Ok::<
                Vec<u8>,
                Error,
            >(latest_raw) && (s.claimed)(latest_raw) == Ok::<u32, Error>(latest),
            FetchPurpose::Timestamp { .. } => root && request.fetch == timestamp_fetch(
                limits.timestamp,
            ),
            FetchPurpose::Snapshot { .. } => timestamp,
            FetchPurpose::Targets { .. } => snapshot,
        },
        UpdateStep::Parse(request) => latest_root == Ok::<Vec<u8>, Error>(request.raw),
        UpdateStep::Trust(request) => request.role == verified_role(request.purpose)
            && match request.purpose {
            TrustPurpose::NextRoot { latest, latest_raw, .. } => latest_root == Ok::<
                Vec<u8>,
                Error,
            >(latest_raw) && (s.claimed)(latest_raw) == Ok::<u32, Error>(latest),
            TrustPurpose::LatestRoot { .. } => latest_root == Ok::<Vec<u8>, Error>(request.raw),
            TrustPurpose::Timestamp { .. } => root && (s.fetch)(timestamp_fetch(limits.timestamp))
                == Ok::<Vec<u8>, Error>(request.raw),
            TrustPurpose::Snapshot { .. } => timestamp,
            TrustPurpose::Targets { .. } => snapshot,
        },
        UpdateStep::Store(request) => match request.purpose {
            StorePurpose::NextRoot { latest, latest_raw, .. } => latest_root == Ok::<
                Vec<u8>,
                Error,
            >(latest_raw) && (s.claimed)(latest_raw) == Ok::<u32, Error>(latest),
            StorePurpose::LatestRoot { .. } => root,
            StorePurpose::Timestamp => timestamp,
            StorePurpose::Snapshot => snapshot,
            StorePurpose::Targets => targets,
        },
        UpdateStep::Done(Ok(_)) => targets,
        UpdateStep::Done(Err(_)) => true,
    }
}

/// A run has made the requests made before it, then that of its next step.
pub(crate) proof fn lemma_asked(limits: Limits, w: World, step: UpdateStep)
    ensures
        ({
            let asked = run_update(limits, w, step).world.asked;
            &&& w.asked.len() <= asked.len()
            &&& asked.take(w.asked.len() as int) =~= w.asked
            &&& step_request(step) matches Some(request) ==> w.asked.len() < asked.len()
                && asked[w.asked.len() as int] == request
        }),
    decreases w.replies.len(),
{
    let n = w.asked.len() as int;
    if step_request(step) is Some {
        let request = step_request(step)->0;
        let asking = w.ask(request);
        assert(asking.asked.take(n) =~= w.asked);
        if w.replies.len() > 0 {
            let asked = run_update(limits, w, step).world.asked;
            match (step, w.replies[0]) {
                (UpdateStep::Fetch(request), Reply::Fetched(reply)) => {
                    let next = fetched_step(request.purpose, reply);
                    lemma_asked(limits, asking.answered(), next);
                    assert(asked.take(n + 1)[n] == asked[n]);
                    assert(asked.take(n) =~= asked.take(n + 1).take(n));
                },
                (UpdateStep::Parse(request), Reply::Parsed(reply)) => {
                    let next = parsed_step(limits, w.tuf, request.raw, reply);
                    lemma_asked(limits, asking.answered(), next);
                    assert(asked.take(n + 1)[n] == asked[n]);
                    assert(asked.take(n) =~= asked.take(n + 1).take(n));
                },
                (UpdateStep::Trust(request), Reply::Trusted(reply)) => {
                    let next = trusted_step(w.tuf, request.raw, request.purpose, reply);
                    let trusted = trusted_after(w.tuf, reply);
                    lemma_asked(limits, asking.answered().trusting(trusted), next);
                    assert(asked.take(n + 1)[n] == asked[n]);
                    assert(asked.take(n) =~= asked.take(n + 1).take(n));
                },
                (UpdateStep::Store(request), Reply::Stored(now)) => {
                    let next = stored_step(limits, w.tuf, request.raw, request.purpose, now);
                    lemma_asked(limits, asking.answered(), next);
                    assert(asked.take(n + 1)[n] == asked[n]);
                    assert(asked.take(n) =~= asked.take(n + 1).take(n));
                },
                _ => {},
            }
        }
    } else {
        assert(w.asked.take(n) =~= w.asked);
    }
}

proof fn lemma_trusted_current(
    s: Surroundings,
    limits: Limits,
    tuf: Tuf,
    request: UpdateTrust,
    reply: Result<Option<Tuf>, Error>,
)
    requires
        verifies_well(s),
        current(s, limits, tuf, UpdateStep::Trust(request)),
        reply == (s.verify)(tuf, request.role, request.raw),
    ensures
        current(
            s,
            limits,
            trusted_after(tuf, reply),
            trusted_step(tuf, request.raw, request.purpose, reply),
        ),
{
}

/// An update that succeeds leaves everything up to date.
proof fn lemma_current(
    s: Surroundings,
    limits: Limits,
    tuf: Tuf,
    replies: Seq<Reply>,
    w: World,
    step: UpdateStep,
)
    requires
        verifies_well(s),
        in_step(replies, w),
        w.tuf == trusted_after_replies(tuf, replies.take(w.asked.len() as int)),
        current(s, limits, w.tuf, step),
        all_given_by(s, tuf, run_update(limits, w, step).world.asked, replies),
        run_update(limits, w, step).result matches Some(Ok(_)),
    ensures
        current(s, limits, run_update(limits, w, step).world.tuf, UpdateStep::Done(Ok(true))),
    decreases w.replies.len(),
{
    let n = w.asked.len() as int;
    lemma_asked(limits, w, step);
    if step_request(step) is Some {
        let asked = run_update(limits, w, step).world.asked;
        let request = step_request(step)->0;
        let asking = w.ask(request);
        if w.replies.len() > 0 {
            assert(w.replies[0] == replies[n]);
            assert(given_by(s, w.tuf, asked[n], replies[n]));
            let next = asking.answered();
            assert(next.replies =~= replies.skip(n + 1));
            assert(replies.take(n + 1).drop_last() =~= replies.take(n));
            assert(replies.take(n + 1).last() == replies[n]);
            match (step, w.replies[0]) {
                (UpdateStep::Fetch(request), Reply::Fetched(reply)) => {
                    let step = fetched_step(request.purpose, reply);
                    lemma_current(s, limits, tuf, replies, next, step);
                },
                (UpdateStep::Parse(request), Reply::Parsed(reply)) => {
                    let step = parsed_step(limits, w.tuf, request.raw, reply);
                    lemma_current(s, limits, tuf, replies, next, step);
                },
                (UpdateStep::Trust(request), Reply::Trusted(reply)) => {
                    lemma_trusted_current(s, limits, w.tuf, request, reply);
                    let step = trusted_step(w.tuf, request.raw, request.purpose, reply);
                    let next = next.trusting(trusted_after(w.tuf, reply));
                    lemma_current(s, limits, tuf, replies, next, step);
                },
                (UpdateStep::Store(request), Reply::Stored(now)) => {
                    let step = stored_step(limits, w.tuf, request.raw, request.purpose, now);
                    lemma_current(s, limits, tuf, replies, next, step);
                },
                _ => {},
            }
        }
    }
}

/// An update that succeeds leaves nothing stale: the trusted root version is the one that the
/// latest root metadata claims, the trusted snapshot version is at least the one that the trusted
/// timestamp metadata lists, and the trusted targets version is at least the one that the trusted
/// snapshot metadata lists. (A version that is listed as zero asks for nothing.)
pub proof fn successful_update_leaves_nothing_stale(
    limits: Limits,
    s: Surroundings,
    tuf: Tuf,
    replies: Seq<Reply>,
)
    requires
        verifies_well(s),
        ({
            let run = update(limits, World::begin(tuf, replies));
            &&& run.result matches Some(Ok(_))
            &&& all_given_by(s, tuf, run.world.asked, replies)
        }),
    ensures
        ({
            let trusted = update(limits, World::begin(tuf, replies)).world.tuf;
            let latest = Fetch {
                source: Source::Remote,
                path: MetadataPath::Role(Role::Root),
                version: MetadataVersion::Unversioned,
                max_length: limits.root,
                hash: None,
            };
            &&& (s.fetch)(latest) matches Ok(raw)
            &&& (s.claimed)(raw) == Ok::<u32, Error>(trusted.root.version)
            &&& trusted.timestamp matches Some(timestamp)
            &&& match trusted.snapshot {
                Some(snapshot) => snapshot.version >= timestamp.snapshot.version,
                None => timestamp.snapshot.version == 0,
            }
            &&& trusted.snapshot matches Some(snapshot)
            &&& snapshot.meta@.contains_key("targets"@)
            &&& match trusted.targets {
                Some(targets) => targets.version >= snapshot.meta@["targets"@].version,
                None => snapshot.meta@["targets"@].version == 0,
            }
        }),
{
    let w = World::begin(tuf, replies);
    stepwise_update_is_update(limits, w);
    assert(replies.skip(0) =~= replies);
    assert(replies.take(0).len() == 0);
    lemma_current(s, limits, tuf, replies, w, root_step(limits));
    let trusted = update(limits, w).world.tuf;
    newer_snapshot_is_asked_for(trusted);
    newer_targets_are_asked_for(trusted);
}

/// The steps of an update that finds nothing to do, by the number of requests made before.
spec fn quiet(s: Surroundings, limits: Limits, step: UpdateStep, made: nat) -> bool {
    let latest_fetch = root_fetch(limits.root, MetadataVersion::Unversioned);
    match step {
        UpdateStep::Fetch(request) => match request.purpose {
            FetchPurpose::LatestRoot => made == 0 && request.fetch == latest_fetch,
            FetchPurpose::Timestamp { updated } => made == 2 && !updated && request.fetch
                == timestamp_fetch(limits.timestamp),
            _ => false,
        },
        UpdateStep::Parse(request) => made == 1 && (s.fetch)(latest_fetch) == Ok::<Vec<u8>, Error>(
            request.raw,
        ),
        UpdateStep::Trust(request) => {
            &&& made == 3
            &&& request.role == Role::Timestamp
            &&& request.purpose == (TrustPurpose::Timestamp { updated: false })
            &&& (s.fetch)(timestamp_fetch(limits.timestamp)) == Ok::<Vec<u8>, Error>(request.raw)
        },
        UpdateStep::Store(_) => false,
        UpdateStep::Done(result) => made == 4 && result == Ok::<bool, Error>(false),
    }
}

/// Nothing among the requests is to be stored.
pub open spec fn stores_nothing(asked: Seq<Request>) -> bool {
    forall|i: int| 0 <= i < asked.len() ==> !((#[trigger] asked[i]) is Store)
}

/// Where everything is up to date, an update takes the four requests that it takes to see that.
proof fn lemma_quiet(
    s: Surroundings,
    limits: Limits,
    tuf: Tuf,
    replies: Seq<Reply>,
    w: World,
    step: UpdateStep,
)
    requires
        current(s, limits, tuf, UpdateStep::Done(Ok(true))),
        in_step(replies, w),
        w.tuf == tuf,
        tuf == trusted_after_replies(tuf, replies.take(w.asked.len() as int)),
        stores_nothing(w.asked),
        quiet(s, limits, step, w.asked.len()),
        all_given_by(s, tuf, run_update(limits, w, step).world.asked, replies),
    ensures
        ({
            let run = run_update(limits, w, step);
            &&& run.result matches Some(result) ==> result == Ok::<bool, Error>(false)
            &&& replies.len() >= 4 ==> run.result is Some
            &&& run.world.tuf == tuf
            &&& stores_nothing(run.world.asked)
        }),
    decreases w.replies.len(),
{
    let n = w.asked.len() as int;
    lemma_asked(limits, w, step);
    if step_request(step) is Some {
        let asked = run_update(limits, w, step).world.asked;
        let request = step_request(step)->0;
        let asking = w.ask(request);
        assert forall|i: int| 0 <= i < asking.asked.len() implies !((#[trigger] asking.asked[i])
            is Store) by {
            if i < n {
                assert(asking.asked[i] == w.asked[i]);
            }
        }
        if w.replies.len() > 0 {
            assert(w.replies[0] == replies[n]);
            assert(given_by(s, w.tuf, asked[n], replies[n]));
            let next = asking.answered();
            assert(next.replies =~= replies.skip(n + 1));
            assert(replies.take(n + 1).drop_last() =~= replies.take(n));
            assert(replies.take(n + 1).last() == replies[n]);
            match (step, w.replies[0]) {
                (UpdateStep::Fetch(request), Reply::Fetched(reply)) => {
                    let step = fetched_step(request.purpose, reply);
                    lemma_quiet(s, limits, tuf, replies, next, step);
                },
                (UpdateStep::Parse(request), Reply::Parsed(reply)) => {
                    let step = parsed_step(limits, tuf, request.raw, reply);
                    lemma_quiet(s, limits, tuf, replies, next, step);
                },
                (UpdateStep::Trust(request), Reply::Trusted(reply)) => {
                    let step = trusted_step(tuf, request.raw, request.purpose, reply);
                    assert(next.trusting(trusted_after(tuf, reply)) == next);
                    lemma_quiet(s, limits, tuf, replies, next, step);
                },
                _ => {},
            }
        }
    }
}

/// An update that succeeded leaves nothing to do: over surroundings that have not changed, the next
/// update says that nothing was updated, changes nothing that is trusted and stores nothing. (It
/// ends after the replies to its four requests.)
pub proof fn repeated_update_changes_nothing(
    limits: Limits,
    s: Surroundings,
    tuf: Tuf,
    replies: Seq<Reply>,
    again: Seq<Reply>,
)
    requires
        verifies_well(s),
        ({
            let run = update(limits, World::begin(tuf, replies));
            &&& run.result matches Some(Ok(_))
            &&& all_given_by(s, tuf, run.world.asked, replies)
            &&& all_given_by(
                s,
                run.world.tuf,
                update(limits, World::begin(run.world.tuf, again)).world.asked,
                again,
            )
        }),
    ensures
        ({
            let run = update(limits, World::begin(tuf, replies));
            let next = update(limits, World::begin(run.world.tuf, again));
            &&& next.result matches Some(result) ==> result == Ok::<bool, Error>(false)
            &&& again.len() >= 4 ==> next.result is Some
            &&& next.world.tuf == run.world.tuf
            &&& stores_nothing(next.world.asked)
        }),
{
    let w = World::begin(tuf, replies);
    stepwise_update_is_update(limits, w);
    assert(replies.skip(0) =~= replies);
    assert(replies.take(0).len() == 0);
    lemma_current(s, limits, tuf, replies, w, root_step(limits));

    let trusted = update(limits, w).world.tuf;
    let v = World::begin(trusted, again);
    stepwise_update_is_update(limits, v);
    assert(again.skip(0) =~= again);
    assert(again.take(0).len() == 0);
    lemma_quiet(s, limits, trusted, again, v, root_step(limits));
}

} // verus!
