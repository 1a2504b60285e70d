//! What follows what in an update: how each request rests on the requests and replies before it.

use vstd::prelude::*;

use crate::error::{Error, Message};
use crate::fetch::{Fetch, Source};
use crate::metadata::{MetadataVersion, Role, Tuf};
use crate::path::MetadataPath;
use crate::repeat_laws::lemma_asked;
use crate::run::{in_step, trusted_after_replies, Reply, Request, Run, World};
use crate::time::UtcTime;
use crate::update::{
    fetched_step, parsed_step, root_step, snapshot_wanted, stored_step, targets_wanted,
    trusted_after, trusted_step,
};
use crate::update::{FetchPurpose, Limits, StorePurpose, TrustPurpose, UpdateStep};
use crate::update_laws::{lemma_push, step_request, stored_roots, verified_role};
use crate::update_run::{run_update, stepwise_update_is_update, update};

verus! {

/// The request behind the `i`th is this one.
pub open spec fn then_asks<R>(run: Run<R>, i: int, request: Request) -> bool {
    i + 1 < run.world.asked.len() && run.world.asked[i + 1] == request
}

/// The `i`th request is the last, and the run is over with this result.
pub open spec fn then_ends<R>(run: Run<R>, i: int, result: R) -> bool {
    i + 1 == run.world.asked.len() && run.result == Some(result)
}

/// The `i`th request is the last, and the run succeeds.
pub open spec fn then_succeeds(run: Run<Result<bool, Error>>, i: int) -> bool {
    i + 1 == run.world.asked.len() && (run.result matches Some(Ok(_)))
}

/// The request for a file of the root metadata from the remote repository.
spec fn ask_root(limits: Limits, version: MetadataVersion) -> Request {
    Request::Fetch(
        Fetch {
            source: Source::Remote,
            path: MetadataPath::Role(Role::Root),
            version,
            max_length: limits.root,
            hash: None,
        },
    )
}

/// The request for the timestamp metadata from the remote repository.
spec fn ask_timestamp(limits: Limits) -> Request {
    Request::Fetch(
        Fetch {
            source: Source::Remote,
            path: MetadataPath::Role(Role::Timestamp),
            version: MetadataVersion::Unversioned,
            max_length: limits.timestamp,
            hash: None,
        },
    )
}

/// What follows once the snapshot metadata is up to date.
spec fn on_to_targets(run: Run<Result<bool, Error>>, i: int, tuf: Tuf) -> bool {
    match targets_wanted(tuf) {
        Err(error) => then_ends(run, i, Err(error)),
        Ok(Some(fetch)) => then_asks(run, i, Request::Fetch(fetch)),
        Ok(None) => then_succeeds(run, i),
    }
}

/// What follows once the timestamp metadata is up to date.
spec fn on_to_snapshot(run: Run<Result<bool, Error>>, i: int, tuf: Tuf) -> bool {
    match snapshot_wanted(tuf) {
        Err(error) => then_ends(run, i, Err(error)),
        Ok(Some(fetch)) => then_asks(run, i, Request::Fetch(fetch)),
        Ok(None) => on_to_targets(run, i, tuf),
    }
}

/// What follows the `i`th request of an update and the reply to it is what has to.
spec fn proper(
    limits: Limits,
    tuf: Tuf,
    replies: Seq<Reply>,
    run: Run<Result<bool, Error>>,
    i: int,
) -> bool {
    let asked = run.world.asked;
    let now_trusted = trusted_after_replies(tuf, replies.take(i + 1));
    let trusted = tuf.root.version;
    match (asked[i], replies[i]) {
        (Request::Fetch(_), Reply::Fetched(Err(error))) => then_ends(run, i, Err(error)),
        (Request::Parse(_), Reply::Parsed(Err(error))) => then_ends(run, i, Err(error)),
        (Request::Trust(_, _), Reply::Trusted(Err(error))) => then_ends(run, i, Err(error)),
        (Request::Fetch(fetch), Reply::Fetched(Ok(raw))) => {
            &&& fetch.path matches MetadataPath::Role(role)
            &&& if role == Role::Root && fetch.version == MetadataVersion::Unversioned {
                then_asks(run, i, Request::Parse(raw))
            } else {
                then_asks(run, i, Request::Trust(role, raw))
            }
        },
        (Request::Parse(raw), Reply::Parsed(Ok(latest))) => if latest < trusted {
            then_ends(
                run,
                i,
                Err(Error::VerificationFailure(Message::LatestRootOlder { latest, trusted })),
            )
        } else if latest == trusted {
            then_asks(run, i, ask_timestamp(limits))
        } else if latest == trusted + 1 {
            then_asks(run, i, Request::Trust(Role::Root, raw))
        } else {
            then_asks(run, i, ask_root(limits, MetadataVersion::Number((trusted + 1) as u32)))
        },
        (Request::Trust(role, raw), Reply::Trusted(Ok(Some(_)))) => then_asks(
            run,
            i,
            Request::Store(MetadataPath::Role(role), MetadataVersion::Unversioned, raw),
        ),
        (Request::Trust(role, _), Reply::Trusted(Ok(None))) => match role {
            Role::Root => then_ends(run, i, Err(Error::Programming(Message::NoUpdateOccurred))),
            Role::Timestamp => on_to_snapshot(run, i, now_trusted),
            Role::Snapshot => on_to_targets(run, i, now_trusted),
            Role::Targets => then_succeeds(run, i),
        },
        (Request::Store(path, version, raw), Reply::Stored(now)) => match path {
            MetadataPath::Role(Role::Timestamp) => on_to_snapshot(run, i, now_trusted),
            MetadataPath::Role(Role::Snapshot) => on_to_targets(run, i, now_trusted),
            MetadataPath::Role(Role::Targets) => then_succeeds(run, i),
            MetadataPath::Role(Role::Root) => match version {
                MetadataVersion::Unversioned => {
                    let number = trusted + 1 + stored_roots(asked.take(i)).len();
                    &&& number <= u32::MAX
                    &&& then_asks(
                        run,
                        i,
                        Request::Store(path, MetadataVersion::Number(number as u32), raw),
                    )
                },
                MetadataVersion::Number(number) => {
                    &&& replies[0] matches Reply::Fetched(Ok(latest_raw))
                    &&& replies[1] matches Reply::Parsed(Ok(latest))
                    &&& number <= latest
                    &&& if number + 1 < latest {
                        let next = MetadataVersion::Number((number + 1) as u32);
                        then_asks(run, i, ask_root(limits, next))
                    } else if number + 1 == latest {
                        then_asks(run, i, Request::Trust(Role::Root, latest_raw))
                    } else if now_trusted.root.expires.not_after(now) {
                        then_ends(run, i, Err(Error::ExpiredMetadata(Role::Root)))
                    } else {
                        then_asks(run, i, ask_timestamp(limits))
                    }
                },
                MetadataVersion::Hash(_) => false,
            },
            MetadataPath::Delegated(_) => false,
        },
        _ => true,
    }
}

/// The latest root metadata, and the version that it claims, are these.
spec fn latest_is(replies: Seq<Reply>, raw: Vec<u8>, latest: u32) -> bool {
    &&& replies.len() >= 2
    &&& replies[0] == Reply::Fetched(Ok(raw))
    &&& replies[1] == Reply::Parsed(Ok(latest))
}

/// What a step takes for granted: the request and its purpose go together, and a version of root
/// metadata that it is about is the one behind those stored by number so far.
spec fn step_fits(
    limits: Limits,
    tuf: Tuf,
    replies: Seq<Reply>,
    w: World,
    step: UpdateStep,
) -> bool {
    let number = tuf.root.version + 1 + stored_roots(w.asked).len();
    match step {
        UpdateStep::Fetch(request) => match request.purpose {
            FetchPurpose::LatestRoot => w.asked.len() == 0 && Request::Fetch(request.fetch)
                == ask_root(limits, MetadataVersion::Unversioned),
            FetchPurpose::NextRoot { version, latest, latest_raw } => {
                &&& Request::Fetch(request.fetch) == ask_root(
                    limits,
                    MetadataVersion::Number(version),
                )
                &&& version == number
                &&& version < latest
                &&& latest_is(replies, latest_raw, latest)
            },
            FetchPurpose::Timestamp { .. } => Request::Fetch(request.fetch) == ask_timestamp(
                limits,
            ),
            FetchPurpose::Snapshot { .. } => request.fetch.path == MetadataPath::Role(
                Role::Snapshot,
            ),
            FetchPurpose::Targets { .. } => request.fetch.path == MetadataPath::Role(Role::Targets),
        },
        UpdateStep::Parse(request) => {
            &&& w.asked.len() == 1
            &&& replies.len() >= 1
            &&& replies[0] == Reply::Fetched(Ok(request.raw))
            &&& w.tuf == tuf
            &&& stored_roots(w.asked).len() == 0
        },
        UpdateStep::Trust(request) => request.role == verified_role(request.purpose)
            && match request.purpose {
            TrustPurpose::NextRoot { version, latest, latest_raw } => {
                &&& version == number
                &&& version < latest
                &&& latest_is(replies, latest_raw, latest)
            },
            TrustPurpose::LatestRoot { version } => {
                &&& version == number
                &&& latest_is(replies, request.raw, version)
            },
            _ => true,
        },
        UpdateStep::Store(request) => match request.purpose {
            StorePurpose::NextRoot { version, latest, latest_raw, numbered } => {
                &&& request.path == MetadataPath::Role(Role::Root)
                &&& request.version == if numbered {
                    MetadataVersion::Number(version)
                } else {
                    MetadataVersion::Unversioned
                }
                &&& version == number
                &&& version < latest
                &&& latest_is(replies, latest_raw, latest)
            },
            StorePurpose::LatestRoot { version, numbered } => {
                &&& request.path == MetadataPath::Role(Role::Root)
                &&& request.version == if numbered {
                    MetadataVersion::Number(version)
                } else {
                    MetadataVersion::Unversioned
                }
                &&& version == number
                &&& latest_is(replies, request.raw, version)
            },
            StorePurpose::Timestamp => request.path == MetadataPath::Role(Role::Timestamp),
            StorePurpose::Snapshot => request.path == MetadataPath::Role(Role::Snapshot),
            StorePurpose::Targets => request.path == MetadataPath::Role(Role::Targets),
        },
        UpdateStep::Done(_) => true,
    }
}

/// What a step leads to: its request comes next, or the run is over.
proof fn lemma_then(limits: Limits, w: World, step: UpdateStep)
    requires
        w.asked.len() > 0,
    ensures
        ({
            let run = run_update(limits, w, step);
            let i = w.asked.len() - 1;
            match step_request(step) {
                Some(request) => then_asks(run, i, request),
                None => step matches UpdateStep::Done(result) && then_ends(run, i, result),
            }
        }),
{
    lemma_asked(limits, w, step);
}

proof fn lemma_trace(limits: Limits, tuf: Tuf, replies: Seq<Reply>, w: World, step: UpdateStep)
    requires
        in_step(replies, w),
        w.tuf == trusted_after_replies(tuf, replies.take(w.asked.len() as int)),
        step_fits(limits, tuf, replies, w, step),
    ensures
        forall|i: int|
            #![trigger replies[i]]
            w.asked.len() <= i < run_update(limits, w, step).world.asked.len() && i < replies.len()
                ==> proper(limits, tuf, replies, run_update(limits, w, step), i),
    decreases w.replies.len(),
{
    let n = w.asked.len() as int;
    let run = run_update(limits, w, step);
    lemma_asked(limits, w, step);
    if step_request(step) is Some {
        let request = step_request(step)->0;
        let asking = w.ask(request);
        lemma_push(w.asked, request);
        if w.replies.len() > 0 {
            assert(w.replies[0] == replies[n]);
            let next = asking.answered();
            assert(next.replies =~= replies.skip(n + 1));
            assert(replies.take(n + 1).drop_last() =~= replies.take(n));
            assert(replies.take(n + 1).last() == replies[n]);
            match (step, w.replies[0]) {
                (UpdateStep::Fetch(request), Reply::Fetched(reply)) => {
                    let step = fetched_step(request.purpose, reply);
                    lemma_then(limits, next, step);
                    lemma_trace(limits, tuf, replies, next, step);
                },
                (UpdateStep::Parse(request), Reply::Parsed(reply)) => {
                    let step = parsed_step(limits, w.tuf, request.raw, reply);
                    lemma_then(limits, next, step);
                    lemma_trace(limits, tuf, replies, next, step);
                },
                (UpdateStep::Trust(request), Reply::Trusted(reply)) => {
                    let step = trusted_step(w.tuf, request.raw, request.purpose, reply);
                    let next = next.trusting(trusted_after(w.tuf, reply));
                    lemma_then(limits, next, step);
                    lemma_trace(limits, tuf, replies, next, step);
                },
                (UpdateStep::Store(request), Reply::Stored(now)) => {
                    let step = stored_step(limits, w.tuf, request.raw, request.purpose, now);
                    lemma_then(limits, next, step);
                    lemma_trace(limits, tuf, replies, next, step);
                },
                _ => {},
            }
            assert(n < replies.len() && n < run.world.asked.len() ==> proper(
                limits,
                tuf,
                replies,
                run,
                n,
            ));
        }
    }
}

proof fn lemma_proper(limits: Limits, tuf: Tuf, replies: Seq<Reply>, i: int)
    requires
        answered_request(limits, tuf, replies, i),
    ensures
        proper(limits, tuf, replies, update(limits, World::begin(tuf, replies)), i),
        update(limits, World::begin(tuf, replies)).world.asked[0] == ask_root(
            limits,
            MetadataVersion::Unversioned,
        ),
{
    let w = World::begin(tuf, replies);
    stepwise_update_is_update(limits, w);
    assert(replies.skip(0) =~= replies);
    assert(replies.take(0).len() == 0);
    lemma_asked(limits, w, root_step(limits));
    lemma_trace(limits, tuf, replies, w, root_step(limits));
    let _ = replies[i];
}

/// The update makes an `i`th request, and there is a reply to it.
pub open spec fn answered_request(limits: Limits, tuf: Tuf, replies: Seq<Reply>, i: int) -> bool {
    0 <= i < update(limits, World::begin(tuf, replies)).world.asked.len() && i < replies.len()
}

/// An update begins by asking the remote repository for the latest root metadata, up to the
/// configured length.
pub proof fn update_begins_with_the_latest_root(limits: Limits, tuf: Tuf, replies: Seq<Reply>)
    ensures
        ({
            let asked = update(limits, World::begin(tuf, replies)).world.asked;
            &&& asked.len() > 0
            &&& asked[0] matches Request::Fetch(fetch)
            &&& fetch.source == Source::Remote
            &&& fetch.path == MetadataPath::Role(Role::Root)
            &&& fetch.version == MetadataVersion::Unversioned
            &&& fetch.max_length == limits.root
            &&& fetch.hash is None
        }),
{
    let w = World::begin(tuf, replies);
    stepwise_update_is_update(limits, w);
    lemma_asked(limits, w, root_step(limits));
}

/// A request that fails ends the update, with the error of the reply: fetching, reading the version
/// and verifying alike.
pub proof fn failed_request_ends_the_update(
    limits: Limits,
    tuf: Tuf,
    replies: Seq<Reply>,
    i: int,
    error: Error,
)
    requires
        answered_request(limits, tuf, replies, i),
    ensures
        ({
            let run = update(limits, World::begin(tuf, replies));
            let request = run.world.asked[i];
            &&& request is Fetch && replies[i] == Reply::Fetched(Err(error)) ==> then_ends(
                run,
                i,
                Err(error),
            )
            &&& request is Parse && replies[i] == Reply::Parsed(Err(error)) ==> then_ends(
                run,
                i,
                Err(error),
            )
            &&& request is Trust && replies[i] == Reply::Trusted(Err(error)) ==> then_ends(
                run,
                i,
                Err(error),
            )
        }),
{
    lemma_proper(limits, tuf, replies, i);
}

/// Metadata that was fetched is verified next, as metadata of the role that it was asked for as.
/// Only of the latest root metadata the version is read first.
pub proof fn fetched_metadata_is_verified(
    limits: Limits,
    tuf: Tuf,
    replies: Seq<Reply>,
    i: int,
    fetch: Fetch,
    raw: Vec<u8>,
)
    requires
        answered_request(limits, tuf, replies, i),
        update(limits, World::begin(tuf, replies)).world.asked[i] == Request::Fetch(fetch),
        replies[i] == Reply::Fetched(Ok(raw)),
    ensures
        ({
            let run = update(limits, World::begin(tuf, replies));
            &&& fetch.path matches MetadataPath::Role(role)
            &&& role == Role::Root && fetch.version == MetadataVersion::Unversioned ==> then_asks(
                run,
                i,
                Request::Parse(raw),
            )
            &&& !(role == Role::Root && fetch.version == MetadataVersion::Unversioned) ==> then_asks(
                run,
                i,
                Request::Trust(role, raw),
            )
        }),
{
    lemma_proper(limits, tuf, replies, i);
}

/// The version that the latest root metadata claims decides what comes next. An older one than the
/// trusted is an error, which names the two; the trusted one leaves the root as it is, so that the
/// timestamp metadata is asked for; the one behind it is verified at once; and before any later one
/// the version behind the trusted is asked for.
pub proof fn claimed_version_decides(
    limits: Limits,
    tuf: Tuf,
    replies: Seq<Reply>,
    i: int,
    raw: Vec<u8>,
    latest: u32,
)
    requires
        answered_request(limits, tuf, replies, i),
        update(limits, World::begin(tuf, replies)).world.asked[i] == Request::Parse(raw),
        replies[i] == Reply::Parsed(Ok(latest)),
    ensures
        ({
            let run = update(limits, World::begin(tuf, replies));
            let trusted = tuf.root.version;
            let older = Message::LatestRootOlder { latest, trusted };
            &&& latest < trusted ==> then_ends(run, i, Err(Error::VerificationFailure(older)))
            &&& latest == trusted ==> then_asks(
                run,
                i,
                Request::Fetch(
                    Fetch {
                        source: Source::Remote,
                        path: MetadataPath::Role(Role::Timestamp),
                        version: MetadataVersion::Unversioned,
                        max_length: limits.timestamp,
                        hash: None,
                    },
                ),
            )
            &&& latest == trusted + 1 ==> then_asks(run, i, Request::Trust(Role::Root, raw))
            &&& latest > trusted + 1 ==> then_asks(
                run,
                i,
                Request::Fetch(
                    Fetch {
                        source: Source::Remote,
                        path: MetadataPath::Role(Role::Root),
                        version: MetadataVersion::Number((trusted + 1) as u32),
                        max_length: limits.root,
                        hash: None,
                    },
                ),
            )
        }),
{
    lemma_proper(limits, tuf, replies, i);
}

/// Metadata that was accepted as an update is stored next: the same bytes, as the unversioned file
/// of the role.
pub proof fn accepted_metadata_is_stored(
    limits: Limits,
    tuf: Tuf,
    replies: Seq<Reply>,
    i: int,
    role: Role,
    raw: Vec<u8>,
)
    requires
        answered_request(limits, tuf, replies, i),
        update(limits, World::begin(tuf, replies)).world.asked[i] == Request::Trust(role, raw),
        replies[i] matches Reply::Trusted(Ok(Some(_))),
    ensures
        then_asks(
            update(limits, World::begin(tuf, replies)),
            i,
            Request::Store(MetadataPath::Role(role), MetadataVersion::Unversioned, raw),
        ),
{
    lemma_proper(limits, tuf, replies, i);
}

/// Root metadata that was stored as the unversioned file is stored by number next, whether or not
/// that went well: under the version behind the last one stored by number, or behind the one trusted
/// at first.
pub proof fn root_is_stored_by_number(
    limits: Limits,
    tuf: Tuf,
    replies: Seq<Reply>,
    i: int,
    raw: Vec<u8>,
)
    requires
        answered_request(limits, tuf, replies, i),
        update(limits, World::begin(tuf, replies)).world.asked[i] == Request::Store(
            MetadataPath::Role(Role::Root),
            MetadataVersion::Unversioned,
            raw,
        ),
        replies[i] is Stored,
    ensures
        ({
            let run = update(limits, World::begin(tuf, replies));
            let number = tuf.root.version + 1 + stored_roots(run.world.asked.take(i)).len();
            &&& number <= u32::MAX
            &&& then_asks(
                run,
                i,
                Request::Store(
                    MetadataPath::Role(Role::Root),
                    MetadataVersion::Number(number as u32),
                    raw,
                ),
            )
        }),
{
    lemma_proper(limits, tuf, replies, i);
}

/// Behind root metadata that was stored by number, the chain goes on until the version that the
/// latest claims: the next version is asked for, or, where that is the latest, the latest is
/// verified, whatever the expiry of the root on the way. Only behind the latest its expiry is looked
/// at: the update ends with the error for it just if the root then trusted does not expire later
/// than the time of storing, and goes on to the timestamp metadata if it does.
pub proof fn chain_goes_on_to_the_latest_root(
    limits: Limits,
    tuf: Tuf,
    replies: Seq<Reply>,
    i: int,
    number: u32,
    raw: Vec<u8>,
    now: UtcTime,
)
    requires
        answered_request(limits, tuf, replies, i),
        update(limits, World::begin(tuf, replies)).world.asked[i] == Request::Store(
            MetadataPath::Role(Role::Root),
            MetadataVersion::Number(number),
            raw,
        ),
        replies[i] == Reply::Stored(now),
    ensures
        ({
            let run = update(limits, World::begin(tuf, replies));
            let expires = trusted_after_replies(tuf, replies.take(i + 1)).root.expires;
            let later = expires.seconds > now.seconds || (expires.seconds == now.seconds
                && expires.nanos > now.nanos);
            &&& replies[0] matches Reply::Fetched(Ok(latest_raw))
            &&& replies[1] matches Reply::Parsed(Ok(latest))
            &&& number <= latest
            &&& number + 1 < latest ==> then_asks(
                run,
                i,
                Request::Fetch(
                    Fetch {
                        source: Source::Remote,
                        path: MetadataPath::Role(Role::Root),
                        version: MetadataVersion::Number((number + 1) as u32),
                        max_length: limits.root,
                        hash: None,
                    },
                ),
            )
            &&& number + 1 == latest ==> then_asks(run, i, Request::Trust(Role::Root, latest_raw))
            &&& number == latest && !later ==> then_ends(
                run,
                i,
                Err(Error::ExpiredMetadata(Role::Root)),
            )
            &&& number == latest && later ==> then_asks(
                run,
                i,
                Request::Fetch(
                    Fetch {
                        source: Source::Remote,
                        path: MetadataPath::Role(Role::Timestamp),
                        version: MetadataVersion::Unversioned,
                        max_length: limits.timestamp,
                        hash: None,
                    },
                ),
            )
        }),
{
    lemma_proper(limits, tuf, replies, i);
}

/// Root metadata that was to be an update and is none is a programming error.
pub proof fn root_that_is_no_update_is_an_error(
    limits: Limits,
    tuf: Tuf,
    replies: Seq<Reply>,
    i: int,
)
    requires
        answered_request(limits, tuf, replies, i),
        update(limits, World::begin(tuf, replies)).world.asked[i] matches Request::Trust(
            Role::Root,
            _,
        ),
        replies[i] == Reply::Trusted(Ok(None)),
    ensures
        then_ends(
            update(limits, World::begin(tuf, replies)),
            i,
            Err(Error::Programming(Message::NoUpdateOccurred)),
        ),
{
    lemma_proper(limits, tuf, replies, i);
}

/// The metadata of a role other than the root is done with at the `i`th request: it was verified
/// and is no update, or it was to be stored.
pub open spec fn done_with(
    limits: Limits,
    tuf: Tuf,
    replies: Seq<Reply>,
    i: int,
    role: Role,
) -> bool {
    let request = update(limits, World::begin(tuf, replies)).world.asked[i];
    ||| (request matches Request::Trust(verified, _) && verified == role && replies[i]
        == Reply::Trusted(Ok(None)))
    ||| (request matches Request::Store(path, _, _) && path == MetadataPath::Role(role)
        && replies[i] is Stored)
}

/// Behind the timestamp metadata come the snapshot metadata and then the targets metadata, each of
/// which is asked for just if the trusted metadata lists a newer one. Where it does not, the next is
/// looked at, and behind the targets metadata the update succeeds. (When newer metadata is asked for,
/// and how, is the matter of [`crate::fetch_laws`].)
pub proof fn roles_follow_in_order(limits: Limits, tuf: Tuf, replies: Seq<Reply>, i: int)
    requires
        answered_request(limits, tuf, replies, i),
    ensures
        ({
            let run = update(limits, World::begin(tuf, replies));
            let trusted = trusted_after_replies(tuf, replies.take(i + 1));
            let snapshot = snapshot_wanted(trusted);
            let targets = targets_wanted(trusted);
            &&& done_with(limits, tuf, replies, i, Role::Timestamp) ==> {
                &&& snapshot matches Err(error) ==> then_ends(run, i, Err(error))
                &&& snapshot matches Ok(Some(fetch)) ==> then_asks(run, i, Request::Fetch(fetch))
            }
            &&& done_with(limits, tuf, replies, i, Role::Snapshot) || (done_with(
                limits,
                tuf,
                replies,
                i,
                Role::Timestamp,
            ) && snapshot == Ok::<Option<Fetch>, Error>(None)) ==> {
                &&& targets matches Err(error) ==> then_ends(run, i, Err(error))
                &&& targets matches Ok(Some(fetch)) ==> then_asks(run, i, Request::Fetch(fetch))
                &&& targets == Ok::<Option<Fetch>, Error>(None) ==> then_succeeds(run, i)
            }
            &&& done_with(limits, tuf, replies, i, Role::Targets) ==> then_succeeds(run, i)
        }),
{
    lemma_proper(limits, tuf, replies, i);
}

} // verus!
