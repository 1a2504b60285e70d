//! What holds of every update, whatever the replies.

use vstd::prelude::*;

use crate::error::{Error, Message};
use crate::fetch::{root_fetch, Fetch, Source};
use crate::metadata::{MetadataVersion, Role, Tuf};
use crate::path::MetadataPath;
use crate::run::{
    any_accepted, had, lemma_orderly, lemma_stores, orderly, stores_accepted,
    trusted_after_replies, was_accepted,
};
use crate::run::{Reply, Request, World};
use crate::update::{
    fetched_step, parsed_step, root_step, snapshot_wanted, stored_step, targets_wanted,
    trusted_after, trusted_step,
};
use crate::update::{FetchPurpose, Limits, StorePurpose, TrustPurpose, UpdateStep};
use crate::update_run::{
    comes_raw, comes_trust, root_versions, run_update, stepwise_update_is_update, update,
    update_root,
};

verus! {

/// The fetch goes to the remote repository, and it says how much it takes: root and timestamp
/// metadata up to the configured length, the other metadata up to the length described, with the
/// hash described.
pub open spec fn bounded(limits: Limits, fetch: Fetch) -> bool {
    &&& fetch.source == Source::Remote
    &&& match fetch.path {
        MetadataPath::Role(Role::Root) => fetch.max_length == limits.root && fetch.hash is None,
        MetadataPath::Role(Role::Timestamp) => fetch.max_length == limits.timestamp
            && fetch.hash is None,
        MetadataPath::Role(_) => fetch.max_length is Some && fetch.hash is Some,
        MetadataPath::Delegated(_) => false,
    }
}

/// All fetches among the requests are bounded.
pub open spec fn fetches_bounded(limits: Limits, asked: Seq<Request>) -> bool {
    forall|i: int|
        0 <= i < asked.len() ==> ((#[trigger] asked[i]) matches Request::Fetch(fetch) ==> bounded(
            limits,
            fetch,
        ))
}

/// The version of root metadata that the request asks for by number.
pub open spec fn root_number(request: Request) -> Option<u32> {
    match request {
        Request::Fetch(fetch) => match (fetch.path, fetch.version) {
            (MetadataPath::Role(Role::Root), MetadataVersion::Number(version)) => Some(version),
            _ => None,
        },
        _ => None,
    }
}

/// The versions of root metadata that the requests ask for by number, in order.
pub open spec fn root_numbers(asked: Seq<Request>) -> Seq<u32>
    decreases asked.len(),
{
    if asked.len() == 0 {
        Seq::empty()
    } else {
        let before = root_numbers(asked.drop_last());
        match root_number(asked.last()) {
            Some(version) => before.push(version),
            None => before,
        }
    }
}

/// The version of root metadata that the request stores by number.
pub open spec fn stored_root(request: Request) -> Option<u32> {
    match request {
        Request::Store(MetadataPath::Role(Role::Root), MetadataVersion::Number(version), _) => Some(
            version,
        ),
        _ => None,
    }
}

/// The versions of root metadata that the requests store by number, in order.
pub open spec fn stored_roots(asked: Seq<Request>) -> Seq<u32>
    decreases asked.len(),
{
    if asked.len() == 0 {
        Seq::empty()
    } else {
        let before = stored_roots(asked.drop_last());
        match stored_root(asked.last()) {
            Some(version) => before.push(version),
            None => before,
        }
    }
}

/// The numbers are those behind `version`, one by one.
pub open spec fn counts_from(version: u32, numbers: Seq<u32>) -> bool {
    forall|i: int| 0 <= i < numbers.len() ==> (#[trigger] numbers[i]) == version + 1 + i
}

/// The role of the metadata that is to be verified.
pub(crate) open spec fn verified_role(purpose: TrustPurpose) -> Role {
    match purpose {
        TrustPurpose::NextRoot { .. } => Role::Root,
        TrustPurpose::LatestRoot { .. } => Role::Root,
        TrustPurpose::Timestamp { .. } => Role::Timestamp,
        TrustPurpose::Snapshot { .. } => Role::Snapshot,
        TrustPurpose::Targets { .. } => Role::Targets,
    }
}

/// The file that root metadata is stored as.
spec fn root_file(version: u32, numbered: bool) -> MetadataVersion {
    if numbered {
        MetadataVersion::Number(version)
    } else {
        MetadataVersion::Unversioned
    }
}

/// What a step takes for granted: whether an update was accepted so far, and how many versions
/// of root metadata behind the version `trusted` were `asked` for and `stored` by number.
spec fn step_fits(
    limits: Limits,
    trusted: u32,
    step: UpdateStep,
    asked: nat,
    stored: nat,
    accepted: bool,
) -> bool {
    match step {
        UpdateStep::Fetch(request) => {
            let number = root_number(Request::Fetch(request.fetch));
            bounded(limits, request.fetch) && match request.purpose {
                FetchPurpose::LatestRoot => !accepted && number is None && asked == 0 && stored
                    == 0,
                FetchPurpose::NextRoot { version, latest, .. } => {
                    &&& number == Some(version)
                    &&& version == trusted + 1 + asked
                    &&& version == trusted + 1 + stored
                    &&& version < latest
                },
                FetchPurpose::Timestamp { updated } => number is None && updated == accepted,
                FetchPurpose::Snapshot { updated } => number is None && updated == accepted,
                FetchPurpose::Targets { updated } => number is None && updated == accepted,
            }
        },
        UpdateStep::Parse(request) => !accepted && asked == 0 && stored == 0,
        UpdateStep::Trust(request) => request.role == verified_role(request.purpose)
            && match request.purpose {
            TrustPurpose::NextRoot { version, latest, .. } => {
                &&& version == trusted + asked
                &&& version == trusted + 1 + stored
                &&& version < latest
            },
            TrustPurpose::LatestRoot { version } => version == trusted + 1 + stored,
            TrustPurpose::Timestamp { updated } => updated == accepted,
            TrustPurpose::Snapshot { updated } => updated == accepted,
            TrustPurpose::Targets { updated } => updated == accepted,
        },
        UpdateStep::Store(request) => accepted && match request.purpose {
            StorePurpose::NextRoot { version, latest, numbered, .. } => {
                &&& request.path == MetadataPath::Role(Role::Root)
                &&& request.version == root_file(version, numbered)
                &&& version == trusted + asked
                &&& version == trusted + 1 + stored
                &&& version < latest
            },
            StorePurpose::LatestRoot { version, numbered } => {
                &&& request.path == MetadataPath::Role(Role::Root)
                &&& request.version == root_file(version, numbered)
                &&& version == trusted + 1 + stored
            },
            _ => request.path != MetadataPath::Role(Role::Root),
        },
        UpdateStep::Done(Ok(updated)) => updated == accepted,
        UpdateStep::Done(Err(_)) => true,
    }
}

/// What holds whenever an update that began with `tuf` trusted takes a step.
spec fn update_fits(
    limits: Limits,
    tuf: Tuf,
    replies: Seq<Reply>,
    w: World,
    step: UpdateStep,
) -> bool {
    &&& orderly(tuf, replies, w)
    &&& fetches_bounded(limits, w.asked)
    &&& counts_from(tuf.root.version, root_numbers(w.asked))
    &&& counts_from(tuf.root.version, stored_roots(w.asked))
    &&& any_accepted(had(replies, w)) || w.tuf == tuf
    &&& step_fits(
        limits,
        tuf.root.version,
        step,
        root_numbers(w.asked).len(),
        stored_roots(w.asked).len(),
        any_accepted(had(replies, w)),
    )
    &&& step matches UpdateStep::Store(request) ==> was_accepted(
        w.asked,
        replies,
        request.path,
        request.raw,
    )
}

/// What is left to be shown of the requests made when a run ends or waits.
spec fn asked_well(limits: Limits, tuf: Tuf, replies: Seq<Reply>, asked: Seq<Request>) -> bool {
    &&& stores_accepted(asked, replies)
    &&& fetches_bounded(limits, asked)
    &&& counts_from(tuf.root.version, root_numbers(asked))
    &&& counts_from(tuf.root.version, stored_roots(asked))
}

/// The request of a step, if it makes one.
pub(crate) open spec fn step_request(step: UpdateStep) -> Option<Request> {
    match step {
        UpdateStep::Fetch(request) => Some(Request::Fetch(request.fetch)),
        UpdateStep::Parse(request) => Some(Request::Parse(request.raw)),
        UpdateStep::Trust(request) => Some(Request::Trust(request.role, request.raw)),
        UpdateStep::Store(request) => Some(
            Request::Store(request.path, request.version, request.raw),
        ),
        UpdateStep::Done(_) => None,
    }
}

proof fn lemma_ask(limits: Limits, tuf: Tuf, replies: Seq<Reply>, w: World, step: UpdateStep)
    requires
        update_fits(limits, tuf, replies, w, step),
        step_request(step) is Some,
    ensures
        asked_well(limits, tuf, replies, w.ask(step_request(step)->0).asked),
        ({
            let request = step_request(step)->0;
            let before = root_numbers(w.asked);
            root_numbers(w.asked.push(request)) == match root_number(request) {
                Some(version) => before.push(version),
                None => before,
            }
        }),
        ({
            let request = step_request(step)->0;
            let before = stored_roots(w.asked);
            stored_roots(w.asked.push(request)) == match stored_root(request) {
                Some(version) => before.push(version),
                None => before,
            }
        }),
{
    let request = step_request(step)->0;
    lemma_stores(replies, w, request);
    let asked = w.asked.push(request);
    assert(asked.drop_last() =~= w.asked);
    assert forall|i: int| 0 <= i < asked.len() implies ((#[trigger] asked[i])
        matches Request::Fetch(fetch) ==> bounded(limits, fetch)) by {
        if i < w.asked.len() {
            assert(asked[i] == w.asked[i]);
        }
    }
}

proof fn lemma_update_run(
    limits: Limits,
    tuf: Tuf,
    replies: Seq<Reply>,
    w: World,
    step: UpdateStep,
)
    requires
        update_fits(limits, tuf, replies, w, step),
    ensures
        ({
            let run = run_update(limits, w, step);
            &&& asked_well(limits, tuf, replies, run.world.asked)
            &&& run.world.tuf == trusted_after_replies(tuf, had(replies, run.world))
            &&& any_accepted(had(replies, run.world)) || run.world.tuf == tuf
            &&& run.result matches Some(Ok(updated)) ==> updated == any_accepted(
                had(replies, run.world),
            )
        }),
    decreases w.replies.len(),
{
    if step_request(step) is Some {
        let request = step_request(step)->0;
        let asking = w.ask(request);
        lemma_ask(limits, tuf, replies, w, step);
        assert(had(replies, asking) == had(replies, w));
        if w.replies.len() > 0 {
            lemma_orderly(tuf, replies, w, request);
            match (step, w.replies[0]) {
                (UpdateStep::Fetch(request), Reply::Fetched(reply)) => {
                    lemma_update_run(
                        limits,
                        tuf,
                        replies,
                        asking.answered(),
                        fetched_step(request.purpose, reply),
                    );
                },
                (UpdateStep::Parse(request), Reply::Parsed(reply)) => {
                    lemma_update_run(
                        limits,
                        tuf,
                        replies,
                        asking.answered(),
                        parsed_step(limits, w.tuf, request.raw, reply),
                    );
                },
                (UpdateStep::Trust(request), Reply::Trusted(reply)) => {
                    lemma_update_run(
                        limits,
                        tuf,
                        replies,
                        asking.answered().trusting(trusted_after(w.tuf, reply)),
                        trusted_step(w.tuf, request.raw, request.purpose, reply),
                    );
                },
                (UpdateStep::Store(request), Reply::Stored(now)) => {
                    lemma_update_run(
                        limits,
                        tuf,
                        replies,
                        asking.answered(),
                        stored_step(limits, w.tuf, request.raw, request.purpose, now),
                    );
                },
                _ => {},
            }
        }
    }
}

proof fn lemma_update(limits: Limits, tuf: Tuf, replies: Seq<Reply>)
    ensures
        ({
            let run = update(limits, World::begin(tuf, replies));
            &&& asked_well(limits, tuf, replies, run.world.asked)
            &&& run.world.tuf == trusted_after_replies(tuf, had(replies, run.world))
            &&& any_accepted(had(replies, run.world)) || run.world.tuf == tuf
            &&& run.result matches Some(Ok(updated)) ==> updated == any_accepted(
                had(replies, run.world),
            )
        }),
{
    let w = World::begin(tuf, replies);
    assert(had(replies, w) =~= Seq::empty());
    assert(replies =~= replies.skip(0));
    lemma_update_run(limits, tuf, replies, w, root_step(limits));
    stepwise_update_is_update(limits, w);
}

/// An update that succeeds says `true` if and only if it brought in metadata: if the verification
/// of some metadata accepted it as an update. If none did, the trusted metadata is as before.
pub proof fn update_says_whether_it_updated(limits: Limits, tuf: Tuf, replies: Seq<Reply>)
    ensures
        ({
            let run = update(limits, World::begin(tuf, replies));
            let accepted = any_accepted(had(replies, run.world));
            &&& run.result matches Some(Ok(updated)) ==> updated == accepted
            &&& !accepted ==> run.world.tuf == tuf
        }),
{
    lemma_update(limits, tuf, replies);
}

/// An update changes the trusted metadata by accepted metadata only, whether it succeeds or fails:
/// what is trusted is always what the last verification that accepted metadata says.
pub proof fn update_trusts_what_was_accepted(limits: Limits, tuf: Tuf, replies: Seq<Reply>)
    ensures
        ({
            let run = update(limits, World::begin(tuf, replies));
            run.world.tuf == trusted_after_replies(tuf, had(replies, run.world))
        }),
{
    lemma_update(limits, tuf, replies);
}

/// An update stores metadata only after the same bytes were accepted as metadata of that role.
pub proof fn update_stores_what_was_accepted(limits: Limits, tuf: Tuf, replies: Seq<Reply>)
    ensures
        stores_accepted(update(limits, World::begin(tuf, replies)).world.asked, replies),
{
    lemma_update(limits, tuf, replies);
}

/// An update asks only the remote repository for metadata, and never for more than is to be
/// expected: root and timestamp metadata up to the configured lengths, snapshot and targets
/// metadata with the length and a hash that trusted metadata describes.
pub proof fn update_fetches_are_bounded(limits: Limits, tuf: Tuf, replies: Seq<Reply>)
    ensures
        fetches_bounded(limits, update(limits, World::begin(tuf, replies)).world.asked),
{
    lemma_update(limits, tuf, replies);
}

/// An update brings in root metadata version by version, however far it comes: the versions that it
/// asks for by number, and those that it stores by number, count up from the one behind the trusted
/// version.
pub proof fn update_counts_roots_up(limits: Limits, tuf: Tuf, replies: Seq<Reply>)
    ensures
        ({
            let asked = update(limits, World::begin(tuf, replies)).world.asked;
            &&& counts_from(tuf.root.version, root_numbers(asked))
            &&& counts_from(tuf.root.version, stored_roots(asked))
        }),
{
    lemma_update(limits, tuf, replies);
}

/// The versions from `first` up to the one before `end`.
pub open spec fn versions(first: int, end: int) -> Seq<u32>
    recommends
        0 <= first <= end <= u32::MAX + 1,
{
    Seq::new((end - first) as nat, |i: int| (first + i) as u32)
}

pub(crate) proof fn lemma_push(asked: Seq<Request>, request: Request)
    ensures
        root_numbers(asked.push(request)) == match root_number(request) {
            Some(version) => root_numbers(asked).push(version),
            None => root_numbers(asked),
        },
        stored_roots(asked.push(request)) == match stored_root(request) {
            Some(version) => stored_roots(asked).push(version),
            None => stored_roots(asked),
        },
{
    assert(asked.push(request).drop_last() =~= asked);
}

proof fn lemma_root_versions(
    limits: Limits,
    w: World,
    version: u32,
    latest: u32,
    latest_raw: Vec<u8>,
)
    requires
        version <= latest,
    ensures
        ({
            let run = root_versions(limits, w, version, latest, latest_raw);
            run.result is Some && run.result->0 is Ok ==> {
                &&& root_numbers(run.world.asked) =~= root_numbers(w.asked) + versions(
                    version as int,
                    latest as int,
                )
                &&& stored_roots(run.world.asked) =~= stored_roots(w.asked) + versions(
                    version as int,
                    latest + 1,
                )
            }
        }),
    decreases latest - version,
{
    let root = MetadataPath::Role(Role::Root);
    if version < latest {
        let next = (version + 1) as u32;
        let fetch = Request::Fetch(root_fetch(limits.root, MetadataVersion::Number(version)));
        let w1 = w.ask(fetch);
        lemma_push(w.asked, fetch);
        if comes_raw(w1) is Some {
            let raw = comes_raw(w1)->0;
            let trust = Request::Trust(Role::Root, raw);
            let w2 = w1.answered().ask(trust);
            lemma_push(w1.asked, trust);
            if comes_trust(w2) is Some {
                let store = Request::Store(root, MetadataVersion::Unversioned, raw);
                let w3 = w2.answered().trusting(comes_trust(w2)->0).ask(store);
                lemma_push(w2.asked, store);
                let numbered = Request::Store(root, MetadataVersion::Number(version), raw);
                let w4 = w3.answered().ask(numbered);
                lemma_push(w3.asked, numbered);
                lemma_root_versions(limits, w4.answered(), next, latest, latest_raw);
            }
        }
    } else {
        let trust = Request::Trust(Role::Root, latest_raw);
        lemma_push(w.asked, trust);
        let w1 = w.ask(trust);
        let store = Request::Store(root, MetadataVersion::Unversioned, latest_raw);
        lemma_push(w1.asked, store);
        let w2 = w1.ask(store);
        let numbered = Request::Store(root, MetadataVersion::Number(latest), latest_raw);
        lemma_push(w2.asked, numbered);
    }
}

/// Root metadata that was updated was brought in version by version with none left out: the
/// versions asked for by number are exactly those between the trusted version and the latest one,
/// and those stored by number are the same and the latest.
pub proof fn updated_root_leaves_out_no_version(limits: Limits, tuf: Tuf, replies: Seq<Reply>)
    ensures
        ({
            let run = update_root(limits, World::begin(tuf, replies));
            run.result == Some(Ok::<bool, Error>(true)) ==> {
                &&& replies[1] matches Reply::Parsed(Ok(latest))
                &&& tuf.root.version < latest
                &&& root_numbers(run.world.asked) == versions(tuf.root.version + 1, latest as int)
                &&& stored_roots(run.world.asked) == versions(tuf.root.version + 1, latest + 1)
            }
        }),
{
    let w = World::begin(tuf, replies);
    let fetch = Request::Fetch(root_fetch(limits.root, MetadataVersion::Unversioned));
    let w1 = w.ask(fetch);
    lemma_push(w.asked, fetch);
    if comes_raw(w1) is Some {
        let raw = comes_raw(w1)->0;
        let parse = Request::Parse(raw);
        let w2 = w1.answered().ask(parse);
        lemma_push(w1.asked, parse);
        if w2.replies.len() > 0 {
            assert(w2.replies[0] == replies[1]);
            match w2.replies[0] {
                Reply::Parsed(Ok(latest)) => {
                    if latest > tuf.root.version {
                        let next = (tuf.root.version + 1) as u32;
                        lemma_root_versions(limits, w2.answered(), next, latest, raw);
                    }
                },
                _ => {},
            }
        }
    }
}

/// Where the latest root metadata claims to be older than the trusted one, an update fails and
/// changes nothing, whatever the replies that were still to come.
pub proof fn older_root_is_refused(
    limits: Limits,
    tuf: Tuf,
    raw: Vec<u8>,
    latest: u32,
    rest: Seq<Reply>,
)
    requires
        latest < tuf.root.version,
    ensures
        ({
            let replies = seq![Reply::Fetched(Ok(raw)), Reply::Parsed(Ok(latest))] + rest;
            let run = update(limits, World::begin(tuf, replies));
            let older = Message::LatestRootOlder { latest, trusted: tuf.root.version };
            &&& run.result == Some(Err::<bool, Error>(Error::VerificationFailure(older)))
            &&& run.world.tuf == tuf
            &&& run.world.replies == rest
        }),
{
    let replies = seq![Reply::Fetched(Ok(raw)), Reply::Parsed(Ok(latest))] + rest;
    assert(replies.drop_first()[0] == Reply::Parsed(Ok(latest)));
    assert(replies.drop_first().drop_first() =~= rest);
}

/// Where the repository holds nothing new, an update says so and makes no request beyond those
/// for the latest root metadata and the timestamp metadata.
pub proof fn nothing_new_is_no_update(
    limits: Limits,
    tuf: Tuf,
    root: Vec<u8>,
    timestamp: Vec<u8>,
    rest: Seq<Reply>,
)
    requires
        snapshot_wanted(tuf) == Ok::<Option<Fetch>, Error>(None),
        targets_wanted(tuf) == Ok::<Option<Fetch>, Error>(None),
    ensures
        ({
            let replies = seq![
                Reply::Fetched(Ok(root)),
                Reply::Parsed(Ok(tuf.root.version)),
                Reply::Fetched(Ok(timestamp)),
                Reply::Trusted(Ok(None)),
            ] + rest;
            let run = update(limits, World::begin(tuf, replies));
            &&& run.result == Some(Ok::<bool, Error>(false))
            &&& run.world.tuf == tuf
            &&& run.world.replies == rest
        }),
{
    let replies = seq![
        Reply::Fetched(Ok(root)),
        Reply::Parsed(Ok(tuf.root.version)),
        Reply::Fetched(Ok(timestamp)),
        Reply::Trusted(Ok(None)),
    ] + rest;
    let second = replies.drop_first();
    let third = second.drop_first();
    let fourth = third.drop_first();
    assert(second[0] == Reply::Parsed(Ok(tuf.root.version)));
    assert(third[0] == Reply::Fetched(Ok(timestamp)));
    assert(fourth[0] == Reply::Trusted(Ok(None)));
    assert(fourth.drop_first() =~= rest);
}

/// Root metadata is brought up to date only if it has not expired by the time that it was last
/// stored: an update of the root metadata that succeeds ends with that time before its expiry.
pub proof fn updated_root_has_not_expired(
    limits: Limits,
    w: World,
    version: u32,
    latest: u32,
    latest_raw: Vec<u8>,
)
    ensures
        ({
            let run = root_versions(limits, w, version, latest, latest_raw);
            run.result is Some && run.result->0 is Ok ==> {
                let left = run.world.replies.len();
                &&& run.result->0 == Ok::<bool, Error>(true)
                &&& left < w.replies.len()
                &&& w.replies[w.replies.len() - left - 1] matches Reply::Stored(now)
                &&& !run.world.tuf.root.expires.not_after(now)
            }
        }),
    decreases latest - version,
{
    if version < latest {
        let next = (version + 1) as u32;
        let root = MetadataPath::Role(Role::Root);
        let w1 = w.ask(Request::Fetch(root_fetch(limits.root, MetadataVersion::Number(version))));
        if comes_raw(w1) is Some {
            let raw = comes_raw(w1)->0;
            let w2 = w1.answered().ask(Request::Trust(Role::Root, raw));
            if comes_trust(w2) is Some {
                let w3 = w2.answered().trusting(comes_trust(w2)->0).ask(
                    Request::Store(root, MetadataVersion::Unversioned, raw),
                );
                let w4 = w3.answered().ask(
                    Request::Store(root, MetadataVersion::Number(version), raw),
                );
                updated_root_has_not_expired(limits, w4.answered(), next, latest, latest_raw);
                if w3.replies.len() > 1 {
                    assert(w4.answered().replies =~= w.replies.skip(4));
                }
            }
        }
    } else if w.replies.len() > 2 {
        assert(w.replies.drop_first().drop_first()[0] == w.replies[2]);
    }
}

} // verus!
