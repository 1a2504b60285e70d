//! The chain of root metadata: when it is brought in whole, and what can stop it.

use vstd::prelude::*;

use crate::error::{Error, Message};
use crate::fetch::root_fetch;
use crate::metadata::{MetadataVersion, Role, Tuf};
use crate::path::MetadataPath;
use crate::run::{Reply, Request, Run, World};
use crate::time::UtcTime;
use crate::update::Limits;
use crate::update_laws::stored_root;
use crate::update_run::{comes_raw, comes_trust, root_versions, update_root};

verus! {

/// The `j`th four of the replies bring in a version of root metadata: it is fetched and accepted,
/// and then stored twice.
pub open spec fn brings_in_one(replies: Seq<Reply>, j: int) -> bool {
    &&& replies[4 * j] matches Reply::Fetched(Ok(_))
    &&& replies[4 * j + 1] matches Reply::Trusted(Ok(Some(_)))
    &&& replies[4 * j + 2] is Stored
    &&& replies[4 * j + 3] is Stored
}

/// The replies bring in `n` versions of root metadata, one after the other.
pub open spec fn brings_in(replies: Seq<Reply>, n: int) -> bool {
    &&& replies.len() >= 4 * n
    &&& forall|j: int| 0 <= j < n ==> #[trigger] brings_in_one(replies, j)
}

/// Behind the first `k` replies come those that bring in the latest root metadata, which is at hand:
/// it is accepted, so that `tuf` is trusted, and stored twice, the second time at the time `now`.
pub open spec fn brings_in_latest(replies: Seq<Reply>, k: int, tuf: Tuf, now: UtcTime) -> bool {
    &&& replies.len() >= k + 3
    &&& replies[k] == Reply::Trusted(Ok(Some(tuf)))
    &&& replies[k + 1] is Stored
    &&& replies[k + 2] == Reply::Stored(now)
}

proof fn lemma_chain(
    limits: Limits,
    w: World,
    version: u32,
    latest: u32,
    latest_raw: Vec<u8>,
    tuf: Tuf,
    now: UtcTime,
)
    requires
        version <= latest,
        brings_in(w.replies, latest - version),
        brings_in_latest(w.replies, 4 * (latest - version), tuf, now),
    ensures
        ({
            let run = root_versions(limits, w, version, latest, latest_raw);
            &&& run.world.tuf == tuf
            &&& run.world.replies == w.replies.skip(4 * (latest - version) + 3)
            &&& run.result == Some(
                if tuf.root.expires.not_after(now) {
                    Err(Error::ExpiredMetadata(Role::Root))
                } else {
                    Ok::<bool, Error>(true)
                },
            )
        }),
    decreases latest - version,
{
    let n = latest - version;
    let replies = w.replies;
    let second = replies.drop_first();
    let third = second.drop_first();
    if version < latest {
        let fourth = third.drop_first();
        assert(brings_in_one(replies, 0));
        assert(second[0] == replies[1]);
        assert(third[0] == replies[2]);
        assert(fourth[0] == replies[3]);
        let left = fourth.drop_first();
        assert(left =~= replies.skip(4));
        assert forall|j: int| 0 <= j < n - 1 implies #[trigger] brings_in_one(left, j) by {
            assert(brings_in_one(replies, j + 1));
        }
        let root = MetadataPath::Role(Role::Root);
        let w1 = w.ask(Request::Fetch(root_fetch(limits.root, MetadataVersion::Number(version))));
        let raw = comes_raw(w1)->0;
        let w2 = w1.answered().ask(Request::Trust(Role::Root, raw));
        let w3 = w2.answered().trusting(comes_trust(w2)->0).ask(
            Request::Store(root, MetadataVersion::Unversioned, raw),
        );
        let w4 = w3.answered().ask(Request::Store(root, MetadataVersion::Number(version), raw));
        let next = (version + 1) as u32;
        lemma_chain(limits, w4.answered(), next, latest, latest_raw, tuf, now);
        assert(left.skip(4 * (n - 1) + 3) =~= replies.skip(4 * n + 3));
        assert(root_versions(limits, w, version, latest, latest_raw) == root_versions(
            limits,
            w4.answered(),
            next,
            latest,
            latest_raw,
        ));
    } else {
        assert(second[0] == replies[1]);
        assert(third[0] == replies[2]);
        assert(third.drop_first() =~= replies.skip(3));
    }
}

/// The whole chain of root metadata is brought in, up to the latest version, whatever the expiry of
/// the roots on the way: where each version between the trusted one and the latest is fetched and
/// accepted, and the latest is accepted, the root metadata is updated, and the latest is trusted. It
/// is refused as expired just if that one does not expire later than it was stored.
pub proof fn whole_chain_is_brought_in(
    limits: Limits,
    tuf: Tuf,
    latest_raw: Vec<u8>,
    latest: u32,
    chain: Seq<Reply>,
    trusted: Tuf,
    now: UtcTime,
)
    requires
        tuf.root.version < latest,
        brings_in(chain, latest - tuf.root.version - 1),
        brings_in_latest(chain, 4 * (latest - tuf.root.version - 1), trusted, now),
    ensures
        ({
            let replies = seq![Reply::Fetched(Ok(latest_raw)), Reply::Parsed(Ok(latest))] + chain;
            let run = update_root(limits, World::begin(tuf, replies));
            let expires = trusted.root.expires;
            let later = expires.seconds > now.seconds || (expires.seconds == now.seconds
                && expires.nanos > now.nanos);
            &&& run.world.tuf == trusted
            &&& later ==> run.result == Some(Ok::<bool, Error>(true))
            &&& !later ==> run.result == Some(
                Err::<bool, Error>(Error::ExpiredMetadata(Role::Root)),
            )
            &&& run.world.replies == chain.skip(4 * (latest - tuf.root.version - 1) + 3)
        }),
{
    let replies = seq![Reply::Fetched(Ok(latest_raw)), Reply::Parsed(Ok(latest))] + chain;
    assert(replies.drop_first()[0] == Reply::Parsed(Ok(latest)));
    assert(replies.drop_first().drop_first() =~= chain);
    let w = World::begin(tuf, replies);
    let w1 = w.ask(Request::Fetch(root_fetch(limits.root, MetadataVersion::Unversioned)));
    let w2 = w1.answered().ask(Request::Parse(latest_raw));
    let next = (tuf.root.version + 1) as u32;
    lemma_chain(limits, w2.answered(), next, latest, latest_raw, trusted, now);
}

/// The last reply that the run had.
pub open spec fn last_had<R>(replies: Seq<Reply>, run: Run<R>) -> Reply {
    replies[replies.len() - run.world.replies.len() - 1]
}

/// Why root metadata was not updated, by the last reply.
spec fn stopped(
    w: World,
    run: Run<Result<bool, Error>>,
    error: Error,
    latest: u32,
) -> bool {
    let last = last_had(w.replies, run);
    &&& run.world.replies.len() < w.replies.len()
    &&& {
        ||| last == Reply::Fetched(Err(error))
        ||| last == Reply::Trusted(Err(error))
        ||| last == Reply::Trusted(Ok(None)) && error == Error::Programming(
            Message::NoUpdateOccurred,
        )
        ||| {
            &&& error == Error::ExpiredMetadata(Role::Root)
            &&& last matches Reply::Stored(now)
            &&& run.world.tuf.root.expires.not_after(now)
            &&& run.world.asked.len() > 0
            &&& stored_root(run.world.asked.last()) == Some(latest)
        }
    }
}

proof fn lemma_stopped(
    limits: Limits,
    w: World,
    version: u32,
    latest: u32,
    latest_raw: Vec<u8>,
)
    requires
        version <= latest,
    ensures
        ({
            let run = root_versions(limits, w, version, latest, latest_raw);
            run.result is Some && run.result->0 is Err ==> stopped(
                w,
                run,
                run.result->0->Err_0,
                latest,
            )
        }),
    decreases latest - version,
{
    let replies = w.replies;
    let second = replies.drop_first();
    let third = second.drop_first();
    if replies.len() > 1 {
        assert(second[0] == replies[1]);
    }
    if replies.len() > 2 {
        assert(third[0] == replies[2]);
    }
    if version < latest {
        let root = MetadataPath::Role(Role::Root);
        let w1 = w.ask(Request::Fetch(root_fetch(limits.root, MetadataVersion::Number(version))));
        if comes_raw(w1) is Some {
            let raw = comes_raw(w1)->0;
            let w2 = w1.answered().ask(Request::Trust(Role::Root, raw));
            if comes_trust(w2) is Some {
                let w3 = w2.answered().trusting(comes_trust(w2)->0).ask(
                    Request::Store(root, MetadataVersion::Unversioned, raw),
                );
                let w4 = w3.answered().ask(
                    Request::Store(root, MetadataVersion::Number(version), raw),
                );
                let next = (version + 1) as u32;
                lemma_stopped(limits, w4.answered(), next, latest, latest_raw);
                if replies.len() > 3 {
                    assert(third.drop_first()[0] == replies[3]);
                    assert(w4.answered().replies =~= replies.skip(4));
                }
            }
        }
    }
}

/// What can stop an update of the root metadata: a request that fails, with its error; a latest root
/// that claims to be older than the trusted one; root metadata that turns out to be no update; and
/// the expiry of the latest root. That last one comes only after the root of the version claimed was
/// stored by number, and only if what is trusted then does not expire later than that.
pub proof fn root_update_stops_only_for_a_reason(limits: Limits, tuf: Tuf, replies: Seq<Reply>)
    ensures
        ({
            let run = update_root(limits, World::begin(tuf, replies));
            run.result is Some && run.result->0 is Err ==> {
                let error = run.result->0->Err_0;
                let last = last_had(replies, run);
                let expires = run.world.tuf.root.expires;
                &&& run.world.replies.len() < replies.len()
                &&& {
                    ||| last == Reply::Fetched(Err(error))
                    ||| last == Reply::Parsed(Err(error))
                    ||| last == Reply::Trusted(Err(error))
                    ||| {
                        &&& last matches Reply::Parsed(Ok(latest))
                        &&& latest < tuf.root.version
                        &&& error == Error::VerificationFailure(
                            Message::LatestRootOlder { latest, trusted: tuf.root.version },
                        )
                    }
                    ||| last == Reply::Trusted(Ok(None)) && error == Error::Programming(
                        Message::NoUpdateOccurred,
                    )
                    ||| {
                        &&& error == Error::ExpiredMetadata(Role::Root)
                        &&& last matches Reply::Stored(now)
                        &&& expires.seconds < now.seconds || (expires.seconds == now.seconds
                            && expires.nanos <= now.nanos)
                        &&& replies[1] matches Reply::Parsed(Ok(latest))
                        &&& run.world.asked.last() matches Request::Store(path, version, _)
                        &&& path == MetadataPath::Role(Role::Root)
                        &&& version == MetadataVersion::Number(latest)
                    }
                }
            }
        }),
{
    let w = World::begin(tuf, replies);
    let w1 = w.ask(Request::Fetch(root_fetch(limits.root, MetadataVersion::Unversioned)));
    if comes_raw(w1) is Some {
        let raw = comes_raw(w1)->0;
        let w2 = w1.answered().ask(Request::Parse(raw));
        if w2.replies.len() > 0 {
            assert(w2.replies[0] == replies[1]);
            match w2.replies[0] {
                Reply::Parsed(Ok(latest)) => {
                    if latest > tuf.root.version {
                        let next = (tuf.root.version + 1) as u32;
                        lemma_stopped(limits, w2.answered(), next, latest, raw);
                        assert(w2.answered().replies =~= replies.skip(2));
                    }
                },
                _ => {},
            }
        }
    }
}

} // verus!
