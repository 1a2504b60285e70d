//! Whole runs of the client's procedures.
//!
//! The client takes its procedures step by step. Here a procedure is written down as a whole: as
//! the sequence of requests that it makes, each of which is answered by the next reply of a given
//! sequence. The two are shown to agree in [`crate::update_run`] and [`crate::lookup_run`].

use std::sync::Arc;

use vstd::prelude::*;

use crate::error::Error;
use crate::fetch::Fetch;
use crate::metadata::{MetadataVersion, Role, TargetsMetadata, Tuf};
use crate::path::MetadataPath;
use crate::time::UtcTime;

verus! {

/// A request that a procedure makes.
pub enum Request {
    /// Fetch metadata.
    Fetch(Fetch),
    /// Read the version that unverified root metadata claims.
    Parse(Vec<u8>),
    /// Verify metadata of a top-level role against the trusted metadata.
    Trust(Role, Vec<u8>),
    /// Verify metadata of the delegated role `role`, which `depth` delegations lead to, against the
    /// trusted metadata of the delegating role `parent`.
    TrustDelegation { depth: int, parent: MetadataPath, role: MetadataPath, raw: Vec<u8> },
    /// Store metadata in the local repository.
    Store(MetadataPath, MetadataVersion, Vec<u8>),
}

/// The reply to a request.
pub enum Reply {
    /// The bytes asked for.
    Fetched(Result<Vec<u8>, Error>),
    /// The version claimed.
    Parsed(Result<u32, Error>),
    /// What is trusted now, if the metadata was accepted and is an update.
    Trusted(Result<Option<Tuf>, Error>),
    /// What is trusted now, if the metadata of the delegated role was accepted.
    DelegationTrusted(Result<Tuf, Error>),
    /// The attempt to store is over, at this time.
    Stored(UtcTime),
}

/// Where a run stands.
pub struct World {
    /// The requests made so far, in order.
    pub asked: Seq<Request>,
    /// The metadata trusted.
    pub tuf: Tuf,
    /// The replies still to come, in order.
    pub replies: Seq<Reply>,
}

/// A run: where it has come to, and its result, unless it still waits for a reply.
pub struct Run<R> {
    pub world: World,
    pub result: Option<R>,
}

impl World {
    /// The world at the beginning of a run.
    pub open spec fn begin(tuf: Tuf, replies: Seq<Reply>) -> World {
        World { asked: Seq::empty(), tuf, replies }
    }

    /// The world after a request was made.
    pub open spec fn ask(self, request: Request) -> World {
        World { asked: self.asked.push(request), ..self }
    }

    /// The world after the next reply came.
    pub open spec fn answered(self) -> World {
        World { replies: self.replies.drop_first(), ..self }
    }

    /// The world in which `tuf` is trusted.
    pub open spec fn trusting(self, tuf: Tuf) -> World {
        World { tuf, ..self }
    }
}

/// The run that is over with this result.
pub open spec fn finish<R>(w: World, result: R) -> Run<R> {
    Run { world: w, result: Some(result) }
}

/// The run that waits for a reply.
pub open spec fn wait<R>(w: World) -> Run<R> {
    Run { world: w, result: None }
}

/// The run that goes on with `next` once `run` is over.
pub open spec fn follow<A, B>(run: Run<A>, next: spec_fn(World, A) -> Run<B>) -> Run<B> {
    match run.result {
        None => wait(run.world),
        Some(a) => next(run.world, a),
    }
}

/// Makes a request for metadata and goes on with the reply.
pub open spec fn ask_fetch<R>(
    w: World,
    fetch: Fetch,
    next: spec_fn(World, Result<Vec<u8>, Error>) -> Run<R>,
) -> Run<R> {
    let w = w.ask(Request::Fetch(fetch));
    if w.replies.len() == 0 {
        wait(w)
    } else {
        match w.replies[0] {
            Reply::Fetched(reply) => next(w.answered(), reply),
            _ => wait(w),
        }
    }
}

/// Asks for the version that `raw` claims and goes on with the reply.
pub open spec fn ask_parse<R>(
    w: World,
    raw: Vec<u8>,
    next: spec_fn(World, Result<u32, Error>) -> Run<R>,
) -> Run<R> {
    let w = w.ask(Request::Parse(raw));
    if w.replies.len() == 0 {
        wait(w)
    } else {
        match w.replies[0] {
            Reply::Parsed(reply) => next(w.answered(), reply),
            _ => wait(w),
        }
    }
}

/// Asks for the verification of `raw`, trusts what that says, and goes on with whether it was an
/// update.
pub open spec fn ask_trust<R>(
    w: World,
    role: Role,
    raw: Vec<u8>,
    next: spec_fn(World, Result<bool, Error>) -> Run<R>,
) -> Run<R> {
    let w = w.ask(Request::Trust(role, raw));
    if w.replies.len() == 0 {
        wait(w)
    } else {
        match w.replies[0] {
            Reply::Trusted(Ok(Some(tuf))) => next(w.answered().trusting(tuf), Ok(true)),
            Reply::Trusted(Ok(None)) => next(w.answered(), Ok(false)),
            Reply::Trusted(Err(error)) => next(w.answered(), Err(error)),
            _ => wait(w),
        }
    }
}

/// Asks for `raw` to be stored and goes on, at the time that it is then.
pub open spec fn ask_store<R>(
    w: World,
    path: MetadataPath,
    version: MetadataVersion,
    raw: Vec<u8>,
    next: spec_fn(World, UtcTime) -> Run<R>,
) -> Run<R> {
    let w = w.ask(Request::Store(path, version, raw));
    if w.replies.len() == 0 {
        wait(w)
    } else {
        match w.replies[0] {
            Reply::Stored(now) => next(w.answered(), now),
            _ => wait(w),
        }
    }
}

/// Asks for the verification of the metadata of the delegated role `role`, trusts what that says,
/// and goes on with the trusted metadata of the role.
pub open spec fn ask_trust_delegation<R>(
    w: World,
    depth: int,
    parent: MetadataPath,
    role: MetadataPath,
    raw: Vec<u8>,
    next: spec_fn(World, Result<Arc<TargetsMetadata>, Error>) -> Run<R>,
) -> Run<R> {
    let w = w.ask(Request::TrustDelegation { depth, parent, role, raw });
    if w.replies.len() == 0 {
        wait(w)
    } else {
        match w.replies[0] {
            Reply::DelegationTrusted(Ok(tuf)) => if tuf.delegations@.dom().contains(role@) {
                next(w.answered().trusting(tuf), Ok(tuf.delegations@[role@]))
            } else {
                wait(w)
            },
            Reply::DelegationTrusted(Err(error)) => next(w.answered(), Err(error)),
            _ => wait(w),
        }
    }
}

impl Reply {
    /// What is trusted now, if metadata was accepted and is an update.
    pub open spec fn accepted(self) -> Option<Tuf> {
        match self {
            Reply::Trusted(Ok(Some(tuf))) => Some(tuf),
            Reply::DelegationTrusted(Ok(tuf)) => Some(tuf),
            _ => None,
        }
    }
}

/// Some of the replies accepts metadata.
pub open spec fn any_accepted(replies: Seq<Reply>) -> bool {
    exists|i: int| 0 <= i < replies.len() && (#[trigger] replies[i]).accepted() is Some
}

/// What is trusted after these replies: what the last of them that accepts metadata says, and
/// `tuf` if there is none.
pub open spec fn trusted_after_replies(tuf: Tuf, replies: Seq<Reply>) -> Tuf
    decreases replies.len(),
{
    if replies.len() == 0 {
        tuf
    } else {
        match replies.last().accepted() {
            Some(new) => new,
            None => trusted_after_replies(tuf, replies.drop_last()),
        }
    }
}

/// The request asked for the verification of `raw`, which is to be stored under `path`.
pub open spec fn verifies(request: Request, path: MetadataPath, raw: Vec<u8>) -> bool {
    match request {
        Request::Trust(role, verified) => path == MetadataPath::Role(role) && raw == verified,
        Request::TrustDelegation { role, raw: verified, .. } => path == role && raw == verified,
        _ => false,
    }
}

/// Among the requests there is one for the verification of `raw`, and the reply to it accepts.
pub open spec fn was_accepted(
    asked: Seq<Request>,
    replies: Seq<Reply>,
    path: MetadataPath,
    raw: Vec<u8>,
) -> bool {
    exists|i: int|
        0 <= i < asked.len() && i < replies.len() && #[trigger] verifies(asked[i], path, raw)
            && replies[i].accepted() is Some
}

/// Whatever was to be stored had been accepted before.
pub open spec fn stores_accepted(asked: Seq<Request>, replies: Seq<Reply>) -> bool {
    forall|i: int|
        0 <= i < asked.len() ==> ((#[trigger] asked[i]) matches Request::Store(path, _, raw)
            ==> was_accepted(asked.take(i), replies, path, raw))
}

/// The replies that a run has had, of those that were to come at its beginning.
pub open spec fn had(replies: Seq<Reply>, w: World) -> Seq<Reply> {
    replies.take(replies.len() - w.replies.len())
}

/// Each request of the run so far was answered by the reply of its number.
pub(crate) open spec fn in_step(replies: Seq<Reply>, w: World) -> bool {
    w.asked.len() <= replies.len() && w.replies =~= replies.skip(w.asked.len() as int)
}

/// What holds while a run goes on: where it began, what it trusts and what it stored.
pub(crate) open spec fn orderly(tuf: Tuf, replies: Seq<Reply>, w: World) -> bool {
    &&& in_step(replies, w)
    &&& w.tuf == trusted_after_replies(tuf, had(replies, w))
    &&& stores_accepted(w.asked, replies)
}

/// The world after the request `request` got the next reply is as orderly as before.
pub(crate) proof fn lemma_orderly(tuf: Tuf, replies: Seq<Reply>, w: World, request: Request)
    requires
        orderly(tuf, replies, w),
        w.replies.len() > 0,
        request matches Request::Store(path, _, raw) ==> was_accepted(w.asked, replies, path, raw),
    ensures
        ({
            let next = match w.replies[0].accepted() {
                Some(new) => w.ask(request).answered().trusting(new),
                None => w.ask(request).answered(),
            };
            &&& orderly(tuf, replies, next)
            &&& had(replies, next) == had(replies, w).push(w.replies[0])
            &&& any_accepted(had(replies, next)) == (any_accepted(had(replies, w))
                || w.replies[0].accepted() is Some)
        }),
        stores_accepted(w.asked.push(request), replies),
        forall|path: MetadataPath, raw: Vec<u8>| #[trigger]
            was_accepted(w.asked, replies, path, raw) ==> was_accepted(
                w.asked.push(request),
                replies,
                path,
                raw,
            ),
        forall|path: MetadataPath, raw: Vec<u8>|
            verifies(request, path, raw) && w.replies[0].accepted() is Some
                ==> #[trigger] was_accepted(w.asked.push(request), replies, path, raw),
{
    let n = w.asked.len() as int;
    let next = match w.replies[0].accepted() {
        Some(new) => w.ask(request).answered().trusting(new),
        None => w.ask(request).answered(),
    };
    let asked = w.asked.push(request);
    let before = had(replies, w);
    let after = had(replies, next);
    assert(w.replies[0] == replies[n]);
    assert(next.replies =~= replies.skip(n + 1));
    assert(before =~= replies.take(n));
    assert(after =~= before.push(w.replies[0]));
    assert(after.drop_last() =~= before);
    if any_accepted(before) {
        let i = choose|i: int| 0 <= i < before.len() && (#[trigger] before[i]).accepted() is Some;
        assert(after[i].accepted() is Some);
    }
    if w.replies[0].accepted() is Some {
        assert(after[n].accepted() is Some);
    }
    if any_accepted(after) {
        let i = choose|i: int| 0 <= i < after.len() && (#[trigger] after[i]).accepted() is Some;
        if i < n {
            assert(before[i].accepted() is Some);
        }
    }
    assert forall|path: MetadataPath, raw: Vec<u8>| #[trigger]
        was_accepted(w.asked, replies, path, raw) implies was_accepted(
        asked,
        replies,
        path,
        raw,
    ) by {
        let i = choose|i: int|
            0 <= i < w.asked.len() && i < replies.len() && #[trigger] verifies(
                w.asked[i],
                path,
                raw,
            ) && replies[i].accepted() is Some;
        assert(verifies(asked[i], path, raw));
    }
    assert forall|path: MetadataPath, raw: Vec<u8>|
        verifies(request, path, raw) && w.replies[0].accepted() is Some implies #[trigger]
    was_accepted(asked, replies, path, raw) by {
        assert(verifies(asked[n], path, raw));
    }
    lemma_stores(replies, w, request);
}

/// A request made in an orderly world stores only what was accepted, if it stores.
pub(crate) proof fn lemma_stores(replies: Seq<Reply>, w: World, request: Request)
    requires
        stores_accepted(w.asked, replies),
        request matches Request::Store(path, _, raw) ==> was_accepted(w.asked, replies, path, raw),
    ensures
        stores_accepted(w.asked.push(request), replies),
{
    let asked = w.asked.push(request);
    assert forall|i: int| 0 <= i < asked.len() implies ((#[trigger] asked[i]) matches Request::Store(
        path,
        _,
        raw,
    ) ==> was_accepted(asked.take(i), replies, path, raw)) by {
        if i < w.asked.len() {
            assert(asked[i] == w.asked[i]);
            assert(asked.take(i) =~= w.asked.take(i));
        } else {
            assert(asked.take(i) =~= w.asked);
        }
    }
}

} // verus!
