//! An update as a whole, and what holds of every one.

use vstd::prelude::*;

use crate::error::{Error, Message};
use crate::fetch::{root_fetch, timestamp_fetch, Fetch};
use crate::metadata::{MetadataVersion, Role, Tuf};
use crate::path::MetadataPath;
use crate::run::{ask_fetch, ask_parse, ask_store, ask_trust, finish, follow, wait};
use crate::run::{Reply, Request, Run, World};
use crate::update::{
    fetched_step, next_root_step, parsed_step, root_step, snapshot_step, snapshot_wanted,
    stored_step, targets_step, targets_wanted, timestamp_step, trusted_after, trusted_step,
};
use crate::update::{Limits, TrustPurpose, UpdateStep, UpdateTrust};

verus! {

/// Brings in the root metadata of the versions from `version` on, up to the one before `latest`,
/// then the latest.
pub open spec fn root_versions(
    limits: Limits,
    w: World,
    version: u32,
    latest: u32,
    latest_raw: Vec<u8>,
) -> Run<Result<bool, Error>>
    decreases latest - version,
{
    let root = MetadataPath::Role(Role::Root);
    let no_update = Error::Programming(Message::NoUpdateOccurred);
    if version < latest {
        ask_fetch(
            w,
            root_fetch(limits.root, MetadataVersion::Number(version)),
            |w: World, fetched: Result<Vec<u8>, Error>|
                match fetched {
                    Err(error) => finish(w, Err(error)),
                    Ok(raw) => ask_trust(
                        w,
                        Role::Root,
                        raw,
                        |w: World, trusted: Result<bool, Error>|
                            match trusted {
                                Err(error) => finish(w, Err(error)),
                                Ok(false) => finish(w, Err(no_update)),
                                Ok(true) => ask_store(
                                    w,
                                    root,
                                    MetadataVersion::Unversioned,
                                    raw,
                                    |w: World, now|
                                        ask_store(
                                            w,
                                            root,
                                            MetadataVersion::Number(version),
                                            raw,
                                            |w: World, now|
                                                root_versions(
                                                    limits,
                                                    w,
                                                    (version + 1) as u32,
                                                    latest,
                                                    latest_raw,
                                                ),
                                        ),
                                ),
                            },
                    ),
                },
        )
    } else {
        ask_trust(
            w,
            Role::Root,
            latest_raw,
            |w: World, trusted: Result<bool, Error>|
                match trusted {
                    Err(error) => finish(w, Err(error)),
                    Ok(false) => finish(w, Err(no_update)),
                    Ok(true) => ask_store(
                        w,
                        root,
                        MetadataVersion::Unversioned,
                        latest_raw,
                        |w: World, now|
                            ask_store(
                                w,
                                root,
                                MetadataVersion::Number(latest),
                                latest_raw,
                                |w: World, now|
                                    if w.tuf.root.expires.not_after(now) {
                                        finish(w, Err(Error::ExpiredMetadata(Role::Root)))
                                    } else {
                                        finish(w, Ok(true))
                                    },
                            ),
                    ),
                },
        )
    }
}

/// Updates the root metadata. The latest root metadata says how far; it is brought in only behind
/// all versions before it.
pub open spec fn update_root(limits: Limits, w: World) -> Run<Result<bool, Error>> {
    ask_fetch(
        w,
        root_fetch(limits.root, MetadataVersion::Unversioned),
        |w: World, fetched: Result<Vec<u8>, Error>|
            match fetched {
                Err(error) => finish(w, Err(error)),
                Ok(raw) => ask_parse(
                    w,
                    raw,
                    |w: World, parsed: Result<u32, Error>|
                        match parsed {
                            Err(error) => finish(w, Err(error)),
                            Ok(latest) => {
                                let trusted = w.tuf.root.version;
                                if latest < trusted {
                                    let older = Message::LatestRootOlder { latest, trusted };
                                    finish(w, Err(Error::VerificationFailure(older)))
                                } else if latest == trusted {
                                    finish(w, Ok(false))
                                } else {
                                    root_versions(limits, w, (trusted + 1) as u32, latest, raw)
                                }
                            },
                        },
                ),
            },
    )
}

/// Brings in metadata of a role other than the root: fetches it, has it verified, and stores it
/// if it is an update.
pub open spec fn update_role(w: World, role: Role, fetch: Fetch) -> Run<Result<bool, Error>> {
    ask_fetch(
        w,
        fetch,
        |w: World, fetched: Result<Vec<u8>, Error>|
            match fetched {
                Err(error) => finish(w, Err(error)),
                Ok(raw) => ask_trust(
                    w,
                    role,
                    raw,
                    |w: World, trusted: Result<bool, Error>|
                        match trusted {
                            Err(error) => finish(w, Err(error)),
                            Ok(false) => finish(w, Ok(false)),
                            Ok(true) => ask_store(
                                w,
                                MetadataPath::Role(role),
                                MetadataVersion::Unversioned,
                                raw,
                                |w: World, now| finish(w, Ok(true)),
                            ),
                        },
                ),
            },
    )
}

/// Updates the timestamp metadata.
pub open spec fn update_timestamp(limits: Limits, w: World) -> Run<Result<bool, Error>> {
    update_role(w, Role::Timestamp, timestamp_fetch(limits.timestamp))
}

/// Updates the snapshot metadata, if the timestamp metadata announces a newer one.
pub open spec fn update_snapshot(w: World) -> Run<Result<bool, Error>> {
    match snapshot_wanted(w.tuf) {
        Err(error) => finish(w, Err(error)),
        Ok(None) => finish(w, Ok(false)),
        Ok(Some(fetch)) => update_role(w, Role::Snapshot, fetch),
    }
}

/// Updates the targets metadata, if the snapshot metadata announces a newer one.
pub open spec fn update_targets(w: World) -> Run<Result<bool, Error>> {
    match targets_wanted(w.tuf) {
        Err(error) => finish(w, Err(error)),
        Ok(None) => finish(w, Ok(false)),
        Ok(Some(fetch)) => update_role(w, Role::Targets, fetch),
    }
}

/// Goes on with `next` if `run` succeeds, and fails as it does if not.
pub open spec fn and_then(
    run: Run<Result<bool, Error>>,
    next: spec_fn(World, bool) -> Run<Result<bool, Error>>,
) -> Run<Result<bool, Error>> {
    follow(
        run,
        |w: World, result: Result<bool, Error>|
            match result {
                Err(error) => finish(w, Err(error)),
                Ok(updated) => next(w, updated),
            },
    )
}

/// Updates the metadata: the root, the timestamp, the snapshot and the targets metadata, in this
/// order, up to the first error.
pub open spec fn update(limits: Limits, w: World) -> Run<Result<bool, Error>> {
    and_then(
        update_root(limits, w),
        |w: World, r: bool|
            and_then(
                update_timestamp(limits, w),
                |w: World, ts: bool|
                    and_then(
                        update_snapshot(w),
                        |w: World, sn: bool|
                            and_then(
                                update_targets(w),
                                |w: World, ta: bool| finish(w, Ok(r || ts || sn || ta)),
                            ),
                    ),
            ),
    )
}

/// Takes an update on from `step`, as the client does: each reply resumes it.
pub open spec fn run_update(limits: Limits, w: World, step: UpdateStep) -> Run<Result<bool, Error>>
    decreases w.replies.len(),
{
    match step {
        UpdateStep::Done(result) => finish(w, result),
        UpdateStep::Fetch(request) => {
            let w = w.ask(Request::Fetch(request.fetch));
            if w.replies.len() == 0 {
                wait(w)
            } else {
                match w.replies[0] {
                    Reply::Fetched(reply) => run_update(
                        limits,
                        w.answered(),
                        fetched_step(request.purpose, reply),
                    ),
                    _ => wait(w),
                }
            }
        },
        UpdateStep::Parse(request) => {
            let w = w.ask(Request::Parse(request.raw));
            if w.replies.len() == 0 {
                wait(w)
            } else {
                match w.replies[0] {
                    Reply::Parsed(reply) => run_update(
                        limits,
                        w.answered(),
                        parsed_step(limits, w.tuf, request.raw, reply),
                    ),
                    _ => wait(w),
                }
            }
        },
        UpdateStep::Trust(request) => {
            let w = w.ask(Request::Trust(request.role, request.raw));
            if w.replies.len() == 0 {
                wait(w)
            } else {
                match w.replies[0] {
                    Reply::Trusted(reply) => run_update(
                        limits,
                        w.answered().trusting(trusted_after(w.tuf, reply)),
                        trusted_step(w.tuf, request.raw, request.purpose, reply),
                    ),
                    _ => wait(w),
                }
            }
        },
        UpdateStep::Store(request) => {
            let w = w.ask(Request::Store(request.path, request.version, request.raw));
            if w.replies.len() == 0 {
                wait(w)
            } else {
                match w.replies[0] {
                    Reply::Stored(now) => run_update(
                        limits,
                        w.answered(),
                        stored_step(limits, w.tuf, request.raw, request.purpose, now),
                    ),
                    _ => wait(w),
                }
            }
        },
    }
}

/// What is left of an update once the snapshot metadata is up to date.
#[verifier::opaque]
spec fn from_targets(w: World, updated: bool) -> Run<Result<bool, Error>> {
    and_then(update_targets(w), |w: World, ta: bool| finish(w, Ok(updated || ta)))
}

/// What is left of an update once the timestamp metadata is up to date.
#[verifier::opaque]
spec fn from_snapshot(w: World, updated: bool) -> Run<Result<bool, Error>> {
    and_then(update_snapshot(w), |w: World, sn: bool| from_targets(w, updated || sn))
}

/// What is left of an update once the root metadata is up to date.
#[verifier::opaque]
spec fn from_timestamp(limits: Limits, w: World, updated: bool) -> Run<Result<bool, Error>> {
    and_then(update_timestamp(limits, w), |w: World, ts: bool| from_snapshot(w, updated || ts))
}

proof fn lemma_from_targets(limits: Limits, w: World, updated: bool)
    ensures
        run_update(limits, w, targets_step(w.tuf, updated)) == from_targets(w, updated),
{
    reveal(from_targets);
    reveal_with_fuel(run_update, 4);
}

proof fn lemma_from_snapshot(limits: Limits, w: World, updated: bool)
    ensures
        run_update(limits, w, snapshot_step(w.tuf, updated)) == from_snapshot(w, updated),
{
    reveal(from_snapshot);
    reveal_with_fuel(run_update, 4);
    assert forall|v: World, u: bool| #[trigger] from_targets(v, u) == run_update(
        limits,
        v,
        targets_step(v.tuf, u),
    ) by {
        lemma_from_targets(limits, v, u);
    }
}

proof fn lemma_from_timestamp(limits: Limits, w: World, updated: bool)
    ensures
        run_update(limits, w, timestamp_step(limits, updated)) == from_timestamp(
            limits,
            w,
            updated,
        ),
{
    reveal(from_timestamp);
    reveal_with_fuel(run_update, 4);
    assert forall|v: World, u: bool| #[trigger] from_snapshot(v, u) == run_update(
        limits,
        v,
        snapshot_step(v.tuf, u),
    ) by {
        lemma_from_snapshot(limits, v, u);
    }
}

/// The replies to come begin with one that says that metadata was fetched.
pub(crate) open spec fn comes_raw(w: World) -> Option<Vec<u8>> {
    if w.replies.len() > 0 {
        match w.replies[0] {
            Reply::Fetched(Ok(raw)) => Some(raw),
            _ => None,
        }
    } else {
        None
    }
}

/// The replies to come begin with one that says that an update was accepted.
pub(crate) open spec fn comes_trust(w: World) -> Option<Tuf> {
    if w.replies.len() > 0 {
        match w.replies[0] {
            Reply::Trusted(Ok(Some(tuf))) => Some(tuf),
            _ => None,
        }
    } else {
        None
    }
}

/// The verification of the latest root metadata, and what follows it.
proof fn lemma_from_latest_root(limits: Limits, w: World, latest: u32, latest_raw: Vec<u8>)
    ensures
        run_update(
            limits,
            w,
            UpdateStep::Trust(
                UpdateTrust {
                    role: Role::Root,
                    raw: latest_raw,
                    purpose: TrustPurpose::LatestRoot { version: latest },
                },
            ),
        ) == and_then(
            root_versions(limits, w, latest, latest, latest_raw),
            |w: World, r: bool| from_timestamp(limits, w, r),
        ),
{
    let root = MetadataPath::Role(Role::Root);
    let w1 = w.ask(Request::Trust(Role::Root, latest_raw));
    if comes_trust(w1) is Some {
        let w2 = w1.answered().trusting(comes_trust(w1)->0).ask(
            Request::Store(root, MetadataVersion::Unversioned, latest_raw),
        );
        let w3 = w2.answered().ask(
            Request::Store(root, MetadataVersion::Number(latest), latest_raw),
        );
        lemma_from_timestamp(limits, w3.answered(), true);
    }
    reveal_with_fuel(run_update, 4);
}

/// The rest of an update behind the root metadata of `version`.
proof fn lemma_from_root(
    limits: Limits,
    w: World,
    version: u32,
    latest: u32,
    latest_raw: Vec<u8>,
)
    requires
        version < latest,
    ensures
        run_update(limits, w, next_root_step(limits, version, latest, latest_raw)) == and_then(
            root_versions(limits, w, (version + 1) as u32, latest, latest_raw),
            |w: World, r: bool| from_timestamp(limits, w, r),
        ),
    decreases latest - version,
{
    let next = (version + 1) as u32;
    if next < latest {
        let root = MetadataPath::Role(Role::Root);
        let w1 = w.ask(Request::Fetch(root_fetch(limits.root, MetadataVersion::Number(next))));
        if comes_raw(w1) is Some {
            let raw = comes_raw(w1)->0;
            let w2 = w1.answered().ask(Request::Trust(Role::Root, raw));
            if comes_trust(w2) is Some {
                let w3 = w2.answered().trusting(comes_trust(w2)->0).ask(
                    Request::Store(root, MetadataVersion::Unversioned, raw),
                );
                let w4 = w3.answered().ask(
                    Request::Store(root, MetadataVersion::Number(next), raw),
                );
                lemma_from_root(limits, w4.answered(), next, latest, latest_raw);
            }
        }
        reveal_with_fuel(run_update, 5);
    } else {
        lemma_from_latest_root(limits, w, latest, latest_raw);
    }
}

/// An update taken step by step is the update as a whole: for every sequence of replies it makes
/// the same requests in the same order, comes to trust the same metadata, and has the same result.
pub proof fn stepwise_update_is_update(limits: Limits, w: World)
    ensures
        run_update(limits, w, root_step(limits)) == update(limits, w),
{
    let w1 = w.ask(Request::Fetch(root_fetch(limits.root, MetadataVersion::Unversioned)));
    if comes_raw(w1) is Some {
        let raw = comes_raw(w1)->0;
        let w2 = w1.answered().ask(Request::Parse(raw));
        if w2.replies.len() > 0 {
            let w3 = w2.answered();
            lemma_from_timestamp(limits, w3, false);
            match w2.replies[0] {
                Reply::Parsed(Ok(latest)) => {
                    if latest > w.tuf.root.version {
                        lemma_from_root(limits, w3, w.tuf.root.version, latest, raw);
                    }
                },
                _ => {},
            }
        }
    }
    assert(run_update(limits, w, root_step(limits)) == and_then(
        update_root(limits, w),
        |w: World, r: bool| from_timestamp(limits, w, r),
    )) by {
        reveal_with_fuel(run_update, 3);
    }
    reveal(from_timestamp);
    reveal(from_snapshot);
    reveal(from_targets);
}

} // verus!
