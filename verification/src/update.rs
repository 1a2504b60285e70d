//! Bringing the trusted metadata up to date.
//!
//! An update brings in the root metadata, then the timestamp, the snapshot and the targets
//! metadata. [`Client::update`] gives its first step; the `update_*` methods take the reply to a
//! request and give the next one.

use vstd::prelude::*;

use crate::client::{Client, ClientView};
use crate::config::ConfigView;
use crate::error::{Error, Message};
use crate::fetch::{described_fetch, root_fetch, timestamp_fetch, Fetch};
use crate::metadata::{MetadataVersion, Role, Tuf};
use crate::path::MetadataPath;
use crate::time::{utc_now, UtcTime};
use crate::translate::PathTranslator;

verus! {

/// A step of an update: a request, or the result.
#[derive(Debug)]
pub enum UpdateStep {
    /// Fetch metadata; resume with [`Client::update_fetched`].
    Fetch(UpdateFetch),
    /// Read the version that unverified root metadata claims; resume with
    /// [`Client::update_parsed`].
    Parse(UpdateParse),
    /// Verify metadata against the trusted metadata; resume with [`Client::update_trusted`].
    Trust(UpdateTrust),
    /// Store metadata in the local repository; resume with [`Client::update_stored`].
    Store(UpdateStore),
    /// The update is over. It says whether anything was updated.
    Done(Result<bool, Error>),
}

/// The request to fetch metadata.
#[derive(Debug)]
pub struct UpdateFetch {
    pub fetch: Fetch,
    pub purpose: FetchPurpose,
}

/// What the metadata fetched is.
#[derive(Debug)]
pub enum FetchPurpose {
    /// The latest root metadata.
    LatestRoot,
    /// Root metadata of a version between the trusted one and the latest one.
    NextRoot { version: u32, latest: u32, latest_raw: Vec<u8> },
    /// The timestamp metadata, after an update of the root metadata if `updated`.
    Timestamp { updated: bool },
    /// The snapshot metadata, after an update of earlier metadata if `updated`.
    Snapshot { updated: bool },
    /// The targets metadata, after an update of earlier metadata if `updated`.
    Targets { updated: bool },
}

/// The request to read the version that the latest root metadata claims to have.
#[derive(Debug)]
pub struct UpdateParse {
    pub raw: Vec<u8>,
}

/// The request to verify metadata of `role` against the trusted metadata.
#[derive(Debug)]
pub struct UpdateTrust {
    pub role: Role,
    pub raw: Vec<u8>,
    pub purpose: TrustPurpose,
}

/// What the metadata to verify is.
#[derive(Debug)]
pub enum TrustPurpose {
    /// Root metadata of a version between the trusted one and the latest one.
    NextRoot { version: u32, latest: u32, latest_raw: Vec<u8> },
    /// The latest root metadata.
    LatestRoot { version: u32 },
    /// The timestamp metadata.
    Timestamp { updated: bool },
    /// The snapshot metadata.
    Snapshot { updated: bool },
    /// The targets metadata.
    Targets { updated: bool },
}

/// The request to store metadata in the local repository.
#[derive(Debug)]
pub struct UpdateStore {
    pub path: MetadataPath,
    pub version: MetadataVersion,
    pub raw: Vec<u8>,
    pub purpose: StorePurpose,
}

/// What the metadata to store is. Root metadata is stored twice: as the unversioned file, and,
/// `numbered`, as the file of its version.
#[derive(Debug)]
pub enum StorePurpose {
    /// Root metadata of a version before the latest one.
    NextRoot { version: u32, latest: u32, latest_raw: Vec<u8>, numbered: bool },
    /// The latest root metadata.
    LatestRoot { version: u32, numbered: bool },
    /// The timestamp metadata.
    Timestamp,
    /// The snapshot metadata.
    Snapshot,
    /// The targets metadata.
    Targets,
}

/// The limits that an update keeps to.
pub struct Limits {
    /// The greatest length of root metadata.
    pub root: Option<usize>,
    /// The greatest length of timestamp metadata.
    pub timestamp: Option<usize>,
}

impl<T> ConfigView<T> {
    /// The limits that an update keeps to.
    pub open spec fn limits(self) -> Limits {
        Limits { root: self.max_root_length, timestamp: self.max_timestamp_length }
    }
}

/// The first step: ask for the latest root metadata.
pub open spec fn root_step(limits: Limits) -> UpdateStep {
    UpdateStep::Fetch(
        UpdateFetch {
            fetch: root_fetch(limits.root, MetadataVersion::Unversioned),
            purpose: FetchPurpose::LatestRoot,
        },
    )
}

/// The step behind the root metadata of `version`: ask for the next version, or, where that is
/// the latest, which is at hand, verify it.
pub open spec fn next_root_step(
    limits: Limits,
    version: u32,
    latest: u32,
    latest_raw: Vec<u8>,
) -> UpdateStep {
    if version + 1 < latest {
        let next = (version + 1) as u32;
        UpdateStep::Fetch(
            UpdateFetch {
                fetch: root_fetch(limits.root, MetadataVersion::Number(next)),
                purpose: FetchPurpose::NextRoot { version: next, latest, latest_raw },
            },
        )
    } else {
        UpdateStep::Trust(
            UpdateTrust {
                role: Role::Root,
                raw: latest_raw,
                purpose: TrustPurpose::LatestRoot { version: latest },
            },
        )
    }
}

/// The first step for the timestamp metadata.
pub open spec fn timestamp_step(limits: Limits, updated: bool) -> UpdateStep {
    UpdateStep::Fetch(
        UpdateFetch {
            fetch: timestamp_fetch(limits.timestamp),
            purpose: FetchPurpose::Timestamp { updated },
        },
    )
}

/// The request for the snapshot metadata that the trusted timestamp metadata describes, if that is
/// newer than the trusted one.
pub open spec fn snapshot_wanted(tuf: Tuf) -> Result<Option<Fetch>, Error> {
    match tuf.timestamp {
        None => Err(Error::MissingMetadata(Role::Timestamp)),
        Some(timestamp) => {
            let trusted = match tuf.snapshot {
                Some(snapshot) => snapshot.version,
                None => 0,
            };
            described_fetch(
                Role::Snapshot,
                timestamp.snapshot,
                trusted,
                tuf.root.consistent_snapshot,
            )
        },
    }
}

/// The request for the targets metadata that the trusted snapshot metadata describes, if that is
/// newer than the trusted one.
pub open spec fn targets_wanted(tuf: Tuf) -> Result<Option<Fetch>, Error> {
    match tuf.snapshot {
        None => Err(Error::MissingMetadata(Role::Snapshot)),
        Some(snapshot) => if snapshot.meta@.dom().contains("targets"@) {
            let trusted = match tuf.targets {
                Some(targets) => targets.version,
                None => 0,
            };
            described_fetch(
                Role::Targets,
                snapshot.meta@["targets"@],
                trusted,
                tuf.root.consistent_snapshot,
            )
        } else {
            Err(Error::VerificationFailure(Message::TargetsNotDescribed))
        },
    }
}

/// The first step for the targets metadata, or the end of the update.
pub open spec fn targets_step(tuf: Tuf, updated: bool) -> UpdateStep {
    match targets_wanted(tuf) {
        Err(error) => UpdateStep::Done(Err(error)),
        Ok(None) => UpdateStep::Done(Ok(updated)),
        Ok(Some(fetch)) => UpdateStep::Fetch(
            UpdateFetch { fetch, purpose: FetchPurpose::Targets { updated } },
        ),
    }
}

/// The first step for the snapshot metadata, or, where there is nothing new, for the targets
/// metadata.
pub open spec fn snapshot_step(tuf: Tuf, updated: bool) -> UpdateStep {
    match snapshot_wanted(tuf) {
        Err(error) => UpdateStep::Done(Err(error)),
        Ok(None) => targets_step(tuf, updated),
        Ok(Some(fetch)) => UpdateStep::Fetch(
            UpdateFetch { fetch, purpose: FetchPurpose::Snapshot { updated } },
        ),
    }
}

/// The step after metadata was asked for.
pub open spec fn fetched_step(purpose: FetchPurpose, reply: Result<Vec<u8>, Error>) -> UpdateStep {
    match reply {
        Err(error) => UpdateStep::Done(Err(error)),
        Ok(raw) => match purpose {
            FetchPurpose::LatestRoot => UpdateStep::Parse(UpdateParse { raw }),
            FetchPurpose::NextRoot { version, latest, latest_raw } => UpdateStep::Trust(
                UpdateTrust {
                    role: Role::Root,
                    raw,
                    purpose: TrustPurpose::NextRoot { version, latest, latest_raw },
                },
            ),
            FetchPurpose::Timestamp { updated } => UpdateStep::Trust(
                UpdateTrust {
                    role: Role::Timestamp,
                    raw,
                    purpose: TrustPurpose::Timestamp { updated },
                },
            ),
            FetchPurpose::Snapshot { updated } => UpdateStep::Trust(
                UpdateTrust {
                    role: Role::Snapshot,
                    raw,
                    purpose: TrustPurpose::Snapshot { updated },
                },
            ),
            FetchPurpose::Targets { updated } => UpdateStep::Trust(
                UpdateTrust { role: Role::Targets, raw, purpose: TrustPurpose::Targets { updated } },
            ),
        },
    }
}

/// The step after the version of the latest root metadata was asked for. An older one is an error,
/// the trusted one leaves the root metadata as it is, and a newer one is brought in version by
/// version.
pub open spec fn parsed_step(
    limits: Limits,
    tuf: Tuf,
    raw: Vec<u8>,
    reply: Result<u32, Error>,
) -> UpdateStep {
    match reply {
        Err(error) => UpdateStep::Done(Err(error)),
        Ok(latest) => if latest < tuf.root.version {
            UpdateStep::Done(
                Err(
                    Error::VerificationFailure(
                        Message::LatestRootOlder { latest, trusted: tuf.root.version },
                    ),
                ),
            )
        } else if latest == tuf.root.version {
            timestamp_step(limits, false)
        } else {
            next_root_step(limits, tuf.root.version, latest, raw)
        },
    }
}

/// The request to store the metadata of `role` as the unversioned file.
pub open spec fn store_step(role: Role, raw: Vec<u8>, purpose: StorePurpose) -> UpdateStep {
    UpdateStep::Store(
        UpdateStore {
            path: MetadataPath::Role(role),
            version: MetadataVersion::Unversioned,
            raw,
            purpose,
        },
    )
}

/// The step after metadata was accepted: store it.
pub open spec fn accepted_step(raw: Vec<u8>, purpose: TrustPurpose) -> UpdateStep {
    match purpose {
        TrustPurpose::NextRoot { version, latest, latest_raw } => store_step(
            Role::Root,
            raw,
            StorePurpose::NextRoot { version, latest, latest_raw, numbered: false },
        ),
        TrustPurpose::LatestRoot { version } => store_step(
            Role::Root,
            raw,
            StorePurpose::LatestRoot { version, numbered: false },
        ),
        TrustPurpose::Timestamp { .. } => store_step(
            Role::Timestamp,
            raw,
            StorePurpose::Timestamp,
        ),
        TrustPurpose::Snapshot { .. } => store_step(Role::Snapshot, raw, StorePurpose::Snapshot),
        TrustPurpose::Targets { .. } => store_step(Role::Targets, raw, StorePurpose::Targets),
    }
}

/// The step after metadata was found to be no update.
pub open spec fn unchanged_step(tuf: Tuf, purpose: TrustPurpose) -> UpdateStep {
    match purpose {
        TrustPurpose::NextRoot { .. } => UpdateStep::Done(
            Err(Error::Programming(Message::NoUpdateOccurred)),
        ),
        TrustPurpose::LatestRoot { .. } => UpdateStep::Done(
            Err(Error::Programming(Message::NoUpdateOccurred)),
        ),
        TrustPurpose::Timestamp { updated } => snapshot_step(tuf, updated),
        TrustPurpose::Snapshot { updated } => targets_step(tuf, updated),
        TrustPurpose::Targets { updated } => UpdateStep::Done(Ok(updated)),
    }
}

/// What is trusted after metadata was to be verified: that which the verification says, if it
/// accepted an update, and what was trusted before, if not.
pub open spec fn trusted_after(tuf: Tuf, reply: Result<Option<Tuf>, Error>) -> Tuf {
    match reply {
        Ok(Some(new)) => new,
        _ => tuf,
    }
}

/// The step after metadata was to be verified.
pub open spec fn trusted_step(
    tuf: Tuf,
    raw: Vec<u8>,
    purpose: TrustPurpose,
    reply: Result<Option<Tuf>, Error>,
) -> UpdateStep {
    match reply {
        Err(error) => UpdateStep::Done(Err(error)),
        Ok(None) => unchanged_step(tuf, purpose),
        Ok(Some(_)) => accepted_step(raw, purpose),
    }
}

/// The step after the root metadata was brought in: go on with the timestamp metadata, unless the
/// root metadata has expired by `now`.
pub open spec fn root_done_step(limits: Limits, tuf: Tuf, now: UtcTime) -> UpdateStep {
    if tuf.root.expires.not_after(now) {
        UpdateStep::Done(Err(Error::ExpiredMetadata(Role::Root)))
    } else {
        timestamp_step(limits, true)
    }
}

/// The step after metadata was to be stored. Whether that went well makes no difference.
pub open spec fn stored_step(
    limits: Limits,
    tuf: Tuf,
    raw: Vec<u8>,
    purpose: StorePurpose,
    now: UtcTime,
) -> UpdateStep {
    match purpose {
        StorePurpose::NextRoot { version, latest, latest_raw, numbered } => if numbered {
            next_root_step(limits, version, latest, latest_raw)
        } else {
            UpdateStep::Store(
                UpdateStore {
                    path: MetadataPath::Role(Role::Root),
                    version: MetadataVersion::Number(version),
                    raw,
                    purpose: StorePurpose::NextRoot { version, latest, latest_raw, numbered: true },
                },
            )
        },
        StorePurpose::LatestRoot { version, numbered } => if numbered {
            root_done_step(limits, tuf, now)
        } else {
            UpdateStep::Store(
                UpdateStore {
                    path: MetadataPath::Role(Role::Root),
                    version: MetadataVersion::Number(version),
                    raw,
                    purpose: StorePurpose::LatestRoot { version, numbered: true },
                },
            )
        },
        StorePurpose::Timestamp => snapshot_step(tuf, true),
        StorePurpose::Snapshot => targets_step(tuf, true),
        StorePurpose::Targets => UpdateStep::Done(Ok(true)),
    }
}

/// The request to store metadata of `role` in the local repository.
fn store_metadata(
    role: Role,
    version: MetadataVersion,
    raw: Vec<u8>,
    purpose: StorePurpose,
) -> (r: UpdateStep)
    ensures
        r == UpdateStep::Store(
            UpdateStore { path: MetadataPath::Role(role), version, raw, purpose },
        ),
{
    UpdateStep::Store(
        UpdateStore { path: MetadataPath::from_role(&role), version, raw, purpose },
    )
}

impl<T> Client<T>
where
    T: PathTranslator,
{
    /// Begins to update the metadata from the remote repository.
    ///
    /// The update says `true` if anything was updated and `false` otherwise.
    pub fn update(&self) -> (r: UpdateStep)
        ensures
            r == root_step(self@.config.limits()),
    {
        UpdateStep::Fetch(
            UpdateFetch {
                fetch: Fetch::root(
                    *self.config().max_root_length(),
                    MetadataVersion::Unversioned,
                ),
                purpose: FetchPurpose::LatestRoot,
            },
        )
    }

    /// Goes on from the root metadata of `version` to the next.
    fn update_root(&self, version: u32, latest: u32, latest_raw: Vec<u8>) -> (r: UpdateStep)
        ensures
            r == next_root_step(self@.config.limits(), version, latest, latest_raw),
    {
        if version < latest && version + 1 < latest {
            let next: u32 = version + 1;
            UpdateStep::Fetch(
                UpdateFetch {
                    fetch: Fetch::root(
                        *self.config().max_root_length(),
                        MetadataVersion::Number(next),
                    ),
                    purpose: FetchPurpose::NextRoot { version: next, latest, latest_raw },
                },
            )
        } else {
            UpdateStep::Trust(
                UpdateTrust {
                    role: Role::Root,
                    raw: latest_raw,
                    purpose: TrustPurpose::LatestRoot { version: latest },
                },
            )
        }
    }

    /// Goes on to the timestamp metadata.
    fn update_timestamp(&self, updated: bool) -> (r: UpdateStep)
        ensures
            r == timestamp_step(self@.config.limits(), updated),
    {
        UpdateStep::Fetch(
            UpdateFetch {
                fetch: Fetch::timestamp(*self.config().max_timestamp_length()),
                purpose: FetchPurpose::Timestamp { updated },
            },
        )
    }

    /// The request for new snapshot metadata, if there is any.
    pub fn wanted_snapshot(&self) -> (r: Result<Option<Fetch>, Error>)
        ensures
            r == snapshot_wanted(self@.tuf),
    {
        let tuf = self.tuf();
        match &tuf.timestamp {
            None => Err(Error::MissingMetadata(Role::Timestamp)),
            Some(timestamp) => {
                let trusted: u32 = match &tuf.snapshot {
                    Some(snapshot) => snapshot.version,
                    None => 0,
                };
                Fetch::described(
                    Role::Snapshot,
                    &timestamp.snapshot,
                    trusted,
                    tuf.root.consistent_snapshot,
                )
            },
        }
    }

    /// The request for new targets metadata, if there is any.
    pub fn wanted_targets(&self) -> (r: Result<Option<Fetch>, Error>)
        ensures
            r == targets_wanted(self@.tuf),
    {
        let tuf = self.tuf();
        match &tuf.snapshot {
            None => Err(Error::MissingMetadata(Role::Snapshot)),
            Some(snapshot) => match snapshot.meta.get(Role::Targets.name()) {
                None => Err(Error::VerificationFailure(Message::TargetsNotDescribed)),
                Some(description) => {
                    let trusted: u32 = match &tuf.targets {
                        Some(targets) => targets.version,
                        None => 0,
                    };
                    Fetch::described(
                        Role::Targets,
                        description,
                        trusted,
                        tuf.root.consistent_snapshot,
                    )
                },
            },
        }
    }

    /// Goes on to the snapshot metadata.
    fn update_snapshot(&self, updated: bool) -> (r: UpdateStep)
        ensures
            r == snapshot_step(self@.tuf, updated),
    {
        match self.wanted_snapshot() {
            Err(error) => UpdateStep::Done(Err(error)),
            Ok(None) => self.update_targets(updated),
            Ok(Some(fetch)) => UpdateStep::Fetch(
                UpdateFetch { fetch, purpose: FetchPurpose::Snapshot { updated } },
            ),
        }
    }

    /// Goes on to the targets metadata.
    fn update_targets(&self, updated: bool) -> (r: UpdateStep)
        ensures
            r == targets_step(self@.tuf, updated),
    {
        match self.wanted_targets() {
            Err(error) => UpdateStep::Done(Err(error)),
            Ok(None) => UpdateStep::Done(Ok(updated)),
            Ok(Some(fetch)) => UpdateStep::Fetch(
                UpdateFetch { fetch, purpose: FetchPurpose::Targets { updated } },
            ),
        }
    }

    /// Resumes an update with the metadata that was asked for.
    pub fn update_fetched(&self, request: UpdateFetch, reply: Result<Vec<u8>, Error>) -> (r:
        UpdateStep)
        ensures
            r == fetched_step(request.purpose, reply),
    {
        let raw = match reply {
            Err(error) => {
                return UpdateStep::Done(Err(error));
            },
            Ok(raw) => raw,
        };
        match request.purpose {
            FetchPurpose::LatestRoot => UpdateStep::Parse(UpdateParse { raw }),
            FetchPurpose::NextRoot { version, latest, latest_raw } => UpdateStep::Trust(
                UpdateTrust {
                    role: Role::Root,
                    raw,
                    purpose: TrustPurpose::NextRoot { version, latest, latest_raw },
                },
            ),
            FetchPurpose::Timestamp { updated } => UpdateStep::Trust(
                UpdateTrust {
                    role: Role::Timestamp,
                    raw,
                    purpose: TrustPurpose::Timestamp { updated },
                },
            ),
            FetchPurpose::Snapshot { updated } => UpdateStep::Trust(
                UpdateTrust {
                    role: Role::Snapshot,
                    raw,
                    purpose: TrustPurpose::Snapshot { updated },
                },
            ),
            FetchPurpose::Targets { updated } => UpdateStep::Trust(
                UpdateTrust { role: Role::Targets, raw, purpose: TrustPurpose::Targets { updated } },
            ),
        }
    }

    /// Resumes an update with the version that the latest root metadata claims to have. The
    /// version is not verified at this point; it only says how far the root metadata is to be
    /// brought.
    pub fn update_parsed(&self, request: UpdateParse, reply: Result<u32, Error>) -> (r: UpdateStep)
        ensures
            r == parsed_step(self@.config.limits(), self@.tuf, request.raw, reply),
    {
        match reply {
            Err(error) => UpdateStep::Done(Err(error)),
            Ok(latest) => {
                let trusted: u32 = self.root_version();
                if latest < trusted {
                    UpdateStep::Done(
                        Err(Error::VerificationFailure(Message::LatestRootOlder { latest, trusted })),
                    )
                } else if latest == trusted {
                    self.update_timestamp(false)
                } else {
                    self.update_root(trusted, latest, request.raw)
                }
            },
        }
    }

    /// Resumes an update with the outcome of the verification: what is trusted now, if the
    /// metadata was accepted and is an update; nothing, if it is none; or why it was rejected.
    pub fn update_trusted(
        &mut self,
        request: UpdateTrust,
        reply: Result<Option<Tuf>, Error>,
    ) -> (r: UpdateStep)
        ensures
            r == trusted_step(old(self)@.tuf, request.raw, request.purpose, reply),
            final(self)@ == (ClientView { tuf: trusted_after(old(self)@.tuf, reply), ..old(self)@ }),
    {
        match reply {
            Err(error) => UpdateStep::Done(Err(error)),
            Ok(None) => match request.purpose {
                TrustPurpose::NextRoot { .. } => UpdateStep::Done(
                    Err(Error::Programming(Message::NoUpdateOccurred)),
                ),
                TrustPurpose::LatestRoot { .. } => UpdateStep::Done(
                    Err(Error::Programming(Message::NoUpdateOccurred)),
                ),
                TrustPurpose::Timestamp { updated } => self.update_snapshot(updated),
                TrustPurpose::Snapshot { updated } => self.update_targets(updated),
                TrustPurpose::Targets { updated } => UpdateStep::Done(Ok(updated)),
            },
            Ok(Some(tuf)) => {
                self.trust(tuf);
                let (role, purpose) = match request.purpose {
                    TrustPurpose::NextRoot { version, latest, latest_raw } => (
                        Role::Root,
                        StorePurpose::NextRoot { version, latest, latest_raw, numbered: false },
                    ),
                    TrustPurpose::LatestRoot { version } => (
                        Role::Root,
                        StorePurpose::LatestRoot { version, numbered: false },
                    ),
                    TrustPurpose::Timestamp { .. } => (Role::Timestamp, StorePurpose::Timestamp),
                    TrustPurpose::Snapshot { .. } => (Role::Snapshot, StorePurpose::Snapshot),
                    TrustPurpose::Targets { .. } => (Role::Targets, StorePurpose::Targets),
                };
                store_metadata(role, MetadataVersion::Unversioned, request.raw, purpose)
            },
        }
    }

    /// Resumes an update after metadata was to be stored, at the time `now`. The local repository
    /// is a cache: that storing failed is of no consequence.
    pub fn update_stored_at(
        &self,
        request: UpdateStore,
        _outcome: Result<(), Error>,
        now: UtcTime,
    ) -> (r: UpdateStep)
        ensures
            r == stored_step(
                self@.config.limits(),
                self@.tuf,
                request.raw,
                request.purpose,
                now,
            ),
    {
        match request.purpose {
            StorePurpose::NextRoot { version, latest, latest_raw, numbered } => {
                if numbered {
                    self.update_root(version, latest, latest_raw)
                } else {
                    let purpose = StorePurpose::NextRoot {
                        version,
                        latest,
                        latest_raw,
                        numbered: true,
                    };
                    store_metadata(
                        Role::Root,
                        MetadataVersion::Number(version),
                        request.raw,
                        purpose,
                    )
                }
            },
            StorePurpose::LatestRoot { version, numbered } => {
                if !numbered {
                    let purpose = StorePurpose::LatestRoot { version, numbered: true };
                    store_metadata(
                        Role::Root,
                        MetadataVersion::Number(version),
                        request.raw,
                        purpose,
                    )
                } else if self.tuf().root.expires.is_not_after(&now) {
                    UpdateStep::Done(Err(Error::ExpiredMetadata(Role::Root)))
                } else {
                    self.update_timestamp(true)
                }
            },
            StorePurpose::Timestamp => self.update_snapshot(true),
            StorePurpose::Snapshot => self.update_targets(true),
            StorePurpose::Targets => UpdateStep::Done(Ok(true)),
        }
    }

    /// Resumes an update after metadata was to be stored, at the current time. The clock is read
    /// only once the latest root metadata is stored.
    pub fn update_stored(&self, request: UpdateStore, outcome: Result<(), Error>) -> (r: UpdateStep)
        ensures
            exists|now: UtcTime|
                r == #[trigger] stored_step(
                    self@.config.limits(),
                    self@.tuf,
                    request.raw,
                    request.purpose,
                    now,
                ),
    {
        let now = match &request.purpose {
            StorePurpose::LatestRoot { numbered: true, .. } => utc_now(),
            // The time makes no difference to any other step.
            _ => UtcTime { seconds: 0, nanos: 0 },
        };
        self.update_stored_at(request, outcome, now)
    }
}

} // verus!
