//! Establishing the initial trust.
//!
//! A client begins with root metadata that it trusts. Each constructor of [`Client`] gives the
//! first step on the way there; the `setup_*` functions take the reply to a request and give the
//! next one.

use vstd::prelude::*;

use crate::client::{Client, ClientView};
use crate::config::{Config, ConfigView};
use crate::error::Error;
use crate::fetch::{Fetch, Source};
use crate::metadata::{HashAlgorithm, HashValue, MetadataVersion, Role, Tuf};
use crate::path::MetadataPath;
use crate::translate::PathTranslator;

verus! {

/// A public key, in the encoding of whoever verifies signatures with it.
#[derive(Debug)]
pub struct PublicKey {
    pub encoded: Vec<u8>,
}

/// By what root metadata comes to be trusted.
#[derive(Debug)]
pub enum RootTrust {
    /// By itself: it has to be signed by the keys that it lists.
    Itself,
    /// By `threshold` of `keys`: it has to be signed by these.
    Keys { threshold: u32, keys: Vec<PublicKey> },
}

/// A step on the way to a client: a request, or the client.
#[derive(Debug)]
pub enum SetupStep<T>
where
    T: PathTranslator,
{
    /// Fetch root metadata; resume with [`Client::setup_fetched`]. The reply is
    /// [`Error::NotFound`] where there is none, and [`Error::Encoding`] where it does not parse.
    Fetch(SetupFetch<T>),
    /// Verify root metadata by what is to be trusted; resume with [`Client::setup_established`].
    Establish(SetupEstablish<T>),
    /// Store root metadata in the local repository; resume with [`Client::setup_stored`].
    Store(SetupStore<T>),
    /// The client, or why there is none.
    Done(Result<Client<T>, Error>),
}

/// The request to fetch root metadata.
#[derive(Debug)]
pub struct SetupFetch<T>
where
    T: PathTranslator,
{
    pub fetch: Fetch,
    /// What to fetch if this is not there, or, from the remote repository, if it does not parse.
    pub fallback: Option<Fetch>,
    pub trust: RootTrust,
    pub config: Config<T>,
}

/// The request to verify root metadata.
#[derive(Debug)]
pub struct SetupEstablish<T>
where
    T: PathTranslator,
{
    pub raw: Vec<u8>,
    pub trust: RootTrust,
    /// Whether the metadata was fetched from the remote repository.
    pub fetched: bool,
    pub config: Config<T>,
}

/// The request to store the root metadata that `client` trusts.
#[derive(Debug)]
pub struct SetupStore<T>
where
    T: PathTranslator,
{
    pub path: MetadataPath,
    pub version: MetadataVersion,
    pub raw: Vec<u8>,
    pub client: Client<T>,
}

/// What a step on the way to a client is.
pub enum SetupView<T> {
    Fetch { fetch: Fetch, fallback: Option<Fetch>, trust: RootTrust, config: ConfigView<T> },
    Establish { raw: Vec<u8>, trust: RootTrust, fetched: bool, config: ConfigView<T> },
    Store { path: MetadataPath, version: MetadataVersion, raw: Vec<u8>, client: ClientView<T> },
    Done(Result<ClientView<T>, Error>),
}

impl<T: PathTranslator> View for SetupStep<T> {
    type V = SetupView<T>;

    open spec fn view(&self) -> SetupView<T> {
        match *self {
            SetupStep::Fetch(request) => SetupView::Fetch {
                fetch: request.fetch,
                fallback: request.fallback,
                trust: request.trust,
                config: request.config@,
            },
            SetupStep::Establish(request) => SetupView::Establish {
                raw: request.raw,
                trust: request.trust,
                fetched: request.fetched,
                config: request.config@,
            },
            SetupStep::Store(request) => SetupView::Store {
                path: request.path,
                version: request.version,
                raw: request.raw,
                client: request.client@,
            },
            SetupStep::Done(Ok(client)) => SetupView::Done(Ok(client@)),
            SetupStep::Done(Err(error)) => SetupView::Done(Err(error)),
        }
    }
}

/// The request for metadata from one of the repositories.
pub open spec fn fetch_from(
    source: Source,
    path: MetadataPath,
    version: MetadataVersion,
    max_length: Option<usize>,
    hash: Option<(HashAlgorithm, HashValue)>,
) -> Fetch {
    Fetch { source, path, version, max_length, hash }
}

/// The requests for metadata from the local repository, and from the remote one for when it is not
/// there or does not parse.
pub fn fetch_metadata_from_local_or_else_remote(
    path: MetadataPath,
    version: MetadataVersion,
    max_length: Option<usize>,
    hash: Option<(HashAlgorithm, HashValue)>,
) -> (r: (Fetch, Fetch))
    ensures
        r.0 == fetch_from(Source::Local, path, version, max_length, hash),
        r.1 == fetch_from(Source::Remote, path, version, max_length, hash),
        r.0.source == Source::Local,
        r.0.path == path,
        r.0.version == version,
        r.0.max_length == max_length,
        r.0.hash == hash,
        r.1 == (Fetch { source: Source::Remote, ..r.0 }),
{
    let same_hash = match &hash {
        Some((algorithm, value)) => Some((*algorithm, value.clone())),
        None => None,
    };
    let local = Fetch {
        source: Source::Local,
        path: path.clone(),
        version: version.clone(),
        max_length,
        hash: same_hash,
    };
    (local, Fetch { source: Source::Remote, path, version, max_length, hash })
}

/// The first step for a client that trusts the latest root metadata of the local repository: that
/// is the unversioned file, and where there is none, the file of the first version.
pub open spec fn local_root_step<T>(config: ConfigView<T>) -> SetupView<T> {
    SetupView::Fetch {
        fetch: fetch_from(
            Source::Local,
            MetadataPath::Role(Role::Root),
            MetadataVersion::Unversioned,
            config.max_root_length,
            None,
        ),
        fallback: Some(
            fetch_from(
                Source::Local,
                MetadataPath::Role(Role::Root),
                MetadataVersion::Number(1),
                config.max_root_length,
                None,
            ),
        ),
        trust: RootTrust::Itself,
        config,
    }
}

/// The first step for a client that trusts the root metadata `raw`.
pub open spec fn given_root_step<T>(config: ConfigView<T>, raw: Vec<u8>) -> SetupView<T> {
    SetupView::Establish { raw, trust: RootTrust::Itself, fetched: false, config }
}

/// The first step for a client that trusts root metadata signed by known keys.
pub open spec fn root_keys_step<T>(
    config: ConfigView<T>,
    version: MetadataVersion,
    threshold: u32,
    keys: Vec<PublicKey>,
) -> SetupView<T> {
    let root = MetadataPath::Role(Role::Root);
    SetupView::Fetch {
        fetch: fetch_from(Source::Local, root, version, config.max_root_length, None),
        fallback: Some(fetch_from(Source::Remote, root, version, config.max_root_length, None)),
        trust: RootTrust::Keys { threshold, keys },
        config,
    }
}

/// The error says that metadata is not there, or that it is there and does not parse.
pub open spec fn missing_or_malformed(error: Error) -> bool {
    error is NotFound || error is Encoding
}

/// After this error, `fallback` is asked for: another file of the local repository only where the
/// first is not there, the remote repository also where the local file does not parse.
pub open spec fn goes_on_with(fallback: Fetch, error: Error) -> bool {
    match fallback.source {
        Source::Local => error is NotFound,
        Source::Remote => missing_or_malformed(error),
    }
}

/// The step after root metadata was asked for.
pub open spec fn root_fetched_step<T>(
    fetch: Fetch,
    fallback: Option<Fetch>,
    trust: RootTrust,
    config: ConfigView<T>,
    reply: Result<Vec<u8>, Error>,
) -> SetupView<T> {
    match (reply, fallback) {
        (Ok(raw), _) => SetupView::Establish {
            raw,
            trust,
            fetched: fetch.source == Source::Remote,
            config,
        },
        (Err(error), Some(fallback)) => if goes_on_with(fallback, error) {
            SetupView::Fetch { fetch: fallback, fallback: None, trust, config }
        } else {
            SetupView::Done(Err(error))
        },
        (Err(error), None) => SetupView::Done(Err(error)),
    }
}

/// The step after root metadata was to be verified. What came from the remote repository is
/// stored, as the file of the version that it turned out to have.
pub open spec fn established_step<T>(
    raw: Vec<u8>,
    fetched: bool,
    config: ConfigView<T>,
    reply: Result<Tuf, Error>,
) -> SetupView<T> {
    match reply {
        Err(error) => SetupView::Done(Err(error)),
        Ok(tuf) => {
            let client = ClientView { tuf, config };
            if fetched {
                SetupView::Store {
                    path: MetadataPath::Role(Role::Root),
                    version: MetadataVersion::Number(tuf.root.version),
                    raw,
                    client,
                }
            } else {
                SetupView::Done(Ok(client))
            }
        },
    }
}

impl<T> Client<T>
where
    T: PathTranslator,
{
    /// Begins to create a client that trusts the latest root metadata of the local repository. It
    /// fails if there is none, or if the latest cannot be loaded.
    ///
    /// **WARNING**: This is trust on first use and offers weaker guarantees than
    /// [`Client::with_trusted_root`] and [`Client::with_trusted_root_keys`].
    pub fn with_trusted_local(config: Config<T>) -> (r: SetupStep<T>)
        ensures
            r@ == local_root_step(config@),
    {
        let max_length: Option<usize> = *config.max_root_length();
        let latest = Fetch {
            source: Source::Local,
            path: MetadataPath::from_role(&Role::Root),
            version: MetadataVersion::Unversioned,
            max_length,
            hash: None,
        };
        let first = Fetch {
            source: Source::Local,
            path: MetadataPath::from_role(&Role::Root),
            version: MetadataVersion::Number(1),
            max_length,
            hash: None,
        };
        SetupStep::Fetch(
            SetupFetch { fetch: latest, fallback: Some(first), trust: RootTrust::Itself, config },
        )
    }

    /// Begins to create a client that trusts the root metadata given.
    pub fn with_trusted_root(config: Config<T>, trusted_root: Vec<u8>) -> (r: SetupStep<T>)
        ensures
            r@ == given_root_step(config@, trusted_root),
    {
        SetupStep::Establish(
            SetupEstablish { raw: trusted_root, trust: RootTrust::Itself, fetched: false, config },
        )
    }

    /// Begins to create a client that trusts root metadata of `root_version` if `root_threshold`
    /// of the keys signed it. It is loaded from the local repository, or else from the remote one.
    pub fn with_trusted_root_keys(
        config: Config<T>,
        root_version: MetadataVersion,
        root_threshold: u32,
        trusted_root_keys: Vec<PublicKey>,
    ) -> (r: SetupStep<T>)
        ensures
            r@ == root_keys_step(config@, root_version, root_threshold, trusted_root_keys),
    {
        let (local, remote) = fetch_metadata_from_local_or_else_remote(
            MetadataPath::from_role(&Role::Root),
            root_version,
            *config.max_root_length(),
            None,
        );
        SetupStep::Fetch(
            SetupFetch {
                fetch: local,
                fallback: Some(remote),
                trust: RootTrust::Keys { threshold: root_threshold, keys: trusted_root_keys },
                config,
            },
        )
    }

    /// Resumes the creation of a client with the root metadata that was asked for.
    pub fn setup_fetched(request: SetupFetch<T>, reply: Result<Vec<u8>, Error>) -> (r: SetupStep<T>)
        ensures
            r@ == root_fetched_step(
                request.fetch,
                request.fallback,
                request.trust,
                request.config@,
                reply,
            ),
    {
        let error = match reply {
            Ok(raw) => {
                let fetched = match request.fetch.source {
                    Source::Local => false,
                    Source::Remote => true,
                };
                return SetupStep::Establish(
                    SetupEstablish { raw, trust: request.trust, fetched, config: request.config },
                );
            },
            Err(error) => error,
        };
        match request.fallback {
            Some(fetch) => {
                let goes_on = match (&error, fetch.source) {
                    (Error::NotFound, _) => true,
                    (Error::Encoding(_), Source::Remote) => true,
                    _ => false,
                };
                if goes_on {
                    SetupStep::Fetch(
                        SetupFetch {
                            fetch,
                            fallback: None,
                            trust: request.trust,
                            config: request.config,
                        },
                    )
                } else {
                    SetupStep::Done(Err(error))
                }
            },
            None => SetupStep::Done(Err(error)),
        }
    }

    /// Resumes the creation of a client with the outcome of the verification: what is trusted now,
    /// or why the root metadata was rejected. Root metadata is stored only after it was accepted.
    pub fn setup_established(request: SetupEstablish<T>, reply: Result<Tuf, Error>) -> (r:
        SetupStep<T>)
        ensures
            r@ == established_step(request.raw, request.fetched, request.config@, reply),
    {
        match reply {
            Err(error) => SetupStep::Done(Err(error)),
            Ok(tuf) => {
                let version = MetadataVersion::Number(tuf.root.version);
                let client = Client::trusting(tuf, request.config);
                if request.fetched {
                    SetupStep::Store(
                        SetupStore {
                            path: MetadataPath::from_role(&Role::Root),
                            version,
                            raw: request.raw,
                            client,
                        },
                    )
                } else {
                    SetupStep::Done(Ok(client))
                }
            },
        }
    }

    /// Resumes the creation of a client after the root metadata was to be stored. The local
    /// repository is a cache: that storing failed is of no consequence.
    pub fn setup_stored(request: SetupStore<T>, _outcome: Result<(), Error>) -> (r: SetupStep<T>)
        ensures
            r@ == SetupView::<T>::Done(Ok(request.client@)),
    {
        SetupStep::Done(Ok(request.client))
    }
}

} // verus!
