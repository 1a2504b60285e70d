//! The client and what it trusts.

use vstd::prelude::*;

use crate::config::ConfigView;
use crate::metadata::Tuf;
use crate::path::MetadataPath;

pub use crate::config::{Config, ConfigBuilder};
pub use crate::translate::{DefaultTranslator, PathTranslator};

verus! {

/// What a client holds.
pub struct ClientView<T> {
    /// The metadata that it trusts.
    pub tuf: Tuf,
    /// Its configuration.
    pub config: ConfigView<T>,
}

/// A client that interacts with TUF repositories.
///
/// The client decides; it does not read or write. Each of its procedures ([`Client::update`],
/// [`Client::fetch_target_description`] and the constructors) is a sequence of steps. A step is
/// either the procedure's result or a request: to fetch metadata, to verify it against the trusted
/// metadata, to store it in the local repository. Whoever runs the client carries the request out
/// and resumes the procedure with the reply.
#[derive(Debug)]
pub struct Client<T>
where
    T: PathTranslator,
{
    tuf: Tuf,
    config: Config<T>,
}

impl<T: PathTranslator> View for Client<T> {
    type V = ClientView<T>;

    closed spec fn view(&self) -> ClientView<T> {
        ClientView { tuf: self.tuf, config: self.config@ }
    }
}

impl<T> Client<T>
where
    T: PathTranslator,
{
    /// A client that trusts `tuf`.
    pub(crate) fn trusting(tuf: Tuf, config: Config<T>) -> (r: Self)
        ensures
            r@ == (ClientView { tuf, config: config@ }),
    {
        Client { tuf, config }
    }

    /// Trusts `tuf` from now on.
    pub(crate) fn trust(&mut self, tuf: Tuf)
        ensures
            final(self)@ == (ClientView { tuf, ..old(self)@ }),
    {
        self.tuf = tuf;
    }

    /// The metadata that the client trusts.
    pub fn tuf(&self) -> (r: &Tuf)
        ensures
            *r == self@.tuf,
    {
        &self.tuf
    }

    /// The configuration of the client.
    pub fn config(&self) -> (r: &Config<T>)
        ensures
            r@ == self@.config,
    {
        &self.config
    }

    /// The current trusted root version.
    pub fn root_version(&self) -> (r: u32)
        ensures
            r == self@.tuf.root.version,
    {
        self.tuf.root.version
    }

    /// The current trusted timestamp version.
    pub fn timestamp_version(&self) -> (r: Option<u32>)
        ensures
            r == match self@.tuf.timestamp {
                Some(timestamp) => Some(timestamp.version),
                None => None::<u32>,
            },
    {
        match &self.tuf.timestamp {
            Some(timestamp) => Some(timestamp.version),
            None => None,
        }
    }

    /// The current trusted snapshot version.
    pub fn snapshot_version(&self) -> (r: Option<u32>)
        ensures
            r == match self@.tuf.snapshot {
                Some(snapshot) => Some(snapshot.version),
                None => None::<u32>,
            },
    {
        match &self.tuf.snapshot {
            Some(snapshot) => Some(snapshot.version),
            None => None,
        }
    }

    /// The current trusted targets version.
    pub fn targets_version(&self) -> (r: Option<u32>)
        ensures
            r == match self@.tuf.targets {
                Some(targets) => Some(targets.version),
                None => None::<u32>,
            },
    {
        match &self.tuf.targets {
            Some(targets) => Some(targets.version),
            None => None,
        }
    }

    /// The current trusted delegations version for a given role.
    pub fn delegations_version(&self, role: &MetadataPath) -> (r: Option<u32>)
        ensures
            r == if self@.tuf.delegations@.dom().contains(role@) {
                Some(self@.tuf.delegations@[role@].version)
            } else {
                None::<u32>
            },
    {
        match self.tuf.delegations.get(role.value()) {
            Some(targets) => Some(targets.version),
            None => None,
        }
    }
}

} // verus!
