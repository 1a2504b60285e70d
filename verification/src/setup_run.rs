//! The creation of a client as a whole, and what holds of every one.

use vstd::prelude::*;

use crate::client::ClientView;
use crate::config::ConfigView;
use crate::error::Error;
use crate::fetch::{Fetch, Source};
use crate::metadata::{MetadataVersion, Role, Tuf};
use crate::path::MetadataPath;
use crate::setup::{
    established_step, fetch_from, given_root_step, local_root_step, missing_or_malformed,
    root_fetched_step, root_keys_step,
};
use crate::setup::{PublicKey, RootTrust, SetupView};

verus! {

/// A request that the creation of a client makes.
pub enum SetupRequest {
    /// Fetch root metadata.
    Fetch(Fetch),
    /// Verify root metadata.
    Establish(RootTrust, Vec<u8>),
    /// Store metadata in the local repository.
    Store(MetadataPath, MetadataVersion, Vec<u8>),
}

/// The reply to a request.
pub enum SetupReply {
    /// The bytes asked for.
    Fetched(Result<Vec<u8>, Error>),
    /// What is trusted now, if the metadata was accepted.
    Established(Result<Tuf, Error>),
    /// The attempt to store is over.
    Stored,
}

/// The creation of a client: the requests made, in order, and the result, unless it still waits
/// for a reply.
pub struct SetupRun<T> {
    pub asked: Seq<SetupRequest>,
    pub result: Option<Result<ClientView<T>, Error>>,
}

/// The creation that is over with this result.
pub open spec fn finished<T>(
    asked: Seq<SetupRequest>,
    result: Result<ClientView<T>, Error>,
) -> SetupRun<T> {
    SetupRun { asked, result: Some(result) }
}

/// The creation that waits for a reply.
pub open spec fn waiting<T>(asked: Seq<SetupRequest>) -> SetupRun<T> {
    SetupRun { asked, result: None }
}

/// Has the root metadata `raw` verified. What was `fetched` from the remote repository is stored
/// once it was accepted.
pub open spec fn establish<T>(
    config: ConfigView<T>,
    trust: RootTrust,
    raw: Vec<u8>,
    fetched: bool,
    asked: Seq<SetupRequest>,
    replies: Seq<SetupReply>,
) -> SetupRun<T> {
    let asked = asked.push(SetupRequest::Establish(trust, raw));
    if replies.len() == 0 {
        waiting(asked)
    } else {
        match replies[0] {
            SetupReply::Established(Err(error)) => finished(asked, Err(error)),
            SetupReply::Established(Ok(tuf)) => {
                let client = ClientView { tuf, config };
                if !fetched {
                    finished(asked, Ok(client))
                } else {
                    let root = MetadataPath::Role(Role::Root);
                    let version = MetadataVersion::Number(tuf.root.version);
                    let asked = asked.push(SetupRequest::Store(root, version, raw));
                    if replies.len() > 1 && replies[1] is Stored {
                        finished(asked, Ok(client))
                    } else {
                        waiting(asked)
                    }
                }
            },
            _ => waiting(asked),
        }
    }
}

/// Creates a client that trusts the latest root metadata of the local repository: that is the
/// unversioned file, and where there is none, the file of the first version.
pub open spec fn with_trusted_local<T>(
    config: ConfigView<T>,
    replies: Seq<SetupReply>,
) -> SetupRun<T> {
    let root = MetadataPath::Role(Role::Root);
    let first = MetadataVersion::Number(1);
    let latest = MetadataVersion::Unversioned;
    let latest_file = fetch_from(Source::Local, root, latest, config.max_root_length, None);
    let first_file = fetch_from(Source::Local, root, first, config.max_root_length, None);
    let asked = seq![SetupRequest::Fetch(latest_file)];
    if replies.len() == 0 {
        waiting(asked)
    } else {
        match replies[0] {
            SetupReply::Fetched(Ok(raw)) => establish(
                config,
                RootTrust::Itself,
                raw,
                false,
                asked,
                replies.skip(1),
            ),
            SetupReply::Fetched(Err(Error::NotFound)) => {
                let asked = asked.push(SetupRequest::Fetch(first_file));
                if replies.len() == 1 {
                    waiting(asked)
                } else {
                    match replies[1] {
                        SetupReply::Fetched(Ok(raw)) => establish(
                            config,
                            RootTrust::Itself,
                            raw,
                            false,
                            asked,
                            replies.skip(2),
                        ),
                        SetupReply::Fetched(Err(error)) => finished(asked, Err(error)),
                        _ => waiting(asked),
                    }
                }
            },
            SetupReply::Fetched(Err(error)) => finished(asked, Err(error)),
            _ => waiting(asked),
        }
    }
}

/// Creates a client that trusts the root metadata given.
pub open spec fn with_trusted_root<T>(
    config: ConfigView<T>,
    raw: Vec<u8>,
    replies: Seq<SetupReply>,
) -> SetupRun<T> {
    establish(config, RootTrust::Itself, raw, false, Seq::empty(), replies)
}

/// Creates a client that trusts root metadata signed by known keys, from the local repository, or,
/// where it is not there or does not parse, from the remote one.
pub open spec fn with_trusted_root_keys<T>(
    config: ConfigView<T>,
    version: MetadataVersion,
    threshold: u32,
    keys: Vec<PublicKey>,
    replies: Seq<SetupReply>,
) -> SetupRun<T> {
    let root = MetadataPath::Role(Role::Root);
    let trust = RootTrust::Keys { threshold, keys };
    let local = fetch_from(Source::Local, root, version, config.max_root_length, None);
    let remote = fetch_from(Source::Remote, root, version, config.max_root_length, None);
    let asked = seq![SetupRequest::Fetch(local)];
    if replies.len() == 0 {
        waiting(asked)
    } else {
        match replies[0] {
            SetupReply::Fetched(Ok(raw)) => establish(
                config,
                trust,
                raw,
                false,
                asked,
                replies.skip(1),
            ),
            SetupReply::Fetched(Err(error)) => if !missing_or_malformed(error) {
                finished(asked, Err(error))
            } else {
                let asked = asked.push(SetupRequest::Fetch(remote));
                if replies.len() == 1 {
                    waiting(asked)
                } else {
                    match replies[1] {
                        SetupReply::Fetched(Ok(raw)) => establish(
                            config,
                            trust,
                            raw,
                            true,
                            asked,
                            replies.skip(2),
                        ),
                        SetupReply::Fetched(Err(error)) => finished(asked, Err(error)),
                        _ => waiting(asked),
                    }
                }
            },
            _ => waiting(asked),
        }
    }
}

/// Takes the creation of a client on from `step`: each reply resumes it.
pub open spec fn run_setup<T>(
    step: SetupView<T>,
    asked: Seq<SetupRequest>,
    replies: Seq<SetupReply>,
) -> SetupRun<T>
    decreases replies.len(),
{
    match step {
        SetupView::Done(result) => finished(asked, result),
        SetupView::Fetch { fetch, fallback, trust, config } => {
            let asked = asked.push(SetupRequest::Fetch(fetch));
            if replies.len() == 0 {
                waiting(asked)
            } else {
                match replies[0] {
                    SetupReply::Fetched(reply) => run_setup(
                        root_fetched_step(fetch, fallback, trust, config, reply),
                        asked,
                        replies.drop_first(),
                    ),
                    _ => waiting(asked),
                }
            }
        },
        SetupView::Establish { raw, trust, fetched, config } => {
            let asked = asked.push(SetupRequest::Establish(trust, raw));
            if replies.len() == 0 {
                waiting(asked)
            } else {
                match replies[0] {
                    SetupReply::Established(reply) => run_setup(
                        established_step(raw, fetched, config, reply),
                        asked,
                        replies.drop_first(),
                    ),
                    _ => waiting(asked),
                }
            }
        },
        SetupView::Store { path, version, raw, client } => {
            let asked = asked.push(SetupRequest::Store(path, version, raw));
            if replies.len() == 0 {
                waiting(asked)
            } else {
                match replies[0] {
                    SetupReply::Stored => finished(asked, Ok(client)),
                    _ => waiting(asked),
                }
            }
        },
    }
}

proof fn lemma_establish<T>(
    config: ConfigView<T>,
    trust: RootTrust,
    raw: Vec<u8>,
    fetched: bool,
    asked: Seq<SetupRequest>,
    replies: Seq<SetupReply>,
)
    ensures
        run_setup(SetupView::Establish { raw, trust, fetched, config }, asked, replies)
            == establish(config, trust, raw, fetched, asked, replies),
{
    reveal_with_fuel(run_setup, 2);
    if replies.len() > 1 {
        assert(replies.drop_first()[0] == replies[1]);
    }
}

/// The creation of a client taken step by step is the creation as a whole: for every sequence of
/// replies it makes the same requests in the same order and has the same result.
pub proof fn stepwise_setup_is_setup<T>(
    config: ConfigView<T>,
    root: Vec<u8>,
    version: MetadataVersion,
    threshold: u32,
    keys: Vec<PublicKey>,
    replies: Seq<SetupReply>,
)
    ensures
        run_setup(local_root_step(config), Seq::empty(), replies) == with_trusted_local(
            config,
            replies,
        ),
        run_setup(given_root_step(config, root), Seq::empty(), replies) == with_trusted_root(
            config,
            root,
            replies,
        ),
        run_setup(root_keys_step(config, version, threshold, keys), Seq::empty(), replies)
            == with_trusted_root_keys(config, version, threshold, keys, replies),
{
    let none = Seq::<SetupRequest>::empty();
    lemma_establish(config, RootTrust::Itself, root, false, none, replies);
    let path = MetadataPath::Role(Role::Root);
    let max = config.max_root_length;
    let latest = fetch_from(Source::Local, path, MetadataVersion::Unversioned, max, None);
    let first = fetch_from(Source::Local, path, MetadataVersion::Number(1), max, None);
    let local = fetch_from(Source::Local, path, version, max, None);
    let remote = fetch_from(Source::Remote, path, version, max, None);
    let trust = RootTrust::Keys { threshold, keys };
    let asked_latest = seq![SetupRequest::Fetch(latest)];
    let asked_local = seq![SetupRequest::Fetch(local)];
    assert(none.push(SetupRequest::Fetch(latest)) =~= asked_latest);
    assert(none.push(SetupRequest::Fetch(local)) =~= asked_local);
    if replies.len() > 0 {
        let later = replies.drop_first();
        assert(later =~= replies.skip(1));
        match replies[0] {
            SetupReply::Fetched(Ok(raw)) => {
                lemma_establish(config, RootTrust::Itself, raw, false, asked_latest, later);
                lemma_establish(config, trust, raw, false, asked_local, later);
            },
            SetupReply::Fetched(Err(_)) => {
                if replies.len() > 1 {
                    let last = later.drop_first();
                    assert(later[0] == replies[1]);
                    assert(last =~= replies.skip(2));
                    match replies[1] {
                        SetupReply::Fetched(Ok(raw)) => {
                            let asked_first = asked_latest.push(SetupRequest::Fetch(first));
                            lemma_establish(config, RootTrust::Itself, raw, false, asked_first, last);
                            let asked_remote = asked_local.push(SetupRequest::Fetch(remote));
                            lemma_establish(config, trust, raw, true, asked_remote, last);
                        },
                        _ => {},
                    }
                }
            },
            _ => {},
        }
    }
    reveal_with_fuel(run_setup, 3);
}

/// Whatever a request stores was fetched from the remote repository, then accepted; it is stored as
/// the file of the version accepted.
pub open spec fn stores_established(asked: Seq<SetupRequest>, replies: Seq<SetupReply>) -> bool {
    forall|i: int|
        0 <= i < asked.len() ==> ((#[trigger] asked[i]) matches SetupRequest::Store(
            path,
            version,
            raw,
        ) ==> {
            &&& i == 3
            &&& asked[1] matches SetupRequest::Fetch(remote)
            &&& remote.source == Source::Remote
            &&& replies[1] == SetupReply::Fetched(Ok(raw))
            &&& asked[2] matches SetupRequest::Establish(_, established)
            &&& established == raw
            &&& replies[2] matches SetupReply::Established(Ok(tuf))
            &&& path == MetadataPath::Role(Role::Root)
            &&& version == MetadataVersion::Number(tuf.root.version)
        })
}

/// Root metadata is stored only after it was validated, and only where it came from the remote
/// repository. The other two constructors store nothing.
pub proof fn setup_stores_what_was_established<T>(
    config: ConfigView<T>,
    root: Vec<u8>,
    version: MetadataVersion,
    threshold: u32,
    keys: Vec<PublicKey>,
    replies: Seq<SetupReply>,
)
    ensures
        stores_established(
            with_trusted_root_keys(config, version, threshold, keys, replies).asked,
            replies,
        ),
        forall|i: int|
            0 <= i < with_trusted_local(config, replies).asked.len() ==> !((
            #[trigger] with_trusted_local(config, replies).asked[i]) is Store),
        forall|i: int|
            0 <= i < with_trusted_root(config, root, replies).asked.len() ==> !((
            #[trigger] with_trusted_root(config, root, replies).asked[i]) is Store),
{
}

/// A client that was created has the configuration given, and trusts what a verification of root
/// metadata said: of the metadata given, or of what the last fetch gave.
pub proof fn setup_trusts_what_was_established<T>(
    config: ConfigView<T>,
    root: Vec<u8>,
    version: MetadataVersion,
    threshold: u32,
    keys: Vec<PublicKey>,
    replies: Seq<SetupReply>,
)
    ensures
        with_trusted_local(config, replies).result matches Some(Ok(client)) ==> {
            &&& client.config == config
            &&& replies[1] == SetupReply::Established(Ok(client.tuf)) || replies[2]
                == SetupReply::Established(Ok(client.tuf))
        },
        with_trusted_root(config, root, replies).result matches Some(Ok(client)) ==> {
            &&& client.config == config
            &&& replies[0] == SetupReply::Established(Ok(client.tuf))
        },
        with_trusted_root_keys(config, version, threshold, keys, replies).result matches Some(
            Ok(client),
        ) ==> {
            &&& client.config == config
            &&& replies[1] == SetupReply::Established(Ok(client.tuf)) || replies[2]
                == SetupReply::Established(Ok(client.tuf))
        },
{
}

/// A client of the local repository trusts the latest root metadata there: where the unversioned
/// file is there and is accepted, it is what the client trusts, and no other file is asked for.
pub proof fn local_client_trusts_the_latest_root<T>(
    config: ConfigView<T>,
    raw: Vec<u8>,
    tuf: Tuf,
    rest: Seq<SetupReply>,
)
    ensures
        ({
            let accepted = SetupReply::Established(Ok(tuf));
            let replies = seq![SetupReply::Fetched(Ok(raw)), accepted] + rest;
            let run = with_trusted_local(config, replies);
            &&& run.result == Some(Ok::<ClientView<T>, Error>(ClientView { tuf, config }))
            &&& run.asked.len() == 2
            &&& run.asked[0] == SetupRequest::Fetch(
                fetch_from(
                    Source::Local,
                    MetadataPath::Role(Role::Root),
                    MetadataVersion::Unversioned,
                    config.max_root_length,
                    None,
                ),
            )
            &&& run.asked[1] == SetupRequest::Establish(RootTrust::Itself, raw)
        }),
{
}

/// Where no repository asked has root metadata, no client is created.
pub proof fn no_root_no_client<T>(
    config: ConfigView<T>,
    version: MetadataVersion,
    threshold: u32,
    keys: Vec<PublicKey>,
    rest: Seq<SetupReply>,
)
    ensures
        ({
            let missing = SetupReply::Fetched(Err(Error::NotFound));
            let nothing = Some(Err::<ClientView<T>, Error>(Error::NotFound));
            &&& with_trusted_local(config, seq![missing, missing] + rest).result == nothing
            &&& with_trusted_root_keys(
                config,
                version,
                threshold,
                keys,
                seq![missing, missing] + rest,
            ).result == nothing
        }),
{
}

} // verus!
