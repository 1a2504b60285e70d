//! What holds of every creation of a client, whatever the replies.

use vstd::prelude::*;

use crate::client::ClientView;
use crate::config::ConfigView;
use crate::error::Error;
use crate::fetch::{Fetch, Source};
use crate::metadata::{MetadataVersion, Role, Tuf};
use crate::path::MetadataPath;
use crate::setup::{PublicKey, RootTrust};
use crate::setup_run::{with_trusted_local, with_trusted_root, with_trusted_root_keys};
use crate::setup_run::{SetupReply, SetupRequest};

verus! {

/// With known keys, both repositories are asked for the same file: the root metadata of exactly the
/// version given, up to the configured length. The local repository is asked first. The remote
/// request differs from the local one by the repository alone, and it is made just where the local
/// metadata is not there or does not parse. There are no other fetches.
pub proof fn both_repositories_are_asked_for_the_version_given<T>(
    config: ConfigView<T>,
    version: MetadataVersion,
    threshold: u32,
    keys: Vec<PublicKey>,
    replies: Seq<SetupReply>,
)
    ensures
        ({
            let asked = with_trusted_root_keys(config, version, threshold, keys, replies).asked;
            &&& asked.len() > 0
            &&& asked[0] matches SetupRequest::Fetch(local)
            &&& local.source == Source::Local
            &&& local.path == MetadataPath::Role(Role::Root)
            &&& local.version == version
            &&& local.max_length == config.max_root_length
            &&& local.hash is None
            &&& (asked.len() > 1 && asked[1] is Fetch) <==> replies.len() > 0 && (replies[0]
                == SetupReply::Fetched(Err(Error::NotFound)) || (replies[0]
                matches SetupReply::Fetched(Err(Error::Encoding(_)))))
            &&& asked.len() > 1 ==> (asked[1] matches SetupRequest::Fetch(remote) ==> remote
                == (Fetch { source: Source::Remote, ..local }))
            &&& forall|i: int|
                1 < i < asked.len() ==> !((#[trigger] asked[i]) is Fetch)
        }),
{
}

/// With known keys, whatever was fetched is what is verified next, by the keys and the threshold
/// given; nothing else is verified.
pub proof fn fetched_root_is_verified_by_the_keys_given<T>(
    config: ConfigView<T>,
    version: MetadataVersion,
    threshold: u32,
    keys: Vec<PublicKey>,
    replies: Seq<SetupReply>,
    i: int,
    raw: Vec<u8>,
)
    ensures
        ({
            let asked = with_trusted_root_keys(config, version, threshold, keys, replies).asked;
            let established = SetupRequest::Establish(RootTrust::Keys { threshold, keys }, raw);
            &&& 0 <= i < asked.len() && i < replies.len() && asked[i] is Fetch && replies[i]
                == SetupReply::Fetched(Ok(raw)) ==> i + 1 < asked.len() && asked[i + 1]
                == established
            &&& 0 <= i < asked.len() && (asked[i] matches SetupRequest::Establish(_, verified)
                && verified == raw) ==> {
                &&& asked[i] == established
                &&& 0 < i <= replies.len()
                &&& asked[i - 1] is Fetch
                &&& replies[i - 1] == SetupReply::Fetched(Ok(raw))
            }
        }),
{
}

/// With known keys, a failure is what comes of the creation: that of the local repository, unless
/// the metadata is not there or does not parse, that of the remote repository, and that of the
/// verification.
pub proof fn setup_with_keys_fails_as_its_requests_do<T>(
    config: ConfigView<T>,
    version: MetadataVersion,
    threshold: u32,
    keys: Vec<PublicKey>,
    replies: Seq<SetupReply>,
    i: int,
    error: Error,
)
    requires
        0 <= i < replies.len(),
        i < with_trusted_root_keys(config, version, threshold, keys, replies).asked.len(),
    ensures
        ({
            let run = with_trusted_root_keys(config, version, threshold, keys, replies);
            let failed = run.result == Some(Err::<ClientView<T>, Error>(error)) && run.asked.len()
                == i + 1;
            &&& run.asked[i] is Fetch && replies[i] == SetupReply::Fetched(Err(error)) ==> if i == 0
                && (error is NotFound || error is Encoding) {
                run.asked.len() > 1
            } else {
                failed
            }
            &&& run.asked[i] is Establish && replies[i] == SetupReply::Established(Err(error))
                ==> failed
        }),
{
}

/// With known keys, root metadata that was accepted makes the client, with the configuration given.
/// Where it came from the remote repository, and only there, it is stored before that, as the file
/// of the version accepted; whether that went well makes no difference.
pub proof fn accepted_root_makes_the_client<T>(
    config: ConfigView<T>,
    version: MetadataVersion,
    threshold: u32,
    keys: Vec<PublicKey>,
    replies: Seq<SetupReply>,
    i: int,
    raw: Vec<u8>,
    tuf: Tuf,
)
    requires
        0 <= i < replies.len(),
        i < with_trusted_root_keys(config, version, threshold, keys, replies).asked.len(),
        with_trusted_root_keys(config, version, threshold, keys, replies).asked[i]
            == SetupRequest::Establish(RootTrust::Keys { threshold, keys }, raw),
        replies[i] == SetupReply::Established(Ok(tuf)),
    ensures
        ({
            let run = with_trusted_root_keys(config, version, threshold, keys, replies);
            let created = run.result == Some(
                Ok::<ClientView<T>, Error>(ClientView { tuf, config }),
            );
            let fetch = run.asked[i - 1]->Fetch_0;
            &&& fetch.source == Source::Local ==> created && run.asked.len() == i + 1
            &&& fetch.source == Source::Remote ==> {
                &&& run.asked.len() == i + 2
                &&& run.asked[i + 1] == SetupRequest::Store(
                    MetadataPath::Role(Role::Root),
                    MetadataVersion::Number(tuf.root.version),
                    raw,
                )
                &&& replies.len() > i + 1 && replies[i + 1] is Stored ==> created
                &&& replies.len() == i + 1 ==> run.result is None
            }
        }),
{
}

/// From the local repository, the latest root metadata is asked for, and where it is not there, and
/// only there, the first version: the two requests differ by the version alone, and both are bounded
/// by the configured length. Nothing is asked of the remote repository, and nothing is stored.
pub proof fn local_setup_asks_for_the_latest_root<T>(
    config: ConfigView<T>,
    replies: Seq<SetupReply>,
)
    ensures
        ({
            let asked = with_trusted_local(config, replies).asked;
            &&& asked.len() > 0
            &&& asked[0] matches SetupRequest::Fetch(latest)
            &&& latest.source == Source::Local
            &&& latest.path == MetadataPath::Role(Role::Root)
            &&& latest.version == MetadataVersion::Unversioned
            &&& latest.max_length == config.max_root_length
            &&& latest.hash is None
            &&& (asked.len() > 1 && asked[1] is Fetch) <==> replies.len() > 0 && replies[0]
                == SetupReply::Fetched(Err(Error::NotFound))
            &&& asked.len() > 1 ==> (asked[1] matches SetupRequest::Fetch(first) ==> first
                == (Fetch { version: MetadataVersion::Number(1), ..latest }))
            &&& forall|i: int|
                1 < i < asked.len() ==> !((#[trigger] asked[i]) is Fetch)
            &&& forall|i: int|
                0 <= i < asked.len() ==> !((#[trigger] asked[i]) is Store)
        }),
{
}

/// From the local repository, whatever was fetched is verified by itself; if it is accepted, it
/// makes the client, and any failure is what comes of the creation.
pub proof fn local_root_makes_the_client<T>(
    config: ConfigView<T>,
    replies: Seq<SetupReply>,
    i: int,
    raw: Vec<u8>,
    tuf: Tuf,
    error: Error,
)
    requires
        0 <= i < replies.len(),
        i < with_trusted_local(config, replies).asked.len(),
    ensures
        ({
            let run = with_trusted_local(config, replies);
            let created = run.result == Some(
                Ok::<ClientView<T>, Error>(ClientView { tuf, config }),
            );
            let failed = run.result == Some(Err::<ClientView<T>, Error>(error));
            &&& run.asked[i] is Fetch && replies[i] == SetupReply::Fetched(Ok(raw)) ==> i + 1
                < run.asked.len() && run.asked[i + 1] == SetupRequest::Establish(
                RootTrust::Itself,
                raw,
            )
            &&& run.asked[i] is Fetch && replies[i] == SetupReply::Fetched(Err(error)) && !(i == 0
                && error is NotFound) ==> failed && run.asked.len() == i + 1
            &&& run.asked[i] is Establish && replies[i] == SetupReply::Established(Ok(tuf))
                ==> created && run.asked.len() == i + 1
            &&& run.asked[i] is Establish && replies[i] == SetupReply::Established(Err(error))
                ==> failed && run.asked.len() == i + 1
        }),
{
}

/// Root metadata that is given is verified by itself, and that is all that is asked; the client, or
/// the failure, is what the verification says.
pub proof fn given_root_makes_the_client<T>(
    config: ConfigView<T>,
    raw: Vec<u8>,
    replies: Seq<SetupReply>,
)
    ensures
        ({
            let run = with_trusted_root(config, raw, replies);
            &&& run.asked == seq![SetupRequest::Establish(RootTrust::Itself, raw)]
            &&& replies.len() == 0 ==> run.result is None
            &&& replies.len() > 0 ==> match replies[0] {
                SetupReply::Established(Ok(tuf)) => run.result == Some(
                    Ok::<ClientView<T>, Error>(ClientView { tuf, config }),
                ),
                SetupReply::Established(Err(error)) => run.result == Some(
                    Err::<ClientView<T>, Error>(error),
                ),
                _ => run.result is None,
            }
        }),
{
}

} // verus!
