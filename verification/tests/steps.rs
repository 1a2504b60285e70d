//! Single steps of the client's procedures, with replies made by hand.

use std::sync::Arc;

use tuf::client::{Client, Config, DefaultTranslator};
use tuf::error::{Error, Message};
use tuf::fetch::{Fetch, Source};
use tuf::lookup::{examine, Examined, LookupStep};
use tuf::metadata::{
    Delegation, HashAlgorithm, HashValue, MetadataDescription, MetadataVersion, Role, RootMetadata,
    SnapshotMetadata, TargetsMetadata, TimestampMetadata, Tuf,
};
use tuf::path::{MetadataPath, TargetPath, VirtualTargetPath};
use tuf::setup::{fetch_metadata_from_local_or_else_remote, PublicKey, RootTrust, SetupStep};
use tuf::table::Table;
use tuf::time::UtcTime;
use tuf::update::{
    FetchPurpose, StorePurpose, TrustPurpose, UpdateFetch, UpdateParse, UpdateStep, UpdateStore,
    UpdateTrust,
};

fn hashes(names: &[(&str, &str)]) -> Table<HashValue> {
    let mut table = Table::new();
    for (name, hex) in names {
        table = table.insert(name.to_string(), HashValue { hex: hex.to_string() });
    }
    table
}

fn described(version: u32, length: usize, names: &[(&str, &str)]) -> MetadataDescription {
    MetadataDescription { version, length, hashes: hashes(names) }
}

fn trusting_root(version: u32, consistent_snapshot: bool) -> Tuf {
    let expires = UtcTime { seconds: 100, nanos: 5 };
    Tuf {
        root: RootMetadata { version, expires, consistent_snapshot },
        timestamp: None,
        snapshot: None,
        targets: None,
        delegations: Table::new(),
    }
}

fn client(tuf: Tuf) -> Client<DefaultTranslator> {
    match Client::with_trusted_root(Config::default(), b"root".to_vec()) {
        SetupStep::Establish(request) => match Client::setup_established(request, Ok(tuf)) {
            SetupStep::Done(Ok(client)) => client,
            other => panic!("{:?}", other),
        },
        other => panic!("{:?}", other),
    }
}

fn with_timestamp(tuf: Tuf, snapshot: MetadataDescription) -> Tuf {
    Tuf { timestamp: Some(TimestampMetadata { version: 1, snapshot }), ..tuf }
}

fn with_snapshot(tuf: Tuf, version: u32, meta: Table<MetadataDescription>) -> Tuf {
    Tuf { snapshot: Some(Arc::new(SnapshotMetadata { version, meta })), ..tuf }
}

fn with_targets(tuf: Tuf, version: u32) -> Tuf {
    let targets = TargetsMetadata { version, targets: Table::new(), delegations: None };
    Tuf { targets: Some(Arc::new(targets)), ..tuf }
}

fn is_root(path: &MetadataPath) -> bool {
    matches!(path, MetadataPath::Role(Role::Root))
}

#[test]
fn trusted_local_asks_for_the_latest_root() {
    let request = || match Client::with_trusted_local(Config::default()) {
        SetupStep::Fetch(request) => request,
        other => panic!("{:?}", other),
    };
    let latest = request();
    let first = latest.fallback.as_ref().unwrap();
    assert_eq!(latest.fetch.version, MetadataVersion::Unversioned);
    assert_eq!(first.version, MetadataVersion::Number(1));
    for fetch in [&latest.fetch, first] {
        assert_eq!(fetch.source, Source::Local);
        assert!(is_root(&fetch.path));
        assert_eq!(fetch.max_length, Some(1024 * 1024));
        assert_eq!(fetch.hash, None);
    }
    assert!(matches!(latest.trust, RootTrust::Itself));
    match Client::setup_fetched(latest, Ok(b"bytes".to_vec())) {
        SetupStep::Establish(request) => {
            assert_eq!(request.raw, b"bytes".to_vec());
            assert!(!request.fetched);
        }
        other => panic!("{:?}", other),
    }

    // Where there is no unversioned file, the file of the first version stands in.
    let fallback = match Client::setup_fetched(request(), Err(Error::NotFound)) {
        SetupStep::Fetch(request) => request,
        other => panic!("{:?}", other),
    };
    assert_eq!(fallback.fetch.version, MetadataVersion::Number(1));
    assert!(fallback.fallback.is_none());
    match Client::setup_fetched(fallback, Ok(b"first".to_vec())) {
        SetupStep::Establish(request) => assert!(!request.fetched),
        other => panic!("{:?}", other),
    }

    // A latest root that cannot be loaded is an error.
    for error in [Error::Encoding("x".to_string()), Error::Io("x".to_string())] {
        match Client::setup_fetched(request(), Err(error)) {
            SetupStep::Done(result) => assert!(result.is_err()),
            other => panic!("{:?}", other),
        }
    }
}

#[test]
fn trusted_root_keys_hands_keys_and_threshold_on() {
    let keys = vec![PublicKey { encoded: vec![1, 2] }, PublicKey { encoded: vec![3] }];
    let hash = MetadataVersion::Hash(HashValue { hex: "ab".to_string() });
    let config = Config::build().max_root_length(None).finish().unwrap();
    match Client::with_trusted_root_keys(config, hash, 2, keys) {
        SetupStep::Fetch(request) => {
            let fallback = request.fallback.as_ref().unwrap();
            assert_eq!(request.fetch.source, Source::Local);
            assert_eq!(fallback.source, Source::Remote);
            for fetch in [&request.fetch, fallback] {
                assert!(is_root(&fetch.path));
                let expected = MetadataVersion::Hash(HashValue { hex: "ab".to_string() });
                assert_eq!(fetch.version, expected);
                assert_eq!(fetch.max_length, None);
                assert_eq!(fetch.hash, None);
            }
            match &request.trust {
                RootTrust::Keys { threshold, keys } => {
                    assert_eq!(*threshold, 2);
                    assert_eq!(keys.len(), 2);
                    assert_eq!(keys[0].encoded, vec![1, 2]);
                    assert_eq!(keys[1].encoded, vec![3]);
                }
                other => panic!("{:?}", other),
            }
        }
        other => panic!("{:?}", other),
    }
}

#[test]
fn local_or_else_remote_keeps_the_hash() {
    let hash = (HashAlgorithm::Sha512, HashValue { hex: "cd".to_string() });
    let (local, remote) = fetch_metadata_from_local_or_else_remote(
        MetadataPath::Delegated("role".to_string()),
        MetadataVersion::Unversioned,
        Some(3),
        Some(hash),
    );
    assert_eq!((local.source, remote.source), (Source::Local, Source::Remote));
    for fetch in [&local, &remote] {
        assert_eq!(fetch.path.value(), "role");
        assert_eq!(fetch.version, MetadataVersion::Unversioned);
        assert_eq!(fetch.max_length, Some(3));
        let (algorithm, value) = fetch.hash.as_ref().unwrap();
        assert_eq!(*algorithm, HashAlgorithm::Sha512);
        assert_eq!(value.hex, "cd");
    }
}

#[test]
fn rejected_root_gives_no_client() {
    match Client::with_trusted_root(Config::default(), b"root".to_vec()) {
        SetupStep::Establish(request) => {
            let reply = Err(Error::Opaque("broken".to_string()));
            match Client::setup_established(request, reply) {
                SetupStep::Done(result) => {
                    assert_eq!(result.err(), Some(Error::Opaque("broken".to_string())))
                }
                other => panic!("{:?}", other),
            }
        }
        other => panic!("{:?}", other),
    }
}

#[test]
fn update_begins_with_the_latest_root() {
    match client(trusting_root(1, false)).update() {
        UpdateStep::Fetch(UpdateFetch { fetch, purpose: FetchPurpose::LatestRoot }) => {
            assert_eq!(fetch.source, Source::Remote);
            assert!(is_root(&fetch.path));
            assert_eq!(fetch.version, MetadataVersion::Unversioned);
            assert_eq!(fetch.max_length, Some(1024 * 1024));
            assert_eq!(fetch.hash, None);
        }
        other => panic!("{:?}", other),
    }
}

#[test]
fn failed_requests_end_an_update_with_their_error() {
    let mut client = client(trusting_root(1, false));
    let fetch = match client.update() {
        UpdateStep::Fetch(request) => request,
        other => panic!("{:?}", other),
    };
    let reply = Err(Error::Io("down".to_string()));
    match client.update_fetched(fetch, reply) {
        UpdateStep::Done(result) => assert_eq!(result, Err(Error::Io("down".to_string()))),
        other => panic!("{:?}", other),
    }
    let parse = UpdateParse { raw: b"x".to_vec() };
    match client.update_parsed(parse, Err(Error::Encoding("bad".to_string()))) {
        UpdateStep::Done(result) => assert_eq!(result, Err(Error::Encoding("bad".to_string()))),
        other => panic!("{:?}", other),
    }
    let trust = UpdateTrust {
        role: Role::Timestamp,
        raw: b"x".to_vec(),
        purpose: TrustPurpose::Timestamp { updated: true },
    };
    match client.update_trusted(trust, Err(Error::ExpiredMetadata(Role::Timestamp))) {
        UpdateStep::Done(result) => {
            assert_eq!(result, Err(Error::ExpiredMetadata(Role::Timestamp)))
        }
        other => panic!("{:?}", other),
    }
    assert_eq!(client.root_version(), 1);
}

#[test]
fn root_versions_follow_one_by_one() {
    let client = client(trusting_root(4, false));
    let parse = |latest| client.update_parsed(UpdateParse { raw: b"latest".to_vec() }, Ok(latest));
    // The next version is the latest, which is at hand.
    match parse(5) {
        UpdateStep::Trust(request) => {
            assert_eq!(request.role, Role::Root);
            assert_eq!(request.raw, b"latest".to_vec());
            assert!(matches!(request.purpose, TrustPurpose::LatestRoot { version: 5 }));
        }
        other => panic!("{:?}", other),
    }
    // There are versions between.
    match parse(7) {
        UpdateStep::Fetch(request) => {
            assert_eq!(request.fetch.version, MetadataVersion::Number(5));
            assert!(matches!(
                request.purpose,
                FetchPurpose::NextRoot { version: 5, latest: 7, .. }
            ));
        }
        other => panic!("{:?}", other),
    }
    // There is no newer one.
    match parse(4) {
        UpdateStep::Fetch(request) => {
            assert!(matches!(request.fetch.path, MetadataPath::Role(Role::Timestamp)));
            assert_eq!(request.fetch.max_length, Some(32 * 1024));
            assert!(matches!(request.purpose, FetchPurpose::Timestamp { updated: false }));
        }
        other => panic!("{:?}", other),
    }
    // The greatest version can be brought in.
    match parse(u32::MAX) {
        UpdateStep::Fetch(request) => {
            assert_eq!(request.fetch.version, MetadataVersion::Number(5))
        }
        other => panic!("{:?}", other),
    }
}

#[test]
fn root_that_is_no_update_is_a_programming_error() {
    let mut client = client(trusting_root(4, false));
    for purpose in [
        TrustPurpose::LatestRoot { version: 5 },
        TrustPurpose::NextRoot { version: 5, latest: 7, latest_raw: b"latest".to_vec() },
    ] {
        let trust = UpdateTrust { role: Role::Root, raw: b"x".to_vec(), purpose };
        match client.update_trusted(trust, Ok(None)) {
            UpdateStep::Done(Err(Error::Programming(message))) => {
                assert_eq!(message, Message::NoUpdateOccurred);
                assert_eq!(
                    message.text(),
                    "TUF claimed no update occurred when one should have. \
                     This is a programming error. Please report this as a bug."
                );
            }
            other => panic!("{:?}", other),
        }
    }
}

#[test]
fn root_is_stored_unversioned_and_numbered() {
    let mut client = client(trusting_root(4, false));
    let trust = UpdateTrust {
        role: Role::Root,
        raw: b"five".to_vec(),
        purpose: TrustPurpose::NextRoot { version: 5, latest: 6, latest_raw: b"six".to_vec() },
    };
    let first = match client.update_trusted(trust, Ok(Some(trusting_root(5, false)))) {
        UpdateStep::Store(request) => request,
        other => panic!("{:?}", other),
    };
    assert_eq!(client.root_version(), 5);
    assert!(is_root(&first.path));
    assert_eq!(first.version, MetadataVersion::Unversioned);
    assert_eq!(first.raw, b"five".to_vec());
    let now = UtcTime { seconds: 0, nanos: 0 };
    let second = match client.update_stored_at(first, Err(Error::Io("full".to_string())), now) {
        UpdateStep::Store(request) => request,
        other => panic!("{:?}", other),
    };
    assert!(is_root(&second.path));
    assert_eq!(second.version, MetadataVersion::Number(5));
    assert_eq!(second.raw, b"five".to_vec());
    match client.update_stored_at(second, Ok(()), now) {
        UpdateStep::Trust(request) => {
            assert_eq!(request.raw, b"six".to_vec());
            assert!(matches!(request.purpose, TrustPurpose::LatestRoot { version: 6 }));
        }
        other => panic!("{:?}", other),
    }
}

#[test]
fn root_must_not_have_expired() {
    // The root expires at 100 s and 5 ns.
    let client = client(trusting_root(6, false));
    let step = |seconds, nanos| {
        let request = UpdateStore {
            path: MetadataPath::from_role(&Role::Root),
            version: MetadataVersion::Number(6),
            raw: b"six".to_vec(),
            purpose: StorePurpose::LatestRoot { version: 6, numbered: true },
        };
        client.update_stored_at(request, Ok(()), UtcTime { seconds, nanos })
    };
    for (seconds, nanos) in [(100, 5), (100, 6), (101, 0)] {
        match step(seconds, nanos) {
            UpdateStep::Done(result) => {
                assert_eq!(result, Err(Error::ExpiredMetadata(Role::Root)))
            }
            other => panic!("{:?}", other),
        }
    }
    for (seconds, nanos) in [(100, 4), (99, 7), (-1, 0)] {
        match step(seconds, nanos) {
            UpdateStep::Fetch(request) => {
                assert!(matches!(request.purpose, FetchPurpose::Timestamp { updated: true }))
            }
            other => panic!("{:?}", other),
        }
    }
}

#[test]
fn clock_is_read_when_the_root_was_stored() {
    let mut tuf = trusting_root(6, false);
    let request = || UpdateStore {
        path: MetadataPath::from_role(&Role::Root),
        version: MetadataVersion::Number(6),
        raw: b"six".to_vec(),
        purpose: StorePurpose::LatestRoot { version: 6, numbered: true },
    };
    // The first of January 2020 is past.
    tuf.root.expires = UtcTime { seconds: 1_577_836_800, nanos: 0 };
    match client(tuf).update_stored(request(), Ok(())) {
        UpdateStep::Done(result) => assert_eq!(result, Err(Error::ExpiredMetadata(Role::Root))),
        other => panic!("{:?}", other),
    }
    // The year 9999 is not.
    let mut tuf = trusting_root(6, false);
    tuf.root.expires = UtcTime { seconds: 253_370_764_800, nanos: 0 };
    assert!(matches!(client(tuf).update_stored(request(), Ok(())), UpdateStep::Fetch(_)));
}

fn wanted(fetch: Result<Option<Fetch>, Error>) -> Fetch {
    fetch.unwrap().unwrap()
}

#[test]
fn snapshot_is_asked_for_as_the_timestamp_describes_it() {
    let names: [(&str, &str); 2] = [("sha256", "aa"), ("sha512", "bb")];
    let tuf = with_timestamp(trusting_root(1, false), described(3, 77, &names));
    let fetch = wanted(client(tuf).wanted_snapshot());
    assert_eq!(fetch.source, Source::Remote);
    assert_eq!(fetch.path.value(), "snapshot");
    assert_eq!(fetch.version, MetadataVersion::Unversioned);
    assert_eq!(fetch.max_length, Some(77));
    let (algorithm, value) = fetch.hash.unwrap();
    assert_eq!((algorithm, value.hex.as_str()), (HashAlgorithm::Sha512, "bb"));

    // With consistent snapshots it is the file of its version.
    let tuf = with_timestamp(trusting_root(1, true), described(3, 77, &names));
    assert_eq!(wanted(client(tuf).wanted_snapshot()).version, MetadataVersion::Number(3));

    // It must be newer than the trusted one.
    for (trusted, expected) in [(2, true), (3, false), (4, false)] {
        let tuf = with_timestamp(trusting_root(1, false), described(3, 77, &names));
        let tuf = with_snapshot(tuf, trusted, Table::new());
        assert_eq!(client(tuf).wanted_snapshot().unwrap().is_some(), expected);
    }

    // Version zero is never newer.
    let tuf = with_timestamp(trusting_root(1, false), described(0, 77, &names));
    assert!(client(tuf).wanted_snapshot().unwrap().is_none());
}

#[test]
fn snapshot_needs_a_timestamp_and_a_known_hash() {
    assert_eq!(
        client(trusting_root(1, false)).wanted_snapshot().err(),
        Some(Error::MissingMetadata(Role::Timestamp))
    );
    let tuf = with_timestamp(trusting_root(1, false), described(3, 77, &[("md5", "aa")]));
    assert_eq!(client(tuf).wanted_snapshot().err(), Some(Error::NoSupportedHashAlgorithm));
    // What is not newer needs no hash.
    let tuf = with_timestamp(trusting_root(1, false), described(3, 77, &[]));
    let tuf = with_snapshot(tuf, 3, Table::new());
    assert!(client(tuf).wanted_snapshot().unwrap().is_none());
}

#[test]
fn targets_are_asked_for_as_the_snapshot_describes_them() {
    let meta =
        || Table::new().insert("targets".to_string(), described(5, 9, &[("sha256", "cc")]));
    let tuf = with_snapshot(trusting_root(1, true), 1, meta());
    let fetch = wanted(client(tuf).wanted_targets());
    assert_eq!(fetch.source, Source::Remote);
    assert_eq!(fetch.path.value(), "targets");
    assert_eq!(fetch.version, MetadataVersion::Number(5));
    assert_eq!(fetch.max_length, Some(9));
    let (algorithm, value) = fetch.hash.unwrap();
    assert_eq!((algorithm, value.hex.as_str()), (HashAlgorithm::Sha256, "cc"));

    let tuf = with_targets(with_snapshot(trusting_root(1, true), 1, meta()), 5);
    assert!(client(tuf).wanted_targets().unwrap().is_none());
    let tuf = with_targets(with_snapshot(trusting_root(1, true), 1, meta()), 4);
    assert!(client(tuf).wanted_targets().unwrap().is_some());

    assert_eq!(
        client(trusting_root(1, true)).wanted_targets().err(),
        Some(Error::MissingMetadata(Role::Snapshot))
    );
    let tuf = with_snapshot(trusting_root(1, true), 1, Table::new());
    assert_eq!(
        client(tuf).wanted_targets().err(),
        Some(Error::VerificationFailure(Message::TargetsNotDescribed))
    );
}

#[test]
fn update_ends_with_whether_anything_was_updated() {
    let up_to_date = || {
        let meta = Table::new().insert("targets".to_string(), described(1, 9, &[]));
        let tuf = with_timestamp(trusting_root(1, false), described(1, 1, &[]));
        with_targets(with_snapshot(tuf, 1, meta), 1)
    };
    for updated in [false, true] {
        for (role, purpose) in [
            (Role::Timestamp, TrustPurpose::Timestamp { updated }),
            (Role::Snapshot, TrustPurpose::Snapshot { updated }),
            (Role::Targets, TrustPurpose::Targets { updated }),
        ] {
            let trust = UpdateTrust { role, raw: b"x".to_vec(), purpose };
            match client(up_to_date()).update_trusted(trust, Ok(None)) {
                UpdateStep::Done(result) => assert_eq!(result, Ok(updated)),
                other => panic!("{:?}", other),
            }
        }
    }
    for (role, purpose) in [
        (Role::Timestamp, StorePurpose::Timestamp),
        (Role::Snapshot, StorePurpose::Snapshot),
        (Role::Targets, StorePurpose::Targets),
    ] {
        let request = UpdateStore {
            path: MetadataPath::from_role(&role),
            version: MetadataVersion::Unversioned,
            raw: b"x".to_vec(),
            purpose,
        };
        let outcome = Err(Error::Io("full".to_string()));
        match client(up_to_date()).update_stored(request, outcome) {
            UpdateStep::Done(result) => assert_eq!(result, Ok(true)),
            other => panic!("{:?}", other),
        }
    }
}

#[test]
fn lookup_needs_trusted_metadata() {
    let path = TargetPath::new("file".to_string()).unwrap();
    let result = |tuf| match client(tuf).fetch_target_description(&path) {
        LookupStep::Done(result) => result.err(),
        other => panic!("{:?}", other),
    };
    assert_eq!(
        result(trusting_root(1, false)),
        Some(Error::MissingMetadata(Role::Snapshot))
    );
    let tuf = with_snapshot(trusting_root(1, false), 1, Table::new());
    assert_eq!(result(tuf), Some(Error::MissingMetadata(Role::Targets)));
    let tuf = with_targets(with_snapshot(trusting_root(1, false), 1, Table::new()), 1);
    assert_eq!(result(tuf), Some(Error::NotFound));
}

fn delegation(terminating: bool, paths: &[&str]) -> Delegation {
    Delegation {
        role: MetadataPath::Delegated("role".to_string()),
        terminating,
        paths: paths.iter().map(|p| VirtualTargetPath::new(p.to_string()).unwrap()).collect(),
    }
}

#[test]
fn delegations_are_examined() {
    let target = VirtualTargetPath::new("a/b/file".to_string()).unwrap();
    let snapshot = |names: &[(&str, &str)]| SnapshotMetadata {
        version: 1,
        meta: Table::new().insert("role".to_string(), described(1, 12, names)),
    };
    let known = snapshot(&[("sha256", "aa")]);
    let unknown = snapshot(&[("md5", "aa")]);
    let empty = SnapshotMetadata { version: 1, meta: Table::new() };

    match examine(&delegation(false, &["x/", "a/"]), &target, &known) {
        Examined::Ask(length, (algorithm, value)) => {
            assert_eq!(length, 12);
            assert_eq!((algorithm, value.hex.as_str()), (HashAlgorithm::Sha256, "aa"));
        }
        _ => panic!("not asked for"),
    }
    for paths in [&[] as &[&str], &["a/b/file"], &["a/b"], &["b/"]] {
        assert!(matches!(examine(&delegation(false, paths), &target, &known), Examined::Skip));
        assert!(matches!(
            examine(&delegation(true, paths), &target, &known),
            Examined::Fail(Error::NotFound)
        ));
    }
    assert!(matches!(examine(&delegation(false, &["a/"]), &target, &empty), Examined::Skip));
    assert!(matches!(
        examine(&delegation(true, &["a/"]), &target, &empty),
        Examined::Fail(Error::NotFound)
    ));
    assert!(matches!(
        examine(&delegation(false, &["a/"]), &target, &unknown),
        Examined::Return(Error::NoSupportedHashAlgorithm)
    ));
    assert!(matches!(
        examine(&delegation(true, &["a/"]), &target, &unknown),
        Examined::Fail(Error::NoSupportedHashAlgorithm)
    ));
}
