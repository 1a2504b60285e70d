//! Whole runs of the client against in-memory repositories.
//!
//! Signatures are stood in for by the numbers of the keys that made them, and metadata is looked up
//! by its bytes. What is fetched is checked for length and hash as a repository would.

use std::collections::BTreeMap;
use std::sync::Arc;

use tuf::client::{Client, Config, DefaultTranslator, PathTranslator};
use tuf::error::{Error, Message};
use tuf::fetch::{Fetch, Source};
use tuf::lookup::LookupStep;
use tuf::metadata::{
    Delegation, HashAlgorithm, HashValue, MetadataDescription, MetadataVersion, Role, RootMetadata,
    SnapshotMetadata, TargetDescription, TargetsMetadata, TimestampMetadata, Tuf,
};
use tuf::path::{MetadataPath, TargetPath, VirtualTargetPath};
use tuf::setup::{PublicKey, RootTrust, SetupStep};
use tuf::table::Table;
use tuf::time::UtcTime;
use tuf::update::UpdateStep;

const YEAR_2038: UtcTime = UtcTime { seconds: 2_145_916_800, nanos: 0 };

fn sha256(bytes: &[u8]) -> String {
    const K: [u32; 64] = [
        0x428a2f98, 0x71374491, 0xb5c0fbcf, 0xe9b5dba5, 0x3956c25b, 0x59f111f1, 0x923f82a4,
        0xab1c5ed5, 0xd807aa98, 0x12835b01, 0x243185be, 0x550c7dc3, 0x72be5d74, 0x80deb1fe,
        0x9bdc06a7, 0xc19bf174, 0xe49b69c1, 0xefbe4786, 0x0fc19dc6, 0x240ca1cc, 0x2de92c6f,
        0x4a7484aa, 0x5cb0a9dc, 0x76f988da, 0x983e5152, 0xa831c66d, 0xb00327c8, 0xbf597fc7,
        0xc6e00bf3, 0xd5a79147, 0x06ca6351, 0x14292967, 0x27b70a85, 0x2e1b2138, 0x4d2c6dfc,
        0x53380d13, 0x650a7354, 0x766a0abb, 0x81c2c92e, 0x92722c85, 0xa2bfe8a1, 0xa81a664b,
        0xc24b8b70, 0xc76c51a3, 0xd192e819, 0xd6990624, 0xf40e3585, 0x106aa070, 0x19a4c116,
        0x1e376c08, 0x2748774c, 0x34b0bcb5, 0x391c0cb3, 0x4ed8aa4a, 0x5b9cca4f, 0x682e6ff3,
        0x748f82ee, 0x78a5636f, 0x84c87814, 0x8cc70208, 0x90befffa, 0xa4506ceb, 0xbef9a3f7,
        0xc67178f2,
    ];
    let mut h: [u32; 8] = [
        0x6a09e667, 0xbb67ae85, 0x3c6ef372, 0xa54ff53a, 0x510e527f, 0x9b05688c, 0x1f83d9ab,
        0x5be0cd19,
    ];
    let mut message = bytes.to_vec();
    message.push(0x80);
    while message.len() % 64 != 56 {
        message.push(0);
    }
    message.extend_from_slice(&((bytes.len() as u64) * 8).to_be_bytes());
    for block in message.chunks(64) {
        let mut w = [0u32; 64];
        for i in 0..16 {
            w[i] = u32::from_be_bytes([
                block[4 * i],
                block[4 * i + 1],
                block[4 * i + 2],
                block[4 * i + 3],
            ]);
        }
        for i in 16..64 {
            let s0 = w[i - 15].rotate_right(7) ^ w[i - 15].rotate_right(18) ^ (w[i - 15] >> 3);
            let s1 = w[i - 2].rotate_right(17) ^ w[i - 2].rotate_right(19) ^ (w[i - 2] >> 10);
            w[i] = w[i - 16].wrapping_add(s0).wrapping_add(w[i - 7]).wrapping_add(s1);
        }
        let mut v = h;
        for i in 0..64 {
            let s1 = v[4].rotate_right(6) ^ v[4].rotate_right(11) ^ v[4].rotate_right(25);
            let choice = (v[4] & v[5]) ^ (!v[4] & v[6]);
            let t1 = v[7]
                .wrapping_add(s1)
                .wrapping_add(choice)
                .wrapping_add(K[i])
                .wrapping_add(w[i]);
            let s0 = v[0].rotate_right(2) ^ v[0].rotate_right(13) ^ v[0].rotate_right(22);
            let majority = (v[0] & v[1]) ^ (v[0] & v[2]) ^ (v[1] & v[2]);
            let t2 = s0.wrapping_add(majority);
            v = [t1.wrapping_add(t2), v[0], v[1], v[2], v[3].wrapping_add(t1), v[4], v[5], v[6]];
        }
        for i in 0..8 {
            h[i] = h[i].wrapping_add(v[i]);
        }
    }
    h.iter().map(|word| format!("{:08x}", word)).collect()
}

// Metadata as the repositories hold it.

#[derive(Clone, Debug)]
struct Described {
    version: u32,
    length: usize,
    sha256: String,
}

#[derive(Clone, Debug)]
struct Target {
    length: u64,
    sha256: String,
    custom: Option<Vec<(String, String)>>,
}

#[derive(Clone, Debug)]
struct Delegated {
    role: String,
    terminating: bool,
    paths: Vec<String>,
}

#[derive(Clone, Debug)]
enum Body {
    Root { version: u32, expires: UtcTime, consistent_snapshot: bool, key: u8 },
    Timestamp { version: u32, snapshot: Described },
    Snapshot { version: u32, meta: Vec<(String, Described)> },
    Targets { version: u32, targets: Vec<(String, Target)>, delegations: Vec<Delegated> },
}

#[derive(Clone, Debug)]
struct Signed {
    body: Body,
    keys: Vec<u8>,
}

impl Signed {
    fn new(body: Body, keys: &[u8]) -> Signed {
        Signed { body, keys: keys.to_vec() }
    }

    fn raw(&self) -> Vec<u8> {
        format!("{:?}", self).into_bytes()
    }

    fn version(&self) -> u32 {
        match self.body {
            Body::Root { version, .. } => version,
            Body::Timestamp { version, .. } => version,
            Body::Snapshot { version, .. } => version,
            Body::Targets { version, .. } => version,
        }
    }

    fn described(&self) -> Described {
        let raw = self.raw();
        Described { version: self.version(), length: raw.len(), sha256: sha256(&raw) }
    }
}

fn root(version: u32, key: u8, consistent_snapshot: bool, keys: &[u8]) -> Signed {
    Signed::new(Body::Root { version, expires: YEAR_2038, consistent_snapshot, key }, keys)
}

fn targets(version: u32, list: &[(&str, Target)], delegations: &[Delegated], keys: &[u8]) -> Signed {
    let list = list.iter().map(|(path, t)| (path.to_string(), t.clone())).collect();
    Signed::new(Body::Targets { version, targets: list, delegations: delegations.to_vec() }, keys)
}

fn snapshot(version: u32, meta: &[(&str, &Signed)], keys: &[u8]) -> Signed {
    let meta = meta.iter().map(|(path, m)| (path.to_string(), m.described())).collect();
    Signed::new(Body::Snapshot { version, meta }, keys)
}

fn timestamp(version: u32, snapshot: &Signed, keys: &[u8]) -> Signed {
    Signed::new(Body::Timestamp { version, snapshot: snapshot.described() }, keys)
}

// A repository.

fn version_name(version: &MetadataVersion) -> String {
    match version {
        MetadataVersion::Unversioned => String::new(),
        MetadataVersion::Number(n) => n.to_string(),
        MetadataVersion::Hash(value) => value.hex.clone(),
    }
}

fn failure(text: &str) -> Error {
    Error::VerificationFailure(Message::Text(text.to_string()))
}

#[derive(Default)]
struct Repo {
    files: BTreeMap<(String, String), Vec<u8>>,
    refuses: bool,
}

impl Repo {
    fn put(&mut self, path: &str, version: MetadataVersion, signed: &Signed) {
        self.files.insert((path.to_string(), version_name(&version)), signed.raw());
    }

    fn get(&self, path: &str, version: MetadataVersion) -> Option<&Vec<u8>> {
        self.files.get(&(path.to_string(), version_name(&version)))
    }

    fn fetch(&self, fetch: &Fetch) -> Result<Vec<u8>, Error> {
        let name = (fetch.path.value().to_string(), version_name(&fetch.version));
        let raw = self.files.get(&name).ok_or(Error::NotFound)?;
        if let Some(max) = fetch.max_length {
            if raw.len() > max {
                return Err(failure("too long"));
            }
        }
        if let Some((algorithm, value)) = &fetch.hash {
            assert_eq!(*algorithm, HashAlgorithm::Sha256);
            if sha256(raw) != value.hex {
                return Err(failure("hash mismatch"));
            }
        }
        Ok(raw.clone())
    }

    fn store(
        &mut self,
        path: &MetadataPath,
        version: &MetadataVersion,
        raw: &[u8],
    ) -> Result<(), Error> {
        if self.refuses {
            return Err(Error::Io("read-only".to_string()));
        }
        self.files.insert((path.value().to_string(), version_name(version)), raw.to_vec());
        Ok(())
    }
}

// What is trusted, and how it changes.

#[derive(Clone, Debug)]
struct Trusted {
    root: Signed,
    timestamp: Option<Signed>,
    snapshot: Option<Signed>,
    targets: Option<Signed>,
    delegations: BTreeMap<String, Signed>,
}

fn hashes(sha256: &str) -> Table<HashValue> {
    if sha256.is_empty() {
        return Table::new();
    }
    Table::new().insert("sha256".to_string(), HashValue { hex: sha256.to_string() })
}

fn description(d: &Described) -> MetadataDescription {
    MetadataDescription { version: d.version, length: d.length, hashes: hashes(&d.sha256) }
}

fn target_description(t: &Target) -> TargetDescription {
    let custom = t.custom.as_ref().map(|fields| {
        let mut table = Table::new();
        for (name, value) in fields {
            table = table.insert(name.clone(), value.clone());
        }
        table
    });
    TargetDescription { length: t.length, hashes: hashes(&t.sha256), custom }
}

fn targets_metadata(signed: &Signed) -> TargetsMetadata {
    match &signed.body {
        Body::Targets { version, targets, delegations } => {
            let mut table = Table::new();
            for (path, t) in targets {
                table = table.insert(path.clone(), Arc::new(target_description(t)));
            }
            let roles: Vec<Delegation> = delegations
                .iter()
                .map(|d| Delegation {
                    role: MetadataPath::Delegated(d.role.clone()),
                    terminating: d.terminating,
                    paths: d
                        .paths
                        .iter()
                        .map(|p| VirtualTargetPath::new(p.clone()).unwrap())
                        .collect(),
                })
                .collect();
            let delegations = if roles.is_empty() { None } else { Some(roles) };
            TargetsMetadata { version: *version, targets: table, delegations }
        }
        other => panic!("not targets metadata: {:?}", other),
    }
}

impl Trusted {
    fn begin(root: Signed) -> Trusted {
        Trusted {
            root,
            timestamp: None,
            snapshot: None,
            targets: None,
            delegations: BTreeMap::new(),
        }
    }

    fn key(&self) -> u8 {
        match self.root.body {
            Body::Root { key, .. } => key,
            _ => unreachable!(),
        }
    }

    fn tuf(&self) -> Tuf {
        let root = match self.root.body {
            Body::Root { version, expires, consistent_snapshot, .. } => {
                RootMetadata { version, expires, consistent_snapshot }
            }
            _ => unreachable!(),
        };
        let timestamp = self.timestamp.as_ref().map(|signed| match &signed.body {
            Body::Timestamp { version, snapshot } => {
                TimestampMetadata { version: *version, snapshot: description(snapshot) }
            }
            _ => unreachable!(),
        });
        let snapshot = self.snapshot.as_ref().map(|signed| match &signed.body {
            Body::Snapshot { version, meta } => {
                let mut table = Table::new();
                for (path, d) in meta {
                    table = table.insert(path.clone(), description(d));
                }
                Arc::new(SnapshotMetadata { version: *version, meta: table })
            }
            _ => unreachable!(),
        });
        let targets = self.targets.as_ref().map(|signed| Arc::new(targets_metadata(signed)));
        let mut delegations = Table::new();
        for (role, signed) in &self.delegations {
            delegations = delegations.insert(role.clone(), Arc::new(targets_metadata(signed)));
        }
        Tuf { root, timestamp, snapshot, targets, delegations }
    }
}

struct Setting {
    known: Vec<Signed>,
    local: Repo,
    remote: Repo,
    trusted: Option<Trusted>,
    fetches: Vec<(Source, String, String)>,
}

impl Setting {
    fn new(known: &[&Signed]) -> Setting {
        Setting {
            known: known.iter().map(|signed| (*signed).clone()).collect(),
            local: Repo::default(),
            remote: Repo::default(),
            trusted: None,
            fetches: Vec::new(),
        }
    }

    fn parse(&self, raw: &[u8]) -> Result<Signed, Error> {
        self.known
            .iter()
            .find(|signed| signed.raw() == raw)
            .cloned()
            .ok_or_else(|| Error::Encoding("not metadata".to_string()))
    }

    fn fetch(&mut self, fetch: &Fetch) -> Result<Vec<u8>, Error> {
        self.fetches.push((
            fetch.source,
            fetch.path.value().to_string(),
            version_name(&fetch.version),
        ));
        match fetch.source {
            Source::Local => self.local.fetch(fetch),
            Source::Remote => self.remote.fetch(fetch),
        }
    }

    fn establish(&mut self, raw: &[u8], trust: &RootTrust) -> Result<Tuf, Error> {
        let signed = self.parse(raw)?;
        let key = match signed.body {
            Body::Root { key, .. } => key,
            _ => return Err(failure("not a root")),
        };
        let accepted: usize = match trust {
            RootTrust::Itself => signed.keys.iter().filter(|k| **k == key).count(),
            RootTrust::Keys { threshold, keys } => {
                let good =
                    keys.iter().filter(|k| signed.keys.contains(&k.encoded[0])).count();
                if good < *threshold as usize {
                    return Err(failure("too few signatures"));
                }
                good
            }
        };
        if accepted == 0 {
            return Err(failure("not signed"));
        }
        let trusted = Trusted::begin(signed);
        let tuf = trusted.tuf();
        self.trusted = Some(trusted);
        Ok(tuf)
    }

    fn verify(&mut self, role: Role, raw: &[u8]) -> Result<Option<Tuf>, Error> {
        let signed = self.parse(raw)?;
        let mut trusted = self.trusted.clone().unwrap();
        if !signed.keys.contains(&trusted.key()) {
            return Err(failure("not signed by a trusted key"));
        }
        let current = match role {
            Role::Root => Some(&trusted.root),
            Role::Timestamp => trusted.timestamp.as_ref(),
            Role::Snapshot => trusted.snapshot.as_ref(),
            Role::Targets => trusted.targets.as_ref(),
        };
        if let Some(current) = current {
            if signed.version() < current.version() {
                return Err(failure("rollback"));
            }
            if signed.version() == current.version() {
                return Ok(None);
            }
        }
        match role {
            Role::Root => {
                if signed.version() != trusted.root.version() + 1 {
                    return Err(failure("a root version was left out"));
                }
                trusted = Trusted::begin(signed);
            }
            Role::Timestamp => trusted.timestamp = Some(signed),
            Role::Snapshot => trusted.snapshot = Some(signed),
            Role::Targets => trusted.targets = Some(signed),
        }
        let tuf = trusted.tuf();
        self.trusted = Some(trusted);
        Ok(Some(tuf))
    }

    fn verify_delegation(&mut self, role: &MetadataPath, raw: &[u8]) -> Result<Tuf, Error> {
        let signed = self.parse(raw)?;
        let mut trusted = self.trusted.clone().unwrap();
        if !signed.keys.contains(&trusted.key()) {
            return Err(failure("not signed by a trusted key"));
        }
        trusted.delegations.insert(role.value().to_string(), signed);
        let tuf = trusted.tuf();
        self.trusted = Some(trusted);
        Ok(tuf)
    }

    fn set_up<T: PathTranslator>(&mut self, first: SetupStep<T>) -> Result<Client<T>, Error> {
        let mut step = first;
        loop {
            step = match step {
                SetupStep::Fetch(request) => {
                    let reply = self.fetch(&request.fetch);
                    let reply = reply.and_then(|raw| self.parse(&raw).map(|_| raw));
                    Client::setup_fetched(request, reply)
                }
                SetupStep::Establish(request) => {
                    let reply = self.establish(&request.raw, &request.trust);
                    Client::setup_established(request, reply)
                }
                SetupStep::Store(request) => {
                    let reply = self.local.store(&request.path, &request.version, &request.raw);
                    Client::setup_stored(request, reply)
                }
                SetupStep::Done(result) => return result,
            };
        }
    }

    fn update<T: PathTranslator>(&mut self, client: &mut Client<T>) -> Result<bool, Error> {
        let mut step = client.update();
        loop {
            step = match step {
                UpdateStep::Fetch(request) => {
                    let reply = self.fetch(&request.fetch);
                    client.update_fetched(request, reply)
                }
                UpdateStep::Parse(request) => {
                    let reply = self.parse(&request.raw).map(|signed| signed.version());
                    client.update_parsed(request, reply)
                }
                UpdateStep::Trust(request) => {
                    let reply = self.verify(request.role, &request.raw);
                    client.update_trusted(request, reply)
                }
                UpdateStep::Store(request) => {
                    let reply = self.local.store(&request.path, &request.version, &request.raw);
                    client.update_stored(request, reply)
                }
                UpdateStep::Done(result) => return result,
            };
        }
    }

    fn look_up<T: PathTranslator>(
        &mut self,
        client: &mut Client<T>,
        target: &str,
    ) -> Result<Arc<TargetDescription>, Error> {
        let target = TargetPath::new(target.to_string())?;
        let mut step = client.fetch_target_description(&target);
        loop {
            step = match step {
                LookupStep::Fetch(request) => {
                    let reply = self.fetch(&request.fetch);
                    client.lookup_fetched(request, reply)
                }
                LookupStep::Trust(request) => {
                    let reply = self.verify_delegation(&request.role, &request.raw);
                    client.lookup_trusted(request, reply)
                }
                LookupStep::Store(request) => {
                    let unversioned = MetadataVersion::Unversioned;
                    let reply = self.local.store(&request.role, &unversioned, &request.raw);
                    client.lookup_stored(request, reply)
                }
                LookupStep::Done(result) => return result,
            };
        }
    }
}

fn keys(numbers: &[u8]) -> Vec<PublicKey> {
    numbers.iter().map(|n| PublicKey { encoded: vec![*n] }).collect()
}

fn unversioned() -> MetadataVersion {
    MetadataVersion::Unversioned
}

fn number(n: u32) -> MetadataVersion {
    MetadataVersion::Number(n)
}

#[test]
fn client_constructors_err_with_not_found() {
    let mut setting = Setting::new(&[]);

    let result = setting.set_up(Client::with_trusted_local(Config::default()));
    assert!(matches!(result, Err(Error::NotFound)));

    let result = setting.set_up(Client::with_trusted_root_keys(
        Config::default(),
        number(1),
        1,
        keys(&[0]),
    ));
    assert!(matches!(result, Err(Error::NotFound)));
}

#[test]
fn client_constructors_err_with_invalid_keys() {
    let good = root(1, 0, false, &[0]);
    let mut setting = Setting::new(&[&good]);
    setting.remote.put("root", number(1), &good);

    let result = setting.set_up(Client::with_trusted_root_keys(
        Config::default(),
        number(1),
        1,
        keys(&[1]),
    ));
    assert!(matches!(result, Err(Error::VerificationFailure(_))));
    assert!(setting.local.files.is_empty());
}

#[test]
fn root_chain_update() {
    let root1 = root(1, 0, false, &[0]);
    let root2 = root(2, 1, false, &[1, 0]);
    let root3 = root(3, 2, false, &[2, 1]);
    let targets = targets(1, &[], &[], &[0, 1, 2]);
    let snapshot = snapshot(1, &[("targets", &targets)], &[0, 1, 2]);
    let timestamp = timestamp(1, &snapshot, &[0, 1, 2]);

    let mut setting =
        Setting::new(&[&root1, &root2, &root3, &targets, &snapshot, &timestamp]);
    setting.remote.put("root", number(1), &root1);
    setting.remote.put("root", unversioned(), &root1);
    setting.remote.put("targets", number(1), &targets);
    setting.remote.put("targets", unversioned(), &targets);
    setting.remote.put("snapshot", number(1), &snapshot);
    setting.remote.put("snapshot", unversioned(), &snapshot);
    setting.remote.put("timestamp", number(1), &timestamp);
    setting.remote.put("timestamp", unversioned(), &timestamp);

    // The local repository gets version 1.
    let mut client = setting
        .set_up(Client::with_trusted_root_keys(Config::default(), number(1), 1, keys(&[0])))
        .unwrap();
    assert_eq!(setting.update(&mut client), Ok(true));
    assert_eq!(client.root_version(), 1);
    assert_eq!(setting.local.get("root", number(1)), Some(&root1.raw()));

    // With nothing new, nothing is updated.
    assert_eq!(setting.update(&mut client), Ok(false));

    // The root goes to version 3, by way of version 2.
    setting.remote.put("root", number(2), &root2);
    setting.remote.put("root", unversioned(), &root2);
    setting.remote.put("root", number(3), &root3);
    setting.remote.put("root", unversioned(), &root3);
    setting.fetches.clear();
    assert_eq!(setting.update(&mut client), Ok(true));
    assert_eq!(client.root_version(), 3);
    assert_eq!(setting.local.get("root", unversioned()), Some(&root3.raw()));
    assert_eq!(setting.local.get("root", number(2)), Some(&root2.raw()));
    assert_eq!(setting.local.get("root", number(3)), Some(&root3.raw()));

    let names: Vec<(&str, &str)> =
        setting.fetches.iter().map(|(_, path, version)| (path.as_str(), version.as_str())).collect();
    assert_eq!(
        names,
        vec![("root", ""), ("root", "2"), ("timestamp", ""), ("snapshot", ""), ("targets", "")]
    );
    assert!(setting.fetches.iter().all(|(source, _, _)| *source == Source::Remote));
}

enum Constructor {
    TrustedLocal,
    TrustedRoot,
    TrustedRootKeys,
}

fn versioned_init(constructor: Constructor, consistent_snapshot: bool) {
    let root1 = root(1, 0, consistent_snapshot, &[0]);
    let root2 = root(2, 1, consistent_snapshot, &[1, 0]);
    let targets = targets(1, &[], &[], &[0, 1]);
    let snapshot = snapshot(1, &[("targets", &targets)], &[0, 1]);
    let timestamp = timestamp(1, &snapshot, &[0, 1]);

    let mut setting = Setting::new(&[&root1, &root2, &targets, &snapshot, &timestamp]);
    let version = || if consistent_snapshot { number(1) } else { unversioned() };
    setting.remote.put("root", number(1), &root1);
    setting.remote.put("root", unversioned(), &root1);
    setting.remote.put("targets", version(), &targets);
    setting.remote.put("snapshot", version(), &snapshot);
    setting.remote.put("timestamp", unversioned(), &timestamp);
    setting.remote.put("root", number(2), &root2);
    setting.remote.put("root", unversioned(), &root2);

    // Begin with version 1.
    let config = Config::build().finish().unwrap();
    let first = match constructor {
        Constructor::TrustedLocal => {
            setting.local.put("root", number(1), &root1);
            Client::with_trusted_local(config)
        }
        Constructor::TrustedRoot => Client::with_trusted_root(config, root1.raw()),
        Constructor::TrustedRootKeys => {
            Client::with_trusted_root_keys(config, number(1), 1, keys(&[0, 1]))
        }
    };
    let mut client = setting.set_up(first).unwrap();
    assert_eq!(client.root_version(), 1);

    // The client fetches version 2.
    assert_eq!(setting.update(&mut client), Ok(true));
    assert_eq!(client.tuf().root.version, 2);
    assert_eq!(client.root_version(), 2);
    assert_eq!(client.timestamp_version(), Some(1));
    assert_eq!(client.snapshot_version(), Some(1));
    assert_eq!(client.targets_version(), Some(1));
    let snapshot_path = MetadataPath::from_role(&Role::Snapshot);
    assert_eq!(client.delegations_version(&snapshot_path), None);

    assert_eq!(setting.local.get("root", unversioned()), Some(&root2.raw()));
    assert_eq!(setting.local.get("root", number(2)), Some(&root2.raw()));
    assert_eq!(setting.local.get("timestamp", unversioned()), Some(&timestamp.raw()));
    assert_eq!(setting.local.get("snapshot", unversioned()), Some(&snapshot.raw()));
    assert_eq!(setting.local.get("targets", unversioned()), Some(&targets.raw()));
}

#[test]
fn versioned_init_trusted_local_consistent_snapshot_false() {
    versioned_init(Constructor::TrustedLocal, false);
}

#[test]
fn versioned_init_trusted_root_consistent_snapshot_false() {
    versioned_init(Constructor::TrustedRoot, false);
}

#[test]
fn versioned_init_trusted_root_keys_consistent_snapshot_false() {
    versioned_init(Constructor::TrustedRootKeys, false);
}

#[test]
fn versioned_init_trusted_local_consistent_snapshot_true() {
    versioned_init(Constructor::TrustedLocal, true);
}

#[test]
fn versioned_init_trusted_root_consistent_snapshot_true() {
    versioned_init(Constructor::TrustedRoot, true);
}

#[test]
fn versioned_init_trusted_root_keys_consistent_snapshot_true() {
    versioned_init(Constructor::TrustedRootKeys, true);
}

fn target(content: &str, custom: Option<Vec<(String, String)>>) -> Target {
    let bytes = content.as_bytes();
    Target { length: bytes.len() as u64, sha256: sha256(bytes), custom }
}

fn field(name: &str, value: &str) -> (String, String) {
    (name.to_string(), value.to_string())
}

/// A repository with one version of everything, and a client that trusts its root.
fn published(
    config: Config<DefaultTranslator>,
    consistent_snapshot: bool,
    top: &Signed,
    delegated: &[(&str, &Signed)],
) -> (Setting, Client<DefaultTranslator>) {
    let root = root(1, 0, consistent_snapshot, &[0]);
    let mut meta: Vec<(&str, &Signed)> = vec![("targets", top)];
    meta.extend_from_slice(delegated);
    let snapshot = snapshot(1, &meta, &[0]);
    let timestamp = timestamp(1, &snapshot, &[0]);
    let mut known = vec![&root, top, &snapshot, &timestamp];
    known.extend(delegated.iter().map(|(_, signed)| *signed));

    let mut setting = Setting::new(&known);
    let version = |n: u32| if consistent_snapshot { number(n) } else { unversioned() };
    setting.remote.put("root", number(1), &root);
    setting.remote.put("root", unversioned(), &root);
    setting.remote.put("targets", version(1), top);
    setting.remote.put("snapshot", version(1), &snapshot);
    setting.remote.put("timestamp", unversioned(), &timestamp);
    for (role, signed) in delegated {
        let hash = HashValue { hex: sha256(&signed.raw()) };
        let version =
            if consistent_snapshot { MetadataVersion::Hash(hash) } else { unversioned() };
        setting.remote.put(role, version, signed);
    }
    let client = setting.set_up(Client::with_trusted_root(config, root.raw())).unwrap();
    (setting, client)
}

fn fetch_target_description(path: &str, expected: Target) {
    let top = targets(1, &[(path, expected.clone())], &[], &[0]);
    let (mut setting, mut client) = published(Config::default(), false, &top, &[]);
    assert_eq!(setting.update(&mut client), Ok(true));

    setting.fetches.clear();
    let description = setting.look_up(&mut client, path).unwrap();
    assert_eq!(description.length, expected.length);
    assert_eq!(description.hashes.get("sha256").unwrap().hex, expected.sha256);
    assert!(description.hashes.get("sha512").is_none());
    match (&description.custom, &expected.custom) {
        (None, None) => {}
        (Some(table), Some(fields)) => {
            for (name, value) in fields {
                assert_eq!(table.get(name), Some(value));
            }
            assert!(table.get("another").is_none());
        }
        other => panic!("{:?}", other),
    }
    assert_eq!(
        format!("{:?}", description),
        format!("{:?}", target_description(&expected))
    );
    assert!(setting.fetches.is_empty());
}

#[test]
fn test_fetch_target_description_standard() {
    let expected = target("target with no custom metadata", None);
    assert_eq!(expected.length, 30);
    assert_eq!(
        expected.sha256,
        "83ef1ef1fad7a2f418249ec8bc5b57cbd4832beaf763b35415c1f8c7b342cb54"
    );
    fetch_target_description("standard/metadata", expected);
}

#[test]
fn test_fetch_target_description_custom_empty() {
    let expected = target("target with empty custom metadata", Some(vec![]));
    assert_eq!(
        expected.sha256,
        "a69d7742d1821cc9c9455c03a878dcb8adf4e754972ca91fd6dd77348239c17d"
    );
    fetch_target_description("custom-empty", expected);
}

#[test]
fn test_fetch_target_description_custom() {
    let custom = vec![
        field("string", "\"string\""),
        field("bool", "true"),
        field("int", "42"),
        field("object", "{\"bool\":true,\"int\":42,\"string\":\"string\"}"),
        field("array", "[1,2,3]"),
    ];
    let expected = target("target with lots of custom metadata", Some(custom));
    assert_eq!(
        expected.sha256,
        "42dcbef36d025ef5e5f6e63ebccb8a4fa33694f37be55554d940911b180002f0"
    );
    fetch_target_description("custom/metadata", expected);
}

#[test]
fn nothing_is_described_before_an_update() {
    let top = targets(1, &[("file", target("text", None))], &[], &[0]);
    let (mut setting, mut client) = published(Config::default(), false, &top, &[]);
    assert_eq!(
        setting.look_up(&mut client, "file").err(),
        Some(Error::MissingMetadata(Role::Snapshot))
    );
    assert_eq!(client.timestamp_version(), None);
    assert_eq!(client.snapshot_version(), None);
    assert_eq!(client.targets_version(), None);
}

#[test]
fn setup_asks_local_first_and_stores_what_the_remote_gave() {
    let root = root(7, 0, false, &[0]);
    let mut setting = Setting::new(&[&root]);
    setting.remote.put("root", number(1), &root);
    let first = Client::with_trusted_root_keys(Config::default(), number(1), 1, keys(&[0]));
    let client = setting.set_up(first).unwrap();
    assert_eq!(client.root_version(), 7);
    assert_eq!(
        setting.fetches,
        vec![
            (Source::Local, "root".to_string(), "1".to_string()),
            (Source::Remote, "root".to_string(), "1".to_string()),
        ]
    );
    // It is stored under the version that it turned out to have.
    assert_eq!(setting.local.get("root", number(7)), Some(&root.raw()));
    assert_eq!(setting.local.files.len(), 1);

    // What the local repository has is not asked of the remote one, nor stored again.
    setting.fetches.clear();
    let first = Client::with_trusted_root_keys(Config::default(), number(7), 1, keys(&[0]));
    assert!(setting.set_up(first).is_ok());
    assert_eq!(setting.fetches, vec![(Source::Local, "root".to_string(), "7".to_string())]);
    assert_eq!(setting.local.files.len(), 1);
}

#[test]
fn setup_passes_over_local_metadata_that_does_not_parse() {
    let root = root(1, 0, false, &[0]);
    let mut setting = Setting::new(&[&root]);
    setting.remote.put("root", number(1), &root);
    setting.local.files.insert(("root".to_string(), "1".to_string()), b"garbage".to_vec());
    let first = Client::with_trusted_root_keys(Config::default(), number(1), 1, keys(&[0]));
    let client = setting.set_up(first).unwrap();
    assert_eq!(client.root_version(), 1);
    assert_eq!(setting.local.get("root", number(1)), Some(&root.raw()));
}

#[test]
fn setup_fails_on_other_local_errors() {
    let root = root(1, 0, false, &[0]);
    let mut setting = Setting::new(&[&root]);
    setting.local.put("root", number(1), &root);
    setting.remote.put("root", number(1), &root);
    let config = Config::build().max_root_length(Some(10)).finish().unwrap();
    let first = Client::with_trusted_root_keys(config, number(1), 1, keys(&[0]));
    assert!(matches!(setting.set_up(first), Err(Error::VerificationFailure(_))));
    assert_eq!(setting.fetches.len(), 1);
}

#[test]
fn setup_does_not_mind_a_local_repository_that_refuses() {
    let root = root(1, 0, false, &[0]);
    let mut setting = Setting::new(&[&root]);
    setting.remote.put("root", number(1), &root);
    setting.local.refuses = true;
    let first = Client::with_trusted_root_keys(Config::default(), number(1), 1, keys(&[0]));
    assert_eq!(setting.set_up(first).unwrap().root_version(), 1);
    assert!(setting.local.files.is_empty());
}

#[test]
fn update_does_not_mind_a_local_repository_that_refuses() {
    let top = targets(1, &[], &[], &[0]);
    let (mut setting, mut client) = published(Config::default(), false, &top, &[]);
    setting.local.refuses = true;
    assert_eq!(setting.update(&mut client), Ok(true));
    assert_eq!(client.targets_version(), Some(1));
    assert!(setting.local.files.is_empty());
}

#[test]
fn expired_root_ends_an_update() {
    let top = targets(1, &[], &[], &[0]);
    let (mut setting, mut client) = published(Config::default(), false, &top, &[]);
    let expires = UtcTime { seconds: 1, nanos: 0 };
    let body = Body::Root { version: 2, expires, consistent_snapshot: false, key: 0 };
    let root2 = Signed::new(body, &[0]);
    setting.known.push(root2.clone());
    setting.remote.put("root", unversioned(), &root2);
    setting.remote.put("root", number(2), &root2);
    assert_eq!(setting.update(&mut client), Err(Error::ExpiredMetadata(Role::Root)));
    // It was verified and stored before.
    assert_eq!(client.root_version(), 2);
    assert_eq!(setting.local.get("root", unversioned()), Some(&root2.raw()));
    assert_eq!(setting.local.get("root", number(2)), Some(&root2.raw()));
    assert_eq!(client.timestamp_version(), None);
}

#[test]
fn older_root_ends_an_update() {
    let root1 = root(1, 0, false, &[0]);
    let root12 = root(12, 0, false, &[0]);
    let mut setting = Setting::new(&[&root1, &root12]);
    setting.remote.put("root", unversioned(), &root1);
    let mut client =
        setting.set_up(Client::with_trusted_root(Config::default(), root12.raw())).unwrap();
    match setting.update(&mut client) {
        Err(Error::VerificationFailure(message)) => assert_eq!(
            message.text(),
            "Latest root version is lower than current root version: 1 < 12"
        ),
        other => panic!("{:?}", other),
    }
    assert_eq!(client.root_version(), 12);
    assert!(setting.local.files.is_empty());
}

#[test]
fn rejected_root_is_not_stored() {
    let top = targets(1, &[], &[], &[0]);
    let (mut setting, mut client) = published(Config::default(), false, &top, &[]);
    let root2 = root(2, 1, false, &[1]);
    setting.known.push(root2.clone());
    setting.remote.put("root", unversioned(), &root2);
    assert!(matches!(setting.update(&mut client), Err(Error::VerificationFailure(_))));
    assert_eq!(client.root_version(), 1);
    assert!(setting.local.files.is_empty());
}

#[test]
fn long_timestamp_is_not_accepted() {
    let config = Config::build().max_timestamp_length(Some(4)).finish().unwrap();
    let top = targets(1, &[], &[], &[0]);
    let (mut setting, mut client) = published(config, false, &top, &[]);
    assert_eq!(setting.update(&mut client), Err(failure("too long")));
    assert_eq!(client.timestamp_version(), None);
}

#[test]
fn targets_must_be_described() {
    let root = root(1, 0, false, &[0]);
    let snapshot = snapshot(1, &[], &[0]);
    let timestamp = timestamp(1, &snapshot, &[0]);
    let mut setting = Setting::new(&[&root, &snapshot, &timestamp]);
    setting.remote.put("root", unversioned(), &root);
    setting.remote.put("snapshot", unversioned(), &snapshot);
    setting.remote.put("timestamp", unversioned(), &timestamp);
    let mut client =
        setting.set_up(Client::with_trusted_root(Config::default(), root.raw())).unwrap();
    match setting.update(&mut client) {
        Err(Error::VerificationFailure(message)) => assert_eq!(
            message.text(),
            "Snapshot metadata did not contain a description of the current targets metadata."
        ),
        other => panic!("{:?}", other),
    }
    // What was verified before stays.
    assert_eq!(client.snapshot_version(), Some(1));
    assert_eq!(setting.local.get("snapshot", unversioned()), Some(&snapshot.raw()));
}

fn delegated(role: &str, terminating: bool, paths: &[&str]) -> Delegated {
    Delegated {
        role: role.to_string(),
        terminating,
        paths: paths.iter().map(|p| p.to_string()).collect(),
    }
}

fn sources(setting: &Setting) -> Vec<(Source, &str)> {
    setting.fetches.iter().map(|(source, path, _)| (*source, path.as_str())).collect()
}

#[test]
fn delegated_role_provides_the_description() {
    let role = targets(3, &[("a/one", target("delegated", None))], &[], &[0]);
    let top = targets(
        1,
        &[("a/top", target("top", None))],
        &[delegated("role-a", false, &["a/"])],
        &[0],
    );
    let (mut setting, mut client) =
        published(Config::default(), false, &top, &[("role-a", &role)]);
    assert_eq!(setting.update(&mut client), Ok(true));
    let path = MetadataPath::Delegated("role-a".to_string());
    assert_eq!(client.delegations_version(&path), None);

    // What the top level lists needs no walk.
    setting.fetches.clear();
    assert_eq!(setting.look_up(&mut client, "a/top").unwrap().length, 3);
    assert!(setting.fetches.is_empty());

    // The role is asked of the local repository, then of the remote one; it is trusted and stored.
    let description = setting.look_up(&mut client, "a/one").unwrap();
    assert_eq!(description.length, 9);
    assert_eq!(description.hashes.get("sha256").unwrap().hex, sha256(b"delegated"));
    assert_eq!(
        sources(&setting),
        vec![(Source::Local, "role-a"), (Source::Remote, "role-a")]
    );
    assert_eq!(client.delegations_version(&path), Some(3));
    assert_eq!(setting.local.get("role-a", unversioned()), Some(&role.raw()));

    // Then it is at hand.
    setting.fetches.clear();
    assert_eq!(setting.look_up(&mut client, "a/one").unwrap().length, 9);
    assert_eq!(setting.look_up(&mut client, "a/two").err(), Some(Error::NotFound));
    assert_eq!(
        sources(&setting),
        vec![(Source::Local, "role-a"), (Source::Local, "role-a")]
    );

    // A target that no delegation covers is looked for nowhere.
    setting.fetches.clear();
    assert_eq!(setting.look_up(&mut client, "b/one").err(), Some(Error::NotFound));
    assert!(setting.fetches.is_empty());
}

#[test]
fn first_role_on_the_walk_that_lists_the_target_wins() {
    let leaf = targets(1, &[("a/one", target("leaf", None))], &[], &[0]);
    let later = targets(1, &[("a/one", target("the later", None))], &[], &[0]);
    for terminating in [false, true] {
        let first =
            targets(1, &[], &[delegated("leaf", terminating, &["a/"])], &[0]);
        let roles =
            [delegated("first", terminating, &["a/"]), delegated("later", false, &["a/"])];
        let top = targets(1, &[], &roles, &[0]);
        let all: [(&str, &Signed); 3] = [("first", &first), ("leaf", &leaf), ("later", &later)];
        let (mut setting, mut client) = published(Config::default(), false, &top, &all);
        assert_eq!(setting.update(&mut client), Ok(true));
        assert_eq!(setting.look_up(&mut client, "a/one").unwrap().length, 4);
        // The lookup ended there.
        let path = MetadataPath::Delegated("later".to_string());
        assert_eq!(client.delegations_version(&path), None);
    }
}

#[test]
fn description_must_lie_within_the_depth() {
    let leaf = targets(1, &[("a/one", target("leaf", None))], &[], &[0]);
    let middle = targets(1, &[], &[delegated("leaf", false, &["a/"])], &[0]);
    let top = targets(1, &[], &[delegated("middle", false, &["a/"])], &[0]);
    let all: [(&str, &Signed); 2] = [("middle", &middle), ("leaf", &leaf)];
    for (depth, found) in [(0u32, false), (1, false), (2, true), (3, true)] {
        let config = Config::build().max_delegation_depth(depth).finish().unwrap();
        let (mut setting, mut client) = published(config, false, &top, &all);
        assert_eq!(setting.update(&mut client), Ok(true));
        assert_eq!(setting.look_up(&mut client, "a/one").is_ok(), found);
    }
}

#[test]
fn delegations_that_lead_nowhere_change_no_result() {
    let good = targets(1, &[("a/one", target("found", None))], &[], &[0]);
    let forged = targets(1, &[("a/one", target("forged one", None))], &[], &[5]);
    let aside = delegated("aside", false, &["b/"]);
    let undescribed = delegated("undescribed", false, &["a/"]);
    let lost = delegated("lost", false, &["a/"]);
    let rejected = delegated("rejected", false, &["a/"]);
    let last = delegated("good", false, &["a/"]);
    for before in [vec![], vec![aside, undescribed, lost, rejected]] {
        for (roles, expected) in [
            ([before.clone(), vec![last.clone()]].concat(), Some(5)),
            (before.clone(), None),
        ] {
            let top = targets(1, &[], &roles, &[0]);
            let all: [(&str, &Signed); 4] =
                [("aside", &good), ("lost", &good), ("rejected", &forged), ("good", &good)];
            let (mut setting, mut client) = published(Config::default(), false, &top, &all);
            setting.remote.files.remove(&("lost".to_string(), String::new()));
            assert_eq!(setting.update(&mut client), Ok(true));
            let result = setting.look_up(&mut client, "a/one");
            match expected {
                Some(length) => assert_eq!(result.unwrap().length, length),
                None => assert_eq!(result.err(), Some(Error::NotFound)),
            }
        }
    }
}

#[test]
fn trusted_local_begins_with_the_latest_local_root() {
    let root1 = root(1, 0, false, &[0]);
    let root2 = root(2, 1, false, &[0, 1]);
    let mut setting = Setting::new(&[&root1, &root2]);
    setting.local.put("root", number(1), &root1);
    setting.local.put("root", number(2), &root2);
    setting.local.put("root", unversioned(), &root2);
    let client = setting.set_up(Client::with_trusted_local(Config::default())).unwrap();
    assert_eq!(client.root_version(), 2);
    assert_eq!(setting.fetches, vec![(Source::Local, "root".to_string(), String::new())]);

    // Without an unversioned file, it is the first.
    setting.local.files.remove(&("root".to_string(), String::new()));
    let client = setting.set_up(Client::with_trusted_local(Config::default())).unwrap();
    assert_eq!(client.root_version(), 1);

    // A latest root that does not parse is not passed over.
    setting.local.files.insert(("root".to_string(), String::new()), b"garbage".to_vec());
    let result = setting.set_up(Client::with_trusted_local(Config::default()));
    assert!(matches!(result, Err(Error::Encoding(_))));
}

#[test]
fn trusted_local_goes_on_from_what_an_update_stored() {
    let top = targets(1, &[], &[], &[0]);
    let (mut setting, mut client) = published(Config::default(), false, &top, &[]);
    let root2 = root(2, 0, false, &[0]);
    setting.known.push(root2.clone());
    setting.remote.put("root", number(2), &root2);
    setting.remote.put("root", unversioned(), &root2);
    assert_eq!(setting.update(&mut client), Ok(true));
    let client = setting.set_up(Client::with_trusted_local(Config::default())).unwrap();
    assert_eq!(client.root_version(), 2);
}

#[test]
fn repeated_update_changes_nothing() {
    for consistent_snapshot in [false, true] {
        let top = targets(1, &[("file", target("text", None))], &[], &[0]);
        let (mut setting, mut client) =
            published(Config::default(), consistent_snapshot, &top, &[]);
        let root2 = root(2, 0, consistent_snapshot, &[0]);
        setting.known.push(root2.clone());
        setting.remote.put("root", number(2), &root2);
        setting.remote.put("root", unversioned(), &root2);
        assert_eq!(setting.update(&mut client), Ok(true));
        let stored = setting.local.files.clone();
        for _ in 0..2 {
            setting.fetches.clear();
            assert_eq!(setting.update(&mut client), Ok(false));
            assert_eq!(
                sources(&setting),
                vec![(Source::Remote, "root"), (Source::Remote, "timestamp")]
            );
            assert_eq!(client.root_version(), 2);
            assert_eq!(client.timestamp_version(), Some(1));
            assert_eq!(client.snapshot_version(), Some(1));
            assert_eq!(client.targets_version(), Some(1));
            assert_eq!(setting.local.files, stored);
        }
    }
}

#[test]
fn long_chain_of_roots_is_brought_in_whole() {
    let top = targets(1, &[], &[], &[0]);
    let (mut setting, mut client) = published(Config::default(), false, &top, &[]);
    for version in 2..=6 {
        let next = root(version, 0, false, &[0]);
        setting.known.push(next.clone());
        setting.remote.put("root", number(version), &next);
        setting.remote.put("root", unversioned(), &next);
    }
    setting.fetches.clear();
    assert_eq!(setting.update(&mut client), Ok(true));
    assert_eq!(client.root_version(), 6);
    let numbers: Vec<&str> = setting
        .fetches
        .iter()
        .filter(|(_, path, version)| path == "root" && !version.is_empty())
        .map(|(_, _, version)| version.as_str())
        .collect();
    assert_eq!(numbers, vec!["2", "3", "4", "5"]);
    for version in 2..=6 {
        assert!(setting.local.get("root", number(version)).is_some());
    }

    // A gap in the chain ends the update.
    let eight = root(8, 0, false, &[0]);
    setting.known.push(eight.clone());
    setting.remote.put("root", unversioned(), &eight);
    assert_eq!(setting.update(&mut client), Err(Error::NotFound));
    assert_eq!(client.root_version(), 6);
}

#[test]
fn consistent_snapshots_ask_for_delegated_roles_by_hash() {
    let role = targets(1, &[], &[], &[0]);
    let top = targets(1, &[], &[delegated("role-a", false, &["a/"])], &[0]);
    let (mut setting, mut client) =
        published(Config::default(), true, &top, &[("role-a", &role)]);
    assert_eq!(setting.update(&mut client), Ok(true));
    setting.fetches.clear();
    assert_eq!(setting.look_up(&mut client, "a/one").err(), Some(Error::NotFound));
    assert_eq!(
        setting.fetches,
        vec![
            (Source::Local, "role-a".to_string(), String::new()),
            (Source::Remote, "role-a".to_string(), sha256(&role.raw())),
        ]
    );
}

#[test]
fn terminating_delegation_hides_those_behind_it() {
    let role = targets(1, &[], &[], &[0]);
    let roles = [delegated("role-b", true, &["b/"]), delegated("role-a", false, &["a/"])];
    let top = targets(1, &[], &roles, &[0]);
    let (mut setting, mut client) = published(
        Config::default(),
        false,
        &top,
        &[("role-a", &role), ("role-b", &role)],
    );
    assert_eq!(setting.update(&mut client), Ok(true));

    // One that is not about the target ends the lookup.
    setting.fetches.clear();
    assert_eq!(setting.look_up(&mut client, "a/one").err(), Some(Error::NotFound));
    assert!(setting.fetches.is_empty());

    // So does one that is and does not lead to it.
    assert_eq!(setting.look_up(&mut client, "b/one").err(), Some(Error::NotFound));
    assert_eq!(
        sources(&setting),
        vec![(Source::Local, "role-b"), (Source::Remote, "role-b")]
    );
}

#[test]
fn walk_is_depth_first_and_in_order() {
    let leaf = targets(1, &[], &[], &[0]);
    let first = targets(
        1,
        &[],
        &[delegated("leaf-1", false, &["a/b/"]), delegated("leaf-2", false, &["a/"])],
        &[0],
    );
    let roles = [delegated("first", false, &["a/"]), delegated("second", false, &["x/", "a/"])];
    let top = targets(1, &[], &roles, &[0]);
    let all: [(&str, &Signed); 4] =
        [("first", &first), ("leaf-1", &leaf), ("leaf-2", &leaf), ("second", &leaf)];
    let (mut setting, mut client) = published(Config::default(), false, &top, &all);
    assert_eq!(setting.update(&mut client), Ok(true));
    setting.fetches.clear();
    assert_eq!(setting.look_up(&mut client, "a/b/c").err(), Some(Error::NotFound));
    let remote: Vec<&str> = setting
        .fetches
        .iter()
        .filter(|(source, _, _)| *source == Source::Remote)
        .map(|(_, path, _)| path.as_str())
        .collect();
    assert_eq!(remote, vec!["first", "leaf-1", "leaf-2", "second"]);
}

#[test]
fn walk_goes_no_deeper_than_allowed() {
    let leaf = targets(1, &[], &[], &[0]);
    let middle = targets(1, &[], &[delegated("leaf", false, &["a/"])], &[0]);
    let upper = targets(1, &[], &[delegated("middle", false, &["a/"])], &[0]);
    let top = targets(1, &[], &[delegated("upper", false, &["a/"])], &[0]);
    let all: [(&str, &Signed); 3] = [("upper", &upper), ("middle", &middle), ("leaf", &leaf)];
    for (depth, expected) in [(0u32, 1usize), (1, 2), (2, 3), (8, 3)] {
        let config = Config::build().max_delegation_depth(depth).finish().unwrap();
        let (mut setting, mut client) = published(config, false, &top, &all);
        assert_eq!(setting.update(&mut client), Ok(true));
        assert_eq!(setting.look_up(&mut client, "a/one").err(), Some(Error::NotFound));
        assert_eq!(setting.trusted.as_ref().unwrap().delegations.len(), expected);
    }
}

#[test]
fn failing_delegation_is_passed_over_unless_terminating() {
    let good = targets(1, &[], &[], &[0]);
    let forged = targets(1, &[], &[], &[5]);
    for terminating in [false, true] {
        let roles =
            [delegated("forged", terminating, &["a/"]), delegated("good", false, &["a/"])];
        let top = targets(1, &[], &roles, &[0]);
        let (mut setting, mut client) = published(
            Config::default(),
            false,
            &top,
            &[("forged", &forged), ("good", &good)],
        );
        assert_eq!(setting.update(&mut client), Ok(true));
        let result = setting.look_up(&mut client, "a/one").err();
        let good_path = MetadataPath::Delegated("good".to_string());
        if terminating {
            assert_eq!(result, Some(failure("not signed by a trusted key")));
            assert_eq!(client.delegations_version(&good_path), None);
        } else {
            assert_eq!(result, Some(Error::NotFound));
            assert_eq!(client.delegations_version(&good_path), Some(1));
        }
        // What was rejected is neither trusted nor stored.
        let forged_path = MetadataPath::Delegated("forged".to_string());
        assert_eq!(client.delegations_version(&forged_path), None);
        assert_eq!(setting.local.get("forged", unversioned()), None);
    }
}

#[test]
fn missing_delegation_is_passed_over_unless_terminating() {
    let good = targets(1, &[], &[], &[0]);
    for terminating in [false, true] {
        let roles = [delegated("lost", terminating, &["a/"]), delegated("good", false, &["a/"])];
        let top = targets(1, &[], &roles, &[0]);
        let (mut setting, mut client) =
            published(Config::default(), false, &top, &[("lost", &good), ("good", &good)]);
        setting.remote.files.remove(&("lost".to_string(), String::new()));
        assert_eq!(setting.update(&mut client), Ok(true));
        assert_eq!(setting.look_up(&mut client, "a/one").err(), Some(Error::NotFound));
        let path = MetadataPath::Delegated("good".to_string());
        let expected = if terminating { None } else { Some(1) };
        assert_eq!(client.delegations_version(&path), expected);
    }
}

#[test]
fn delegation_without_a_known_hash_ends_the_walk_of_its_role() {
    let good = targets(1, &[], &[], &[0]);
    let inner = targets(
        1,
        &[],
        &[delegated("odd", false, &["a/"]), delegated("never", false, &["a/"])],
        &[0],
    );
    let roles = [delegated("inner", false, &["a/"]), delegated("good", false, &["a/"])];
    let top = targets(1, &[], &roles, &[0]);
    let root = root(1, 0, false, &[0]);
    let meta = vec![
        ("targets".to_string(), top.described()),
        ("inner".to_string(), inner.described()),
        ("good".to_string(), good.described()),
        ("never".to_string(), good.described()),
        ("odd".to_string(), Described { version: 1, length: 1, sha256: String::new() }),
    ];
    let snapshot = Signed::new(Body::Snapshot { version: 1, meta }, &[0]);
    let timestamp = timestamp(1, &snapshot, &[0]);
    let mut setting = Setting::new(&[&root, &top, &inner, &good, &snapshot, &timestamp]);
    for (path, signed) in [
        ("root", &root),
        ("timestamp", &timestamp),
        ("snapshot", &snapshot),
        ("targets", &top),
        ("inner", &inner),
        ("good", &good),
        ("never", &good),
    ] {
        setting.remote.put(path, unversioned(), signed);
    }
    let mut client =
        setting.set_up(Client::with_trusted_root(Config::default(), root.raw())).unwrap();
    assert_eq!(setting.update(&mut client), Ok(true));
    assert_eq!(setting.look_up(&mut client, "a/one").err(), Some(Error::NotFound));
    let version =
        |role: &str| client.delegations_version(&MetadataPath::Delegated(role.to_string()));
    assert_eq!(version("inner"), Some(1));
    assert_eq!(version("never"), None);
    assert_eq!(version("good"), Some(1));
}

#[test]
fn delegation_without_a_known_hash_at_the_top_fails_the_lookup() {
    let top = targets(1, &[], &[delegated("odd", false, &["a/"])], &[0]);
    let root = root(1, 0, false, &[0]);
    let meta = vec![
        ("targets".to_string(), top.described()),
        ("odd".to_string(), Described { version: 1, length: 1, sha256: String::new() }),
    ];
    let snapshot = Signed::new(Body::Snapshot { version: 1, meta }, &[0]);
    let timestamp = timestamp(1, &snapshot, &[0]);
    let mut setting = Setting::new(&[&root, &top, &snapshot, &timestamp]);
    for (path, signed) in [
        ("root", &root),
        ("timestamp", &timestamp),
        ("snapshot", &snapshot),
        ("targets", &top),
    ] {
        setting.remote.put(path, unversioned(), signed);
    }
    let mut client =
        setting.set_up(Client::with_trusted_root(Config::default(), root.raw())).unwrap();
    assert_eq!(setting.update(&mut client), Ok(true));
    assert_eq!(
        setting.look_up(&mut client, "a/one").err(),
        Some(Error::NoSupportedHashAlgorithm)
    );
}

#[test]
fn target_file_stands_at_its_hash_with_consistent_snapshots() {
    let top = targets(1, &[("dir/file.txt", target("text", None))], &[], &[0]);
    for consistent_snapshot in [false, true] {
        let (mut setting, mut client) =
            published(Config::default(), consistent_snapshot, &top, &[]);
        assert_eq!(setting.update(&mut client), Ok(true));
        let description = setting.look_up(&mut client, "dir/file.txt").unwrap();
        let path = TargetPath::new("dir/file.txt".to_string()).unwrap();
        let location = client.target_location(&path, &description).unwrap();
        let fetch = client.fetch_target(&path, Ok(description)).unwrap();
        assert_eq!(fetch.location, location);
        assert_eq!(fetch.stored_as, path);
        assert_eq!(fetch.description.length, 4);
        if consistent_snapshot {
            // The SHA-256 of "text".
            let hash = "982d9e3eb996f559e633f4d194def3761d909f5a3b647d1a851fead67c32c9d1";
            assert_eq!(location.value(), format!("dir/{}.file.txt", hash));
        } else {
            assert_eq!(location.value(), "dir/file.txt");
        }
    }
}

#[test]
fn target_that_was_not_found_is_not_fetched() {
    let top = targets(1, &[], &[], &[0]);
    let (mut setting, mut client) = published(Config::default(), true, &top, &[]);
    assert_eq!(setting.update(&mut client), Ok(true));
    let path = TargetPath::new("file".to_string()).unwrap();
    let found = setting.look_up(&mut client, "file");
    assert_eq!(client.fetch_target(&path, found).err(), Some(Error::NotFound));

    // Nor is one whose file would be found by a hash that is not known.
    let unknown = TargetDescription { length: 1, hashes: Table::new(), custom: None };
    assert_eq!(
        client.fetch_target(&path, Ok(Arc::new(unknown))).err(),
        Some(Error::NoSupportedHashAlgorithm)
    );
}

/// Metadata refers to a file whose path begins with `r` by the same path with `v` in its place, and
/// the other way round; any other path stands for itself.
struct Swapped;

fn swapped(path: &str) -> String {
    match path.chars().next() {
        Some('r') => format!("v{}", &path[1..]),
        Some('v') => format!("r{}", &path[1..]),
        _ => path.to_string(),
    }
}

impl PathTranslator for Swapped {
    fn real_to_virtual(&self, path: &TargetPath) -> Result<VirtualTargetPath, Error> {
        VirtualTargetPath::new(swapped(path.value()))
    }

    fn virtual_to_real(&self, path: &VirtualTargetPath) -> Result<TargetPath, Error> {
        TargetPath::new(swapped(path.value()))
    }
}

#[test]
fn lookup_goes_through_the_path_translator() {
    let top = targets(1, &[("v/file", target("text", None))], &[], &[0]);
    let (mut setting, _) = published(Config::default(), false, &top, &[]);
    let config = Config::build().path_translator(Swapped).finish().unwrap();
    let raw = setting.remote.get("root", unversioned()).unwrap().clone();
    let mut client = setting.set_up(Client::with_trusted_root(config, raw)).unwrap();
    assert_eq!(setting.update(&mut client), Ok(true));
    assert_eq!(setting.look_up(&mut client, "r/file").unwrap().length, 4);
    assert_eq!(setting.look_up(&mut client, "v/file").err(), Some(Error::NotFound));
}
