//! Paths, configurations, tables and the like.

use tuf::client::{Config, ConfigBuilder, DefaultTranslator, PathTranslator};
use tuf::error::{write_decimal, Error, Message};
use tuf::metadata::{hash_preference, HashAlgorithm, HashValue, Role};
use tuf::path::{MetadataPath, TargetPath, VirtualTargetPath};
use tuf::table::Table;
use tuf::time::UtcTime;

#[test]
fn default_configuration() {
    let config = Config::default();
    assert_eq!(config.max_root_length(), &Some(1024 * 1024));
    assert_eq!(config.max_timestamp_length(), &Some(32 * 1024));
    assert_eq!(config.max_delegation_depth(), 8);
    let _: &DefaultTranslator = config.path_translator();
}

#[test]
fn builder_sets_what_it_is_told() {
    assert_eq!(Config::build(), ConfigBuilder::default());
    let config = Config::build()
        .max_root_length(None)
        .max_timestamp_length(Some(7))
        .max_delegation_depth(2)
        .path_translator(DefaultTranslator::new())
        .finish()
        .unwrap();
    let copy = config.clone();
    for config in [config, copy] {
        assert_eq!(config.max_root_length(), &None);
        assert_eq!(config.max_timestamp_length(), &Some(7));
        assert_eq!(config.max_delegation_depth(), 2);
        assert_eq!(config.path_translator(), &DefaultTranslator);
    }
    assert_ne!(Config::build().max_root_length(None), ConfigBuilder::default());
}

#[test]
fn default_translator_there_and_back() {
    let path = TargetPath::new("foo".into()).unwrap();
    let virt = VirtualTargetPath::new("foo".into()).unwrap();
    let translator = DefaultTranslator::new();
    assert_eq!(
        path,
        translator.virtual_to_real(&translator.real_to_virtual(&path).unwrap()).unwrap()
    );
    assert_eq!(
        virt,
        translator.real_to_virtual(&translator.virtual_to_real(&virt).unwrap()).unwrap()
    );
    assert_eq!(translator.real_to_virtual(&path).unwrap().value(), "foo");
    assert_eq!(translator.clone(), DefaultTranslator::default());
}

#[test]
fn paths_that_a_repository_may_hold() {
    for good in ["a", "a/b", "...", ".a", "a.", "a/..b", "a/.../b", "a//b", "a/", "\u{e4}/\u{20ac}"] {
        assert_eq!(TargetPath::new(good.to_string()).unwrap().value(), good);
        assert_eq!(VirtualTargetPath::new(good.to_string()).unwrap().value(), good);
    }
    for bad in ["", "/", "/a", ".", "..", "./a", "../a", "a/.", "a/..", "a/./b", "a/../b"] {
        let error = Error::IllegalPath(bad.to_string());
        assert_eq!(TargetPath::new(bad.to_string()), Err(error));
        let error = Error::IllegalPath(bad.to_string());
        assert_eq!(VirtualTargetPath::new(bad.to_string()), Err(error));
    }
}

#[test]
fn hash_goes_before_the_file_name() {
    let hash = HashValue { hex: "abc".to_string() };
    for (path, expected) in [
        ("file", "abc.file"),
        ("a/file.txt", "a/abc.file.txt"),
        ("a/b/file", "a/b/abc.file"),
        ("a/", "a/abc."),
        ("\u{e4}/\u{20ac}", "\u{e4}/abc.\u{20ac}"),
    ] {
        let path = TargetPath::new(path.to_string()).unwrap();
        assert_eq!(path.with_hash_prefix(&hash).unwrap().value(), expected);
        assert_eq!(path.clone(), path);
    }
    // A hash that makes the path an illegal one is refused.
    let path = TargetPath::new("file".to_string()).unwrap();
    let odd = HashValue { hex: "/".to_string() };
    assert_eq!(path.with_hash_prefix(&odd), Err(Error::IllegalPath("/.file".to_string())));
}

#[test]
fn children_of_directories() {
    let is_child = |path: &str, parent: &str| {
        let path = VirtualTargetPath::new(path.to_string()).unwrap();
        let parent = VirtualTargetPath::new(parent.to_string()).unwrap();
        path.is_child(&parent)
    };
    assert!(is_child("foo/bar", "foo/"));
    assert!(is_child("foo/bar/baz", "foo/"));
    assert!(is_child("foo/", "foo/"));
    assert!(!is_child("foo/bar", "foo"));
    assert!(!is_child("foo", "foo"));
    assert!(!is_child("foo", "foo/"));
    assert!(!is_child("food/bar", "foo/"));
    assert!(!is_child("bar/foo/x", "foo/"));
}

#[test]
fn metadata_paths_are_named_after_roles() {
    for (role, name) in [
        (Role::Root, "root"),
        (Role::Snapshot, "snapshot"),
        (Role::Targets, "targets"),
        (Role::Timestamp, "timestamp"),
    ] {
        assert_eq!(role.name(), name);
        assert_eq!(MetadataPath::from_role(&role).value(), name);
    }
    let path = MetadataPath::Delegated("some/role".to_string());
    assert_eq!(path.clone().value(), "some/role");
}

#[test]
fn longer_hash_is_preferred() {
    let value = |hex: &str| HashValue { hex: hex.to_string() };
    let table = Table::new()
        .insert("md5".to_string(), value("1"))
        .insert("sha256".to_string(), value("2"));
    assert_eq!(hash_preference(&table), Ok((HashAlgorithm::Sha256, value("2"))));
    let table = table.insert("sha512".to_string(), value("3"));
    assert_eq!(hash_preference(&table), Ok((HashAlgorithm::Sha512, value("3"))));
    let table = Table::new().insert("md5".to_string(), value("1"));
    assert_eq!(hash_preference(&table), Err(Error::NoSupportedHashAlgorithm));
    assert_eq!(hash_preference(&Table::new()), Err(Error::NoSupportedHashAlgorithm));
}

#[test]
fn table_keeps_the_last_value_of_a_name() {
    let table: Table<u32> = Table::new();
    assert_eq!(table.get("a"), None);
    let table = table.insert("a".to_string(), 1).insert("b".to_string(), 2);
    assert_eq!((table.get("a"), table.get("b"), table.get("c")), (Some(&1), Some(&2), None));
    let table = table.insert("a".to_string(), 3);
    assert_eq!((table.get("a"), table.get("b")), (Some(&3), Some(&2)));
}

#[test]
fn numbers_in_decimal() {
    for n in [0u32, 7, 9, 10, 42, 99, 100, 1_000_000, u32::MAX] {
        assert_eq!(write_decimal(n), n.to_string());
    }
}

#[test]
fn messages_in_words() {
    let older = Message::LatestRootOlder { latest: 9, trusted: 10 };
    assert_eq!(older.text(), "Latest root version is lower than current root version: 9 < 10");
    assert_eq!(Message::Text("so it goes".to_string()).text(), "so it goes");
}

#[test]
fn times_are_ordered() {
    let time = |seconds: i64, nanos: u32| UtcTime { seconds, nanos };
    assert!(time(1, 5).is_not_after(&time(1, 5)));
    assert!(time(1, 5).is_not_after(&time(1, 6)));
    assert!(time(1, 5).is_not_after(&time(2, 0)));
    assert!(time(-2, 5).is_not_after(&time(-1, 0)));
    assert!(!time(1, 5).is_not_after(&time(1, 4)));
    assert!(!time(1, 5).is_not_after(&time(0, 9)));
    // The leap second at the end of 2016 comes before the second that follows it.
    let leap = chrono::DateTime::parse_from_rfc3339("2016-12-31T23:59:60Z").unwrap();
    let next = chrono::DateTime::parse_from_rfc3339("2017-01-01T00:00:00Z").unwrap();
    let leap = time(leap.timestamp(), leap.timestamp_subsec_nanos());
    let next = time(next.timestamp(), next.timestamp_subsec_nanos());
    assert_eq!(leap.nanos, 1_000_000_000);
    assert!(leap.is_not_after(&next));
    assert!(!next.is_not_after(&leap));
}
