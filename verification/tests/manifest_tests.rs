//! Scene declarations, references, versions and paths.

use bevyhub_api::crate_id::CrateId;
use bevyhub_api::include_tree::SceneFile;
use bevyhub_api::manifest::{
    split_implicit_path, CargoLock, CargoLockPackage, ManifestApp, ManifestDependency,
    ManifestMetadata, ManifestReplicationConfig, ManifestScene,
};
use bevyhub_api::replication::ReplicationConfig;
use bevyhub_api::registry::{crate_index_url, Throttle};
use bevyhub_api::scene_doc::SceneThumb;
use bevyhub_api::scene_id::SceneId;
use bevyhub_api::text::fmt_u64;
use bevyhub_api::version::Version;
use bevyhub_api::storage::unpkg_path;

fn plain_scene(name: &str) -> ManifestScene {
    ManifestScene {
        name: name.to_string(),
        description: None,
        thumb_url: None,
        thumb_text: Some("x".to_string()),
        path: None,
        scene_json: None,
        includes: Vec::new(),
        app: None,
        replication: None,
    }
}

/// The template manifest's scene declarations behave as declared: the
/// include list is kept and a referencing app's own reference is prepended.
#[test]
fn cargo_manifest_types_works() {
    let hello_world = plain_scene("hello-world");
    let mut my_base_scene = plain_scene("my-base-scene");
    my_base_scene.description = Some("The Base Scene".to_string());
    let mut my_beautiful_scene = plain_scene("my-beautiful-scene");
    my_beautiful_scene.includes = vec![ManifestDependency::Implicit("hello-world".to_string())];
    my_beautiful_scene.app = Some(ManifestApp::Implicit("my-base-scene".to_string()));

    let metadata = ManifestMetadata {
        scene: vec![hello_world, my_base_scene, my_beautiful_scene],
    };

    assert_eq!(metadata.scene[0].name, "hello-world");
    assert!(metadata.scene[1].description.is_some());
    match &metadata.scene[2].includes[0] {
        ManifestDependency::Implicit(v) => assert_eq!(v, "hello-world"),
        _ => panic!("expected a bare reference"),
    }
    let includes = metadata.scene[2].get_includes();
    assert_eq!(includes.len(), 2);
    match &includes[0] {
        ManifestDependency::Implicit(v) => assert_eq!(v, "my-base-scene"),
        _ => panic!("expected a bare reference"),
    }
}

/// App references normalize like include references, and a bare string
/// with two slashes is malformed.
#[test]
fn app_manifest() {
    let r = ManifestApp::Implicit("bar".to_string())
        .into_crate_and_scene("foo")
        .unwrap();
    assert_eq!(r, ("foo".to_string(), "bar".to_string()));

    let r = ManifestApp::Implicit("foo/bar".to_string())
        .into_crate_and_scene("bazz")
        .unwrap();
    assert_eq!(r, ("foo".to_string(), "bar".to_string()));

    assert!(ManifestApp::Implicit("foo/bar/bazz".to_string())
        .into_crate_and_scene("bazz")
        .is_err());
}

/// A bare reference string with two slashes is rejected with an input
/// error, not silently truncated.
#[test]
fn two_slash_reference_is_an_input_error() {
    let err = split_implicit_path("x", "a/b/c").unwrap_err();
    assert!(err.is_input());
    let err = ManifestDependency::Implicit("a/b/c".to_string())
        .into_crate_and_scene("x")
        .unwrap_err();
    assert!(err.is_input());
}

/// The canonical sparse-index url of a package name.
#[test]
fn crates_io_works() {
    assert_eq!(
        crate_index_url("bevyhub_api").as_str(),
        "https://index.crates.io/be/vy/bevyhub_api"
    );
    assert_eq!(crate_index_url("a").as_str(), "https://index.crates.io/1/a");
    assert_eq!(crate_index_url("ab").as_str(), "https://index.crates.io/2/ab");
    assert_eq!(crate_index_url("abc").as_str(), "https://index.crates.io/3/a/abc");
    assert_eq!(crate_index_url("SerDe").as_str(), "https://index.crates.io/se/rd/serde");
}

/// Versions parse, render and order per semantic-version precedence.
#[test]
fn version_order_and_text() {
    let a = Version::parse("0.0.6-rc.4").unwrap();
    let b = Version::parse("0.0.6-rc.5").unwrap();
    let c = Version::parse("0.0.6").unwrap();
    let d = Version::parse("0.0.6-rc.10").unwrap();
    assert!(a.lt(&b));
    assert!(a.le(&b) && a.le(&a.clone()));
    assert!(b.lt(&d), "numeric identifiers compare by value");
    assert!(d.lt(&c), "a release outranks its pre-releases");
    assert!(!Version::parse("1.2").is_some());
    assert!(!Version::parse("1.2.3-rc..1").is_some());
    assert_eq!(Version::parse("1.20.3-rc.1+build5").unwrap().to_text(), "1.20.3-rc.1+build5");
    assert_eq!(Version::new(1, 0, 0).to_text(), "1.0.0");
    assert!(a.same_as(&Version::parse("0.0.6-rc.4").unwrap()));
}

/// Decimal rendering is canonical.
#[test]
fn decimal_rendering() {
    assert_eq!(fmt_u64(0), "0");
    assert_eq!(fmt_u64(10), "10");
    assert_eq!(fmt_u64(90710), "90710");
}

/// Paths and document keys follow the canonical conventions.
#[test]
fn canonical_paths_and_keys() {
    let id = CrateId::new("demo_pkg".to_string(), Version::new(1, 2, 3));
    assert_eq!(id.path(), "demo_pkg/1.2.3");
    assert_eq!(id.into_doc_id().as_str(), "registry/demo_pkg/1.2.3");
    let sid = SceneId::new(id, "main-scene".to_string());
    assert_eq!(sid.path(), "demo_pkg/1.2.3/main-scene");
    assert_eq!(sid.into_doc_id().as_str(), "registry/demo_pkg/main-scene/1.2.3");
    let sid2 = SceneId::with_crate_name(
        "demo_pkg".to_string(),
        Version::new(1, 2, 3),
        "main-scene".to_string(),
    );
    assert!(sid2.same_as(&SceneId::from_parts(
        "demo_pkg".to_string(),
        "main-scene".to_string(),
        Version::new(1, 2, 3),
    )));
    assert_eq!(
        unpkg_path(sid2.crate_id(), "scenes/main-scene.json"),
        "unpkg/demo_pkg/1.2.3/scenes/main-scene.json"
    );
}

/// An inline JSON reference round-trips its string exactly, and explicit
/// paths classify by extension.
#[test]
fn scene_file_resolution() {
    let raw = "{ \"a\":  [1,2 ,3] }";
    let mut s = plain_scene("inline");
    s.scene_json = Some(raw.to_string());
    match SceneFile::from_manifest(&s).unwrap() {
        SceneFile::InlineJson { json } => assert_eq!(json, raw),
        _ => panic!("inline JSON must win"),
    }

    let mut s = plain_scene("pathy");
    s.path = Some("art/my.scene.ron".to_string());
    match SceneFile::from_manifest(&s).unwrap() {
        SceneFile::Ron { path } => assert_eq!(path, "art/my.scene.ron"),
        _ => panic!("expected a RON reference"),
    }

    let mut s = plain_scene("odd");
    s.path = Some("scene.gltf".to_string());
    assert!(SceneFile::from_manifest(&s).unwrap_err().is_input());

    let s = plain_scene("defaulted");
    match SceneFile::from_manifest(&s).unwrap() {
        SceneFile::Json { path } => assert_eq!(path, "scenes/defaulted.json"),
        _ => panic!("expected the conventional path"),
    }
}

/// The lockfile pins a dependency to an exact version; a missing entry is
/// an unresolved dependency.
#[test]
fn lockfile_pins() {
    let lock = CargoLock {
        version: 3,
        package: vec![CargoLockPackage {
            checksum: None,
            source: None,
            dependencies: None,
            name: "dep_pkg".to_string(),
            version: "1.2.0".to_string(),
        }],
    };
    let id = lock.crate_id("dep_pkg").unwrap();
    assert_eq!(id.path(), "dep_pkg/1.2.0");
    assert!(lock.crate_id("missing_pkg").unwrap_err().is_not_found());
}

/// The throttle gate: the first fetch proceeds immediately; a later one
/// waits out the remainder of the one-second window.
#[test]
fn throttle_windows() {
    let mut gate = Throttle::new();
    assert_eq!(gate.wait_ms(5000), 0, "the first request proceeds immediately");
    gate.record(5000);
    assert_eq!(gate.wait_ms(5000), 1000);
    assert_eq!(gate.wait_ms(5400), 600);
    assert_eq!(gate.wait_ms(6000), 0);
    assert_eq!(gate.wait_ms(9999), 0);
    gate.record(6000);
    assert_eq!(gate.wait_ms(6500), 500);
}

/// A missing thumbnail falls back to one of the fixed filler texts.
#[test]
fn thumbnail_filler() {
    let mut s = ManifestScene {
        name: "t".to_string(),
        description: None,
        thumb_url: None,
        thumb_text: None,
        path: None,
        scene_json: None,
        includes: Vec::new(),
        app: None,
        replication: None,
    };
    match SceneThumb::from_manifest(&s) {
        SceneThumb::Text { text } => {
            let fillers = [
                "\u{1F308}", "\u{1F31F}", "\u{1F389}", "\u{1F3A8}", "\u{1F680}", "\u{1F30C}",
                "\u{1F31E}", "\u{1F30A}", "\u{1F338}", "\u{1F33B}",
            ];
            assert!(fillers.contains(&text.as_str()));
        }
        SceneThumb::Url { .. } => panic!("no url was declared"),
    }
    s.thumb_url = Some("https://example.test/t.png".to_string());
    match SceneThumb::from_manifest(&s) {
        SceneThumb::Url { url } => assert_eq!(url, "https://example.test/t.png"),
        _ => panic!("the url wins"),
    }
}

/// The status line renders its two numbers exactly.
#[test]
fn stats_line() {
    assert_eq!(
        bevyhub_api::uptime::stats_text(90710, 3),
        "Uptime: 90710 seconds, Requests: 3"
    );
}

/// A repeated replication event name is kept once.
#[test]
fn replication_events_dedup() {
    let config = ReplicationConfig::from_manifest(&Some(ManifestReplicationConfig {
        send_events: vec!["a".to_string(), "b".to_string(), "a".to_string()],
        recv_events: Vec::new(),
    }));
    let (send, recv) = config.event_lists();
    assert_eq!(send.len(), 2);
    assert_eq!(send[0].0, "a");
    assert_eq!(send[1].0, "b");
    assert_eq!(send[0].1, Some(true));
    assert!(recv.is_empty());
}
