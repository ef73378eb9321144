//! The materializer, the resolver and the latest-flag reconciler.

use bevyhub_api::crate_id::CrateId;
use bevyhub_api::error::ApiError;
use bevyhub_api::include_tree::SceneFile;
use bevyhub_api::manifest::{
    CargoLock, CargoLockPackage, Manifest, ManifestApp, ManifestDependency, ManifestMetadata,
    ManifestPackage, ManifestScene, MaybeLocal,
};
use bevyhub_api::registry::CrateIndexVersion;
use bevyhub_api::scene_doc::SceneThumb;
use bevyhub_api::scene_id::SceneId;
use bevyhub_api::services::Services;
use bevyhub_api::value::Value;
use bevyhub_api::version::Version;
use std::io::Write;

fn plain_scene(name: &str) -> ManifestScene {
    ManifestScene {
        name: name.to_string(),
        description: None,
        thumb_url: None,
        thumb_text: Some("x".to_string()),
        path: None,
        scene_json: None,
        includes: Vec::new(),
        app: None,
        replication: None,
    }
}

fn package(name: &str, version: &str, scenes: Vec<ManifestScene>) -> Manifest {
    Manifest {
        package: Some(ManifestPackage {
            name: name.to_string(),
            version: Some(MaybeLocal::Local(version.to_string())),
            readme: None,
            description: Some(MaybeLocal::Local("A demo package".to_string())),
            repository: None,
            keywords: None,
            authors: None,
            metadata: Some(ManifestMetadata { scene: scenes }),
        }),
    }
}

fn empty_lock() -> CargoLock {
    CargoLock { version: 3, package: Vec::new() }
}

fn lock_with(name: &str, version: &str) -> CargoLock {
    CargoLock {
        version: 3,
        package: vec![CargoLockPackage {
            checksum: None,
            source: None,
            dependencies: None,
            name: name.to_string(),
            version: version.to_string(),
        }],
    }
}

fn index_entry(name: &str, vers: &str, yanked: bool) -> CrateIndexVersion {
    CrateIndexVersion {
        name: name.to_string(),
        yanked,
        vers: vers.to_string(),
        deps: Vec::new(),
        cksum: String::new(),
    }
}

/// A gzip-compressed tar archive wrapping files under `{name}-{version}/`.
fn gz_tarball(root: &str, files: &[(&str, &[u8])]) -> Vec<u8> {
    let mut builder = tar::Builder::new(Vec::new());
    for (path, data) in files {
        let mut header = tar::Header::new_gnu();
        header.set_size(data.len() as u64);
        header.set_mode(0o644);
        header.set_cksum();
        builder
            .append_data(&mut header, format!("{}/{}", root, path), *data)
            .unwrap();
    }
    let tarbytes = builder.into_inner().unwrap();
    let mut encoder = flate2::write::GzEncoder::new(Vec::new(), flate2::Compression::default());
    encoder.write_all(&tarbytes).unwrap();
    encoder.finish().unwrap()
}

fn template_scenes() -> Vec<ManifestScene> {
    let mut my_base_scene = plain_scene("my-base-scene");
    my_base_scene.description = Some("The Base Scene".to_string());
    let mut my_beautiful_scene = plain_scene("my-beautiful-scene");
    my_beautiful_scene.includes =
        vec![ManifestDependency::Implicit("my-base-scene".to_string())];
    my_beautiful_scene.app = Some(ManifestApp::Implicit("hello-world".to_string()));
    vec![hello_world_with_app(), my_base_scene, my_beautiful_scene]
}

fn hello_world_with_app() -> ManifestScene {
    let mut s = plain_scene("hello-world");
    s.app = Some(ManifestApp::Wasm {
        js_url: "https://example.test/main.js".to_string(),
        wasm_url: "https://example.test/main_bg.wasm".to_string(),
        replication_registry_url: None,
        type_registry_url: None,
        canvas_id: None,
    });
    s
}

fn materialize(services: &mut Services, name: &str, version: &str, scenes: Vec<ManifestScene>) {
    services
        .unpack_crate_to_db(&package(name, version, scenes), &empty_lock(), 1000)
        .unwrap();
}

/// Materializing the same package twice leaves identical blob store
/// contents and issues no second tarball fetch.
#[test]
fn materialize_is_idempotent() {
    let mut services = Services::init();
    let id = CrateId::new("demo_pkg".to_string(), Version::new(0, 0, 1));
    let gz = gz_tarball(
        "demo_pkg-0.0.1",
        &[
            ("Cargo.toml", b"[package]\nname = \"demo_pkg\"\n"),
            ("Cargo.lock", b"version = 3\n"),
            ("scenes/main.json", b"{}"),
        ],
    );
    services.registry.add_tarball(&id, gz);
    assert!(services.needs_unpack(&id));

    services.unpack_cargo_if_needed(&id).unwrap();
    assert!(!services.needs_unpack(&id));
    assert_eq!(services.fetches, 1);
    let listed: Vec<String> = services
        .storage
        .list("unpkg/")
        .into_iter()
        .map(|o| o.name)
        .collect();
    assert_eq!(listed.len(), 3);
    assert!(listed.contains(&"unpkg/demo_pkg/0.0.1/Cargo.toml".to_string()));

    services.unpack_cargo_if_needed(&id).unwrap();
    assert_eq!(services.fetches, 1, "the second pass must not fetch");
    let listed_again: Vec<String> = services
        .storage
        .list("unpkg/")
        .into_iter()
        .map(|o| o.name)
        .collect();
    assert_eq!(listed, listed_again);
    assert_eq!(
        services.storage.get("unpkg/demo_pkg/0.0.1/scenes/main.json").unwrap(),
        &b"{}".to_vec()
    );
}

/// An archive that is not a gzip-compressed tar archive is malformed input;
/// an absent tarball is a not-found outcome.
#[test]
fn unpack_error_outcomes() {
    let mut services = Services::init();
    let id = CrateId::new("demo_pkg".to_string(), Version::new(0, 0, 1));
    assert!(matches!(
        services.unpack_tarball(&id).unwrap_err(),
        ApiError::NotFound(_)
    ));
    services.registry.add_tarball(&id, b"not an archive".to_vec());
    assert!(services.unpack_tarball(&id).unwrap_err().is_input());
}

/// A tarball's files all land under the canonical unpacked path.
#[test]
fn unpack_tarball_tarball() {
    let mut services = Services::init();
    let id = CrateId::new("bevyhub_template".to_string(), Version::new(0, 0, 1));
    let mut files: Vec<(String, Vec<u8>)> = vec![("Cargo.toml".to_string(), b"x".to_vec())];
    for i in 0..12u32 {
        files.push((format!("src/file{}.rs", i), b"fn x() {}".to_vec()));
    }
    let borrowed: Vec<(&str, &[u8])> = files
        .iter()
        .map(|(p, d)| (p.as_str(), d.as_slice()))
        .collect();
    let gz = gz_tarball("bevyhub_template-0.0.1", &borrowed);
    services.registry.add_tarball(&id, gz);
    services.unpack_tarball(&id).unwrap();
    assert!(services.storage.list("unpkg/bevyhub_template/0.0.1/").len() > 10);
}

/// After materialization the store holds exactly one scene document per
/// declared scene, all of the materialized package.
#[test]
fn scene_documents_per_package() {
    let mut services = Services::init();
    services
        .registry
        .add_index_entry(index_entry("bevyhub_template", "0.0.1", false));
    let (doc, scenes) = services
        .unpack_crate_to_db(
            &package("bevyhub_template", "0.0.1", template_scenes()),
            &empty_lock(),
            1000,
        )
        .unwrap();
    assert_eq!(scenes.len(), 3);
    assert_eq!(doc.crate_id().path(), "bevyhub_template/0.0.1");
    let stored = services.all_scene_docs(doc.crate_id()).unwrap();
    assert_eq!(stored.len(), 3);
    for s in &stored {
        assert!(s.scene_id.crate_id.same_as(doc.crate_id()));
    }
}

/// The include tree keeps the declared references in order, one child per
/// reference, each matching the resolved identity.
#[test]
fn scene_include_tree_works() {
    let mut services = Services::init();
    services
        .registry
        .add_index_entry(index_entry("bevyhub_template", "0.0.1", false));
    let mut root = plain_scene("my-beautiful-scene");
    root.includes = vec![
        ManifestDependency::Implicit("scene-a".to_string()),
        ManifestDependency::Implicit("scene-b".to_string()),
    ];
    let scenes = vec![plain_scene("scene-a"), plain_scene("scene-b"), root];
    materialize(&mut services, "bevyhub_template", "0.0.1", scenes);

    let sid = SceneId::with_crate_name(
        "bevyhub_template".to_string(),
        Version::new(0, 0, 1),
        "my-beautiful-scene".to_string(),
    );
    let scene = services.scene_doc(&sid).unwrap();
    let tree = &scene.scene_include_tree;
    assert_eq!(tree.children.len(), 2);
    assert!(tree.scene_id.same_as(&sid));
    assert_eq!(tree.children[0].scene_id.scene_name(), "scene-a");
    assert_eq!(tree.children[1].scene_id.scene_name(), "scene-b");
    match &tree.file {
        SceneFile::Json { path } => assert_eq!(path, "scenes/my-beautiful-scene.json"),
        _ => panic!("expected the conventional path"),
    }
}

/// A cross-package reference resolves to exactly the version pinned in the
/// lockfile, splicing the persisted subtree verbatim — never the latest.
#[test]
fn cross_package_resolution_pins() {
    let mut services = Services::init();
    services.registry.add_index_entry(index_entry("pkg_a", "1.2.0", false));
    services.registry.add_index_entry(index_entry("pkg_a", "2.0.0", false));
    services.registry.add_index_entry(index_entry("pkg_b", "0.1.0", false));

    let scene_x = || {
        let mut s = plain_scene("scene-x");
        s.includes = vec![ManifestDependency::Implicit("inner".to_string())];
        s
    };
    materialize(&mut services, "pkg_a", "1.2.0", vec![plain_scene("inner"), scene_x()]);
    materialize(&mut services, "pkg_a", "2.0.0", vec![plain_scene("inner"), scene_x()]);

    let mut b_scene = plain_scene("b-scene");
    b_scene.includes = vec![ManifestDependency::Implicit("pkg_a/scene-x".to_string())];
    services
        .unpack_crate_to_db(
            &package("pkg_b", "0.1.0", vec![b_scene]),
            &lock_with("pkg_a", "1.2.0"),
            1000,
        )
        .unwrap();

    let sid = SceneId::with_crate_name(
        "pkg_b".to_string(),
        Version::new(0, 1, 0),
        "b-scene".to_string(),
    );
    let scene = services.scene_doc(&sid).unwrap();
    let child = &scene.scene_include_tree.children[0];
    assert_eq!(child.scene_id.crate_name(), "pkg_a");
    assert_eq!(child.scene_id.version().to_text(), "1.2.0");
    assert_eq!(child.children.len(), 1, "the pinned subtree is spliced in verbatim");

    // an unresolved dependency aborts the materialization
    let mut bad = plain_scene("bad-scene");
    bad.includes = vec![ManifestDependency::Implicit("pkg_a/scene-x".to_string())];
    let err = services
        .unpack_crate_to_db(&package("pkg_b", "0.2.0", vec![bad]), &empty_lock(), 1000)
        .unwrap_err();
    assert!(err.is_not_found());
}

/// A dependency package that was never materialized surfaces as a
/// missing-crate outcome carrying its identity.
#[test]
fn missing_dependency_is_reported() {
    let mut services = Services::init();
    services.registry.add_index_entry(index_entry("pkg_b", "0.1.0", false));
    let mut b_scene = plain_scene("b-scene");
    b_scene.includes = vec![ManifestDependency::Implicit("pkg_a/scene-x".to_string())];
    let err = services
        .unpack_crate_to_db(
            &package("pkg_b", "0.1.0", vec![b_scene]),
            &lock_with("pkg_a", "1.2.0"),
            1000,
        )
        .unwrap_err();
    match err {
        ApiError::MissingCrate(c) => assert_eq!(c.path(), "pkg_a/1.2.0"),
        _ => panic!("expected a missing-crate outcome"),
    }
}

/// A scene that references itself transitively is rejected as malformed
/// input rather than recursing unboundedly.
#[test]
fn reference_cycle_is_rejected() {
    let mut services = Services::init();
    services.registry.add_index_entry(index_entry("pkg_c", "0.1.0", false));
    let mut a = plain_scene("a");
    a.includes = vec![ManifestDependency::Implicit("b".to_string())];
    let mut b = plain_scene("b");
    b.includes = vec![ManifestDependency::Implicit("a".to_string())];
    let err = services
        .unpack_crate_to_db(&package("pkg_c", "0.1.0", vec![a, b]), &empty_lock(), 1000)
        .unwrap_err();
    assert!(err.is_input());
}

/// After materializing two versions of one package name, exactly the
/// newest version's scenes carry the latest flag.
#[test]
fn correctly_sets_latest() {
    let mut services = Services::init();
    services
        .registry
        .add_index_entry(index_entry("bevyhub_template", "0.0.6-rc.5", false));
    services
        .registry
        .add_index_entry(index_entry("bevyhub_template", "0.0.6-rc.4", false));

    assert_eq!(services.db.scenes.doc_count(), 0);

    materialize(&mut services, "bevyhub_template", "0.0.6-rc.5", template_scenes());
    assert_eq!(services.db.scenes.doc_count(), 3);

    materialize(&mut services, "bevyhub_template", "0.0.6-rc.4", template_scenes());
    assert_eq!(services.db.scenes.doc_count(), 6);

    let filter = Value::Obj(vec![("is_latest".to_string(), Value::Bool(true))]);
    let latest = services.get_scenes(&filter);
    assert_eq!(latest.len(), 3);
    for s in &latest {
        assert_eq!(s.scene_id.version().to_text(), "0.0.6-rc.5");
    }
}

/// The reconciler's sweep answers positively for the materialized scenes.
#[test]
fn set_latest_scenes_in_db_works() {
    let mut services = Services::init();
    services
        .registry
        .add_index_entry(index_entry("bevyhub_template", "0.0.1", false));
    materialize(&mut services, "bevyhub_template", "0.0.1", template_scenes());
    let filter = Value::Obj(vec![("is_latest".to_string(), Value::Bool(true))]);
    assert!(services.get_scenes(&filter).len() > 1);
}

/// The resolver's defaults: description falls back to the package's, then
/// to generated text, and a missing thumbnail gets filler text.
#[test]
fn scene_document_defaults() {
    let mut services = Services::init();
    services.registry.add_index_entry(index_entry("pkg_d", "0.1.0", false));
    let mut quiet = plain_scene("quiet");
    quiet.thumb_text = None;
    let (_, scenes) = services
        .unpack_crate_to_db(&package("pkg_d", "0.1.0", vec![quiet]), &empty_lock(), 77)
        .unwrap();
    assert_eq!(scenes[0].description, "A demo package");
    assert_eq!(scenes[0].created_ms, 77);
    match &scenes[0].thumbnail {
        SceneThumb::Text { text } => assert!(!text.is_empty()),
        SceneThumb::Url { .. } => panic!("no url was declared"),
    }

    let mut bare = Manifest {
        package: Some(ManifestPackage {
            name: "pkg_e".to_string(),
            version: Some(MaybeLocal::Local("0.1.0".to_string())),
            readme: None,
            description: None,
            repository: None,
            keywords: None,
            authors: None,
            metadata: Some(ManifestMetadata { scene: vec![plain_scene("solo")] }),
        }),
    };
    services.registry.add_index_entry(index_entry("pkg_e", "0.1.0", false));
    let (_, scenes) = services.unpack_crate_to_db(&bare, &empty_lock(), 1).unwrap();
    assert_eq!(scenes[0].description, "The solo scene");
    bare.package = None;
    assert!(services.unpack_crate_to_db(&bare, &empty_lock(), 1).unwrap_err().is_input());
}

/// A manifest whose version is only workspace-inherited is rejected and no
/// partial documents are written.
#[test]
fn workspace_version_is_rejected() {
    let mut services = Services::init();
    let manifest = Manifest {
        package: Some(ManifestPackage {
            name: "pkg_w".to_string(),
            version: Some(MaybeLocal::Workspace),
            readme: None,
            description: None,
            repository: None,
            keywords: None,
            authors: None,
            metadata: None,
        }),
    };
    assert!(services
        .unpack_crate_to_db(&manifest, &empty_lock(), 1)
        .unwrap_err()
        .is_input());
    assert_eq!(services.db.crates.doc_count(), 0);
}

/// Registry listing: non-yanked versions come back sorted ascending, and
/// the newest resolves as latest.
#[test]
fn registry_versions_sorted() {
    let mut services = Services::init();
    services.registry.add_index_entry(index_entry("pkg_v", "0.2.0", false));
    services.registry.add_index_entry(index_entry("pkg_v", "0.0.1-rc.1", false));
    services.registry.add_index_entry(index_entry("pkg_v", "0.1.0", true));
    services.registry.add_index_entry(index_entry("pkg_v", "0.0.9", false));

    let versions = services.registry.versions("pkg_v").unwrap();
    let texts: Vec<String> = versions.iter().map(|v| v.to_text()).collect();
    assert_eq!(texts, vec!["0.0.1-rc.1", "0.0.9", "0.2.0"]);
    assert_eq!(
        services.registry.latest_version("pkg_v").unwrap().to_text(),
        "0.2.0"
    );
    assert_eq!(
        services
            .registry
            .version_or_latest("pkg_v", "latest")
            .unwrap()
            .to_text(),
        "0.2.0"
    );
    assert_eq!(
        services
            .registry
            .version_or_latest("pkg_v", "0.0.9")
            .unwrap()
            .to_text(),
        "0.0.9"
    );
    assert!(services.registry.versions("absent_pkg").unwrap_err().is_not_found());
}

/// Package and scene lookups surface the distinct not-found outcomes.
#[test]
fn lookup_outcomes() {
    let mut services = Services::init();
    services.registry.add_index_entry(index_entry("pkg_f", "0.1.0", false));
    materialize(&mut services, "pkg_f", "0.1.0", vec![plain_scene("only")]);

    let id = CrateId::new("pkg_f".to_string(), Version::new(0, 1, 0));
    assert!(services.crate_doc(&id).is_ok());
    let other = CrateId::new("pkg_g".to_string(), Version::new(0, 1, 0));
    assert!(matches!(
        services.crate_doc(&other).unwrap_err(),
        ApiError::MissingCrate(_)
    ));

    let present = SceneId::new(id.clone(), "only".to_string());
    assert!(services.scene_doc(&present).is_ok());
    let absent_scene = SceneId::new(id, "nope".to_string());
    assert!(services.scene_doc(&absent_scene).unwrap_err().is_not_found());
    let absent_crate = SceneId::new(other, "nope".to_string());
    assert!(matches!(
        services.scene_doc(&absent_crate).unwrap_err(),
        ApiError::MissingCrate(_)
    ));
}

/// The driver decision: only a missing-crate outcome names a dependency
/// package to materialize first; other errors end the attempt.
#[test]
fn retry_decision() {
    let missing =
        ApiError::MissingCrate(CrateId::new("pkg_x".to_string(), Version::new(1, 0, 0)));
    assert_eq!(missing.retry_dependency().unwrap().path(), "pkg_x/1.0.0");
    assert!(ApiError::Input("x".to_string()).retry_dependency().is_none());
    assert!(ApiError::NotFound("x".to_string()).retry_dependency().is_none());
}
