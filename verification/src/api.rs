//! The scene resolver: from a structured manifest and lockfile to
//! persisted package and scene documents.
//!
//! Same-package references recurse locally through the manifest; a
//! cross-package reference is pinned by the lockfile and spliced in
//! verbatim from the dependency's already-persisted scene document.  A
//! dependency package that is not materialized yet surfaces as a
//! `MissingCrate` error carrying its identity: the caller materializes
//! that package and retries.  A resolution path longer than the number of
//! declared scenes must repeat one, which is a reference cycle: rejected
//! as malformed input.

use crate::crate_doc::{CrateDoc, CrateDocView};
use crate::crate_id::{CrateId, CrateIdView, crate_doc_key};
use crate::doc_id::HasDocId;
use crate::error::ApiError;
use crate::include_tree::{IncludeTreeView, SceneFile, SceneIncludeTree, scene_file_spec};
use crate::manifest::{
    CargoLock,
    Manifest,
    ManifestApp,
    ManifestDependency,
    ManifestMetadata,
    ManifestPackage,
    ManifestScene,
    MaybeLocal,
    app_dependency,
    lock_entry,
    resolved_ref,
    scene_lookup,
    split_implicit_spec,
};
use crate::memory_collection::key_lookup;
use crate::replication::ReplicationConfig;
use crate::scene_app::{BevyBinary, BevyBinaryView, SceneApp, SceneAppView};
use crate::scene_doc::{SceneDoc, SceneDocView, SceneThumb};
use crate::scene_id::{SceneId, SceneIdView, scene_doc_key};
use crate::services::Services;
use crate::text::opt_chars;
use crate::value::Value;
use crate::version::{VersionView, parse_version_view};
use vstd::prelude::*;

verus! {

/// How a resolution ends: the resolved value, or one of the failure
/// classes of the error taxonomy — malformed input, a missing referenced
/// entity, or a dependency package that must be materialized first.
pub enum Resolved<T> {
    Done(T),
    Malformed,
    Absent,
    Unmaterialized(CrateIdView),
}

/// The same failure, carried into another resolution's answer.
pub open spec fn carry_failure<T, U>(r: Resolved<T>) -> Resolved<U> {
    match r {
        Resolved::Done(_) => arbitrary(),
        Resolved::Malformed => Resolved::Malformed,
        Resolved::Absent => Resolved::Absent,
        Resolved::Unmaterialized(c) => Resolved::Unmaterialized(c),
    }
}

/// The error an ended resolution surfaces: malformed input is an input
/// error, a missing referenced entity a not-found error, and an
/// unmaterialized dependency names the package to materialize.
pub open spec fn fails_as<T>(r: Resolved<T>, e: ApiError) -> bool {
    match r {
        Resolved::Done(_) => false,
        Resolved::Malformed => e is Input,
        Resolved::Absent => e is NotFound,
        Resolved::Unmaterialized(c) => e matches ApiError::MissingCrate(mc) && mc@ == c,
    }
}

/// The pinned identity a cross-package reference resolves to: the first
/// lockfile entry of the package's name, with its version parsed.
pub open spec fn pinned_crate(lock: CargoLock, name: Seq<char>) -> Option<CrateIdView> {
    match lock_entry(lock.package@, name) {
        None => None,
        Some(entry) => match parse_version_view(entry.version@) {
            None => None,
            Some(vv) => Some(CrateIdView { name, version: vv }),
        },
    }
}

/// What one reference resolves to in the include tree, or how it fails: a
/// malformed bare string and an unparsable pinned version are input
/// errors, a missing sibling declaration or lockfile entry is not found,
/// and a cross-package scene is read from the persisted documents — absent
/// there, the dependency package is either persisted without the scene
/// (not found) or must be materialized first.
pub open spec fn resolve_dep_spec(
    scenes: Seq<SceneDoc>,
    crates: Seq<CrateDoc>,
    lock: CargoLock,
    cid: CrateIdView,
    md: ManifestMetadata,
    dep: ManifestDependency,
    fuel: nat,
) -> Resolved<IncludeTreeView>
    decreases fuel, 0nat, 0nat,
{
    match resolved_ref(cid.name, dep) {
        None => Resolved::Malformed,
        Some((dep_crate, dep_scene)) => {
            if dep_crate == cid.name {
                match scene_lookup(md.scene@, dep_scene) {
                    None => Resolved::Absent,
                    Some(sibling) => {
                        if fuel == 0 {
                            Resolved::Malformed
                        } else {
                            resolve_tree_spec(
                                scenes,
                                crates,
                                lock,
                                cid,
                                md,
                                sibling,
                                (fuel - 1) as nat,
                            )
                        }
                    },
                }
            } else {
                match lock_entry(lock.package@, dep_crate) {
                    None => Resolved::Absent,
                    Some(entry) => match parse_version_view(entry.version@) {
                        None => Resolved::Malformed,
                        Some(vv) => {
                            let ext = CrateIdView { name: dep_crate, version: vv };
                            let sid = SceneIdView { crate_id: ext, scene_name: dep_scene };
                            match key_lookup(scenes, scene_doc_key(sid)) {
                                None => {
                                    if key_lookup(crates, crate_doc_key(ext)) is Some {
                                        Resolved::Absent
                                    } else {
                                        Resolved::Unmaterialized(ext)
                                    }
                                },
                                Some(doc) => Resolved::Done(doc@.tree),
                            }
                        },
                    },
                }
            }
        },
    }
}

/// What a reference list resolves to, in declaration order; the first
/// failing reference's failure ends the list.
pub open spec fn resolve_deps_spec(
    scenes: Seq<SceneDoc>,
    crates: Seq<CrateDoc>,
    lock: CargoLock,
    cid: CrateIdView,
    md: ManifestMetadata,
    deps: Seq<ManifestDependency>,
    fuel: nat,
) -> Resolved<Seq<IncludeTreeView>>
    decreases fuel, 1nat, deps.len(),
{
    if deps.len() == 0 {
        Resolved::Done(Seq::empty())
    } else {
        match resolve_dep_spec(scenes, crates, lock, cid, md, deps[0], fuel) {
            Resolved::Done(child) => match resolve_deps_spec(
                scenes,
                crates,
                lock,
                cid,
                md,
                deps.skip(1),
                fuel,
            ) {
                Resolved::Done(rest) => Resolved::Done(seq![child] + rest),
                failure => failure,
            },
            failure => carry_failure(failure),
        }
    }
}

/// What a scene declaration's include tree resolves to: its own file and
/// identity, and one child per reference of its dependency set (the app's
/// reference first, then the declared list).  An unrecognized file
/// extension is an input error.
pub open spec fn resolve_tree_spec(
    scenes: Seq<SceneDoc>,
    crates: Seq<CrateDoc>,
    lock: CargoLock,
    cid: CrateIdView,
    md: ManifestMetadata,
    scene: ManifestScene,
    fuel: nat,
) -> Resolved<IncludeTreeView>
    decreases fuel, 2nat, 0nat,
{
    match scene_file_spec(scene) {
        None => Resolved::Malformed,
        Some(file) => {
            let deps = app_dependency(scene.app) + scene.includes@;
            match resolve_deps_spec(scenes, crates, lock, cid, md, deps, fuel) {
                Resolved::Done(children) => Resolved::Done(
                    IncludeTreeView {
                        file,
                        scene_id: SceneIdView { crate_id: cid, scene_name: scene.name@ },
                        children,
                    },
                ),
                failure => carry_failure(failure),
            }
        },
    }
}

/// The pair a referencing app resolves to; a terminal app is no reference.
pub open spec fn resolved_app_ref(default_crate: Seq<char>, app: ManifestApp) -> Option<
    (Seq<char>, Seq<char>),
> {
    match app {
        ManifestApp::Implicit(value) => split_implicit_spec(default_crate, value@),
        ManifestApp::Explicit { crate_name, scene_name } => Some((crate_name@, scene_name@)),
        ManifestApp::Wasm { .. } => None,
    }
}

/// What a scene's app declaration resolves to.  A terminal web-runnable
/// declaration is taken as it stands; a reference is chased to the
/// referenced scene's app — locally for a sibling, through the pinned,
/// already-persisted document for another package — and a referenced
/// scene that declares no app is a not-found failure ("app not found").
pub open spec fn resolve_app_spec(
    scenes: Seq<SceneDoc>,
    crates: Seq<CrateDoc>,
    lock: CargoLock,
    cid: CrateIdView,
    md: ManifestMetadata,
    scene: ManifestScene,
    app: ManifestApp,
    fuel: nat,
) -> Resolved<SceneAppView>
    decreases fuel,
{
    match app {
        ManifestApp::Wasm { js_url, wasm_url, replication_registry_url, type_registry_url, canvas_id } => {
            Resolved::Done(
                SceneAppView {
                    binary: BevyBinaryView::Wasm {
                        scene_id: SceneIdView { crate_id: cid, scene_name: scene.name@ },
                        js_url: js_url@,
                        wasm_url: wasm_url@,
                        canvas_id: opt_chars(canvas_id),
                    },
                    replication_registry_url: opt_chars(replication_registry_url),
                    type_registry_url: opt_chars(type_registry_url),
                },
            )
        },
        _ => {
            match resolved_app_ref(cid.name, app) {
                None => Resolved::Malformed,
                Some((dep_crate, dep_scene)) => {
                    if dep_crate == cid.name {
                        match scene_lookup(md.scene@, dep_scene) {
                            None => Resolved::Absent,
                            Some(sibling) => match sibling.app {
                                None => Resolved::Absent,
                                Some(sibling_app) => {
                                    if fuel == 0 {
                                        Resolved::Malformed
                                    } else {
                                        resolve_app_spec(
                                            scenes,
                                            crates,
                                            lock,
                                            cid,
                                            md,
                                            sibling,
                                            sibling_app,
                                            (fuel - 1) as nat,
                                        )
                                    }
                                },
                            },
                        }
                    } else {
                        match lock_entry(lock.package@, dep_crate) {
                            None => Resolved::Absent,
                            Some(entry) => match parse_version_view(entry.version@) {
                                None => Resolved::Malformed,
                                Some(vv) => {
                                    let ext = CrateIdView { name: dep_crate, version: vv };
                                    let sid = SceneIdView {
                                        crate_id: ext,
                                        scene_name: dep_scene,
                                    };
                                    match key_lookup(scenes, scene_doc_key(sid)) {
                                        None => {
                                            if key_lookup(crates, crate_doc_key(ext)) is Some {
                                                Resolved::Absent
                                            } else {
                                                Resolved::Unmaterialized(ext)
                                            }
                                        },
                                        Some(doc) => match doc@.app {
                                            Some(a) => Resolved::Done(a),
                                            None => Resolved::Absent,
                                        },
                                    }
                                },
                            },
                        }
                    }
                },
            }
        },
    }
}

impl SceneIncludeTree {
    /// Resolve a scene declaration's include tree against the persisted
    /// documents.  The answer and the failure class are exactly what the
    /// resolution rule yields: an error of the class the rule assigns —
    /// malformed input, a missing referenced entity, or the dependency
    /// package to materialize first.
    pub fn from_manifest(
        api: &Services,
        cargo_lock: &CargoLock,
        manifest_crate_id: &CrateId,
        manifest_metadata: &ManifestMetadata,
        manifest_scene: &ManifestScene,
        fuel: usize,
    ) -> (r: Result<Self, ApiError>)
        ensures
            match r {
                Ok(t) => resolve_tree_spec(
                    api.db.scenes@,
                    api.db.crates@,
                    *cargo_lock,
                    manifest_crate_id@,
                    *manifest_metadata,
                    *manifest_scene,
                    fuel as nat,
                ) == Resolved::Done(t@),
                Err(e) => fails_as(resolve_tree_spec(
                    api.db.scenes@,
                    api.db.crates@,
                    *cargo_lock,
                    manifest_crate_id@,
                    *manifest_metadata,
                    *manifest_scene,
                    fuel as nat,
                ), e),
            },
        decreases fuel, 2nat, 0nat,
    {
        let scene_file = SceneFile::from_manifest(manifest_scene)?;
        let deps = manifest_scene.get_includes();
        let children = match Self::build_dependencies(
            api,
            cargo_lock,
            manifest_crate_id,
            manifest_metadata,
            &deps,
            fuel,
        ) {
            Ok(children) => children,
            Err(e) => {
                proof {
                    lemma_fails_carry::<Seq<IncludeTreeView>, IncludeTreeView>(
                        resolve_deps_spec(
                            api.db.scenes@,
                            api.db.crates@,
                            *cargo_lock,
                            manifest_crate_id@,
                            *manifest_metadata,
                            deps@,
                            fuel as nat,
                        ),
                        e,
                    );
                }
                return Err(e);
            },
        };
        let id = SceneId::new(manifest_crate_id.clone(), manifest_scene.name.clone());
        let ghost cvs = children@;
        let t = SceneIncludeTree::new(id, scene_file, children);
        proof {
            assert(t@.children =~= cvs.map_values(|c: SceneIncludeTree| c@));
            assert(resolve_tree_spec(
                api.db.scenes@,
                api.db.crates@,
                *cargo_lock,
                manifest_crate_id@,
                *manifest_metadata,
                *manifest_scene,
                fuel as nat,
            ) == Resolved::Done(t@));
        }
        Ok(t)
    }

    /// Resolve a reference list, in declaration order.
    pub fn build_dependencies(
        api: &Services,
        cargo_lock: &CargoLock,
        manifest_crate_id: &CrateId,
        manifest_metadata: &ManifestMetadata,
        deps: &Vec<ManifestDependency>,
        fuel: usize,
    ) -> (r: Result<Vec<Self>, ApiError>)
        ensures
            match r {
                Ok(ts) => resolve_deps_spec(
                    api.db.scenes@,
                    api.db.crates@,
                    *cargo_lock,
                    manifest_crate_id@,
                    *manifest_metadata,
                    deps@,
                    fuel as nat,
                ) == Resolved::Done(ts@.map_values(|t: SceneIncludeTree| t@)),
                Err(e) => fails_as(resolve_deps_spec(
                    api.db.scenes@,
                    api.db.crates@,
                    *cargo_lock,
                    manifest_crate_id@,
                    *manifest_metadata,
                    deps@,
                    fuel as nat,
                ), e),
            },
        decreases fuel, 1nat, deps@.len(),
    {
        let n = deps.len();
        let mut out: Vec<SceneIncludeTree> = Vec::new();
        let mut i: usize = 0;
        proof {
            assert(deps@.skip(0) =~= deps@);
        }
        while i < n
            invariant
                i <= n,
                n == deps@.len(),
                out@.len() == i,
                forall|j: int| #![auto]
                    0 <= j < i ==> resolve_dep_spec(
                        api.db.scenes@,
                        api.db.crates@,
                        *cargo_lock,
                        manifest_crate_id@,
                        *manifest_metadata,
                        deps@[j],
                        fuel as nat,
                    ) == Resolved::Done(out@[j]@),
            decreases n - i,
        {
            let child = Self::build_dependency(
                api,
                cargo_lock,
                manifest_crate_id,
                manifest_metadata,
                &deps[i],
                fuel,
            );
            match child {
                Ok(c) => {
                    out.push(c);
                },
                Err(e) => {
                    proof {
                        lemma_deps_spec_stops(
                            api.db.scenes@,
                            api.db.crates@,
                            *cargo_lock,
                            manifest_crate_id@,
                            *manifest_metadata,
                            deps@,
                            fuel as nat,
                            i as int,
                        );
                        lemma_fails_carry::<IncludeTreeView, Seq<IncludeTreeView>>(
                            resolve_dep_spec(
                                api.db.scenes@,
                                api.db.crates@,
                                *cargo_lock,
                                manifest_crate_id@,
                                *manifest_metadata,
                                deps@[i as int],
                                fuel as nat,
                            ),
                            e,
                        );
                    }
                    return Err(e);
                },
            }
            i = i + 1;
        }
        proof {
            lemma_deps_spec_all(
                api.db.scenes@,
                api.db.crates@,
                *cargo_lock,
                manifest_crate_id@,
                *manifest_metadata,
                deps@,
                fuel as nat,
                out@.map_values(|t: SceneIncludeTree| t@),
            );
        }
        Ok(out)
    }

    /// Resolve one reference: a sibling recurses locally; another package's
    /// scene is pinned by the lockfile and its already-persisted subtree is
    /// spliced in verbatim, never recomputed.
    pub fn build_dependency(
        api: &Services,
        cargo_lock: &CargoLock,
        manifest_crate_id: &CrateId,
        manifest_metadata: &ManifestMetadata,
        dep: &ManifestDependency,
        fuel: usize,
    ) -> (r: Result<Self, ApiError>)
        ensures
            match r {
                Ok(t) => resolve_dep_spec(
                    api.db.scenes@,
                    api.db.crates@,
                    *cargo_lock,
                    manifest_crate_id@,
                    *manifest_metadata,
                    *dep,
                    fuel as nat,
                ) == Resolved::Done(t@),
                Err(e) => fails_as(resolve_dep_spec(
                    api.db.scenes@,
                    api.db.crates@,
                    *cargo_lock,
                    manifest_crate_id@,
                    *manifest_metadata,
                    *dep,
                    fuel as nat,
                ), e),
            },
        decreases fuel, 0nat, 0nat,
    {
        let (dep_crate, dep_scene) = dep.into_crate_and_scene(manifest_crate_id.name.as_str())?;
        if crate::text::str_eq(dep_crate.as_str(), manifest_crate_id.name.as_str()) {
            let sibling = manifest_metadata.find_scene(dep_scene.as_str())?;
            if fuel == 0 {
                return Err(ApiError::Input(
                    "the scene references form a cycle".to_owned(),
                ));
            }
            Self::from_manifest(
                api,
                cargo_lock,
                manifest_crate_id,
                manifest_metadata,
                sibling,
                fuel - 1,
            )
        } else {
            let external_crate_id = cargo_lock.crate_id(dep_crate.as_str())?;
            let scene_id = SceneId::new(external_crate_id, dep_scene);
            let key = scene_id.into_doc_id();
            match api.db.scenes.get(&key) {
                Some(doc) => {
                    proof {
                        assert(pinned_crate(*cargo_lock, dep_crate@) == Some(
                            scene_id@.crate_id,
                        ));
                    }
                    Ok(doc.include_tree_ref().clone())
                },
                None => {
                    if api.db.crates.has(&scene_id.crate_id.into_doc_id()) {
                        Err(ApiError::NotFound(
                            "the crate exists but the scene was not found".to_owned(),
                        ))
                    } else {
                        Err(ApiError::MissingCrate(scene_id.crate_id))
                    }
                },
            }
        }
    }
}

/// A failure keeps its class when carried into another resolution.
proof fn lemma_fails_carry<T, U>(f: Resolved<T>, e: ApiError)
    requires
        fails_as(f, e),
    ensures
        fails_as(carry_failure::<T, U>(f), e),
{
}

/// A reference list's resolution ends with the first failing reference's
/// failure.
proof fn lemma_deps_spec_stops(
    scenes: Seq<SceneDoc>,
    crates: Seq<CrateDoc>,
    lock: CargoLock,
    cid: CrateIdView,
    md: ManifestMetadata,
    deps: Seq<ManifestDependency>,
    fuel: nat,
    i: int,
)
    requires
        0 <= i < deps.len(),
        forall|j: int|
            0 <= j < i ==> resolve_dep_spec(
                scenes,
                crates,
                lock,
                cid,
                md,
                #[trigger] deps[j],
                fuel,
            ) is Done,
        !(resolve_dep_spec(scenes, crates, lock, cid, md, deps[i], fuel) is Done),
    ensures
        resolve_deps_spec(scenes, crates, lock, cid, md, deps, fuel)
            == carry_failure::<IncludeTreeView, Seq<IncludeTreeView>>(
            resolve_dep_spec(scenes, crates, lock, cid, md, deps[i], fuel),
        ),
    decreases deps.len(),
{
    if deps.len() > 0 {
        if i == 0 {
        } else {
            assert(resolve_dep_spec(scenes, crates, lock, cid, md, deps[0], fuel) is Done);
            assert forall|j: int| 0 <= j < i - 1 implies resolve_dep_spec(
                scenes,
                crates,
                lock,
                cid,
                md,
                #[trigger] deps.skip(1)[j],
                fuel,
            ) is Done by {
                assert(deps.skip(1)[j] == deps[j + 1]);
            }
            assert(deps.skip(1)[i - 1] == deps[i]);
            lemma_deps_spec_stops(scenes, crates, lock, cid, md, deps.skip(1), fuel, i - 1);
        }
    }
}

/// A reference list whose references all resolve resolves to exactly those
/// children.
proof fn lemma_deps_spec_all(
    scenes: Seq<SceneDoc>,
    crates: Seq<CrateDoc>,
    lock: CargoLock,
    cid: CrateIdView,
    md: ManifestMetadata,
    deps: Seq<ManifestDependency>,
    fuel: nat,
    children: Seq<IncludeTreeView>,
)
    requires
        children.len() == deps.len(),
        forall|j: int|
            0 <= j < deps.len() ==> resolve_dep_spec(
                scenes,
                crates,
                lock,
                cid,
                md,
                #[trigger] deps[j],
                fuel,
            ) == Resolved::Done(children[j]),
    ensures
        resolve_deps_spec(scenes, crates, lock, cid, md, deps, fuel) == Resolved::Done(children),
    decreases deps.len(),
{
    if deps.len() == 0 {
        assert(children =~= Seq::<IncludeTreeView>::empty());
    } else {
        assert forall|j: int| 0 <= j < deps.skip(1).len() implies resolve_dep_spec(
            scenes,
            crates,
            lock,
            cid,
            md,
            #[trigger] deps.skip(1)[j],
            fuel,
        ) == Resolved::Done(children.skip(1)[j]) by {
            assert(deps.skip(1)[j] == deps[j + 1]);
            assert(children.skip(1)[j] == children[j + 1]);
        }
        lemma_deps_spec_all(scenes, crates, lock, cid, md, deps.skip(1), fuel, children.skip(1));
        assert(children =~= seq![children[0]] + children.skip(1));
    }
}

impl SceneApp {
    /// Resolve a scene's app declaration against the persisted documents.
    /// The answer and the failure class are exactly what the resolution
    /// rule yields; a referenced scene that declares no app is a not-found
    /// error ("app not found").
    pub fn from_manifest(
        api: &Services,
        cargo_lock: &CargoLock,
        manifest_crate_id: &CrateId,
        manifest_metadata: &ManifestMetadata,
        scene: &ManifestScene,
        app: &ManifestApp,
        fuel: usize,
    ) -> (r: Result<Self, ApiError>)
        ensures
            match r {
                Ok(a) => resolve_app_spec(
                    api.db.scenes@,
                    api.db.crates@,
                    *cargo_lock,
                    manifest_crate_id@,
                    *manifest_metadata,
                    *scene,
                    *app,
                    fuel as nat,
                ) == Resolved::Done(a@),
                Err(e) => fails_as(resolve_app_spec(
                    api.db.scenes@,
                    api.db.crates@,
                    *cargo_lock,
                    manifest_crate_id@,
                    *manifest_metadata,
                    *scene,
                    *app,
                    fuel as nat,
                ), e),
            },
        decreases fuel,
    {
        match app {
            ManifestApp::Wasm { js_url, wasm_url, .. } => Ok(
                SceneApp {
                    binary: BevyBinary::Wasm {
                        scene_id: SceneId::new(manifest_crate_id.clone(), scene.name.clone()),
                        js_url: js_url.clone(),
                        wasm_url: wasm_url.clone(),
                        canvas_id: app.canvas_id(),
                    },
                    replication_registry_url: app.replication_registry_url(),
                    type_registry_url: app.type_registry_url(),
                },
            ),
            _ => {
                let (dep_crate, dep_scene) = app.into_crate_and_scene(
                    manifest_crate_id.name.as_str(),
                )?;
                if crate::text::str_eq(dep_crate.as_str(), manifest_crate_id.name.as_str()) {
                    let sibling = manifest_metadata.find_scene(dep_scene.as_str())?;
                    let sibling_app = match &sibling.app {
                        Some(a) => a,
                        None => {
                            return Err(ApiError::NotFound("app not found in the scene".to_owned()));
                        },
                    };
                    if fuel == 0 {
                        return Err(ApiError::Input(
                            "the app references form a cycle".to_owned(),
                        ));
                    }
                    Self::from_manifest(
                        api,
                        cargo_lock,
                        manifest_crate_id,
                        manifest_metadata,
                        sibling,
                        sibling_app,
                        fuel - 1,
                    )
                } else {
                    let external_crate_id = cargo_lock.crate_id(dep_crate.as_str())?;
                    let scene_id = SceneId::new(external_crate_id, dep_scene);
                    let key = scene_id.into_doc_id();
                    match api.db.scenes.get(&key) {
                        Some(doc) => match doc.app_ref() {
                            Some(a) => Ok(a.clone()),
                            None => Err(
                                ApiError::NotFound("app not found in the scene".to_owned()),
                            ),
                        },
                        None => {
                            if api.db.crates.has(&scene_id.crate_id.into_doc_id()) {
                                Err(ApiError::NotFound(
                                    "the crate exists but the scene was not found".to_owned(),
                                ))
                            } else {
                                Err(ApiError::MissingCrate(scene_id.crate_id))
                            }
                        },
                    }
                }
            },
        }
    }
}


/// The description a scene document settles on: the scene's own text, then
/// the package's, then generated text.
pub open spec fn description_spec(scene: ManifestScene, cdoc: CrateDocView) -> Seq<char> {
    match scene.description {
        Some(d) => d@,
        None => match cdoc.description {
            Some(d) => d,
            None => "The "@ + scene.name@ + " scene"@,
        },
    }
}

/// A scene document built from a declaration, stated against the persisted
/// scenes it was resolved over.
pub open spec fn scene_doc_resolved(
    scenes: Seq<SceneDoc>,
    crates: Seq<CrateDoc>,
    lock: CargoLock,
    cdoc: CrateDocView,
    md: ManifestMetadata,
    scene: ManifestScene,
    now_ms: u64,
    d: SceneDocView,
) -> bool {
    &&& d.scene_id == SceneIdView { crate_id: cdoc.crate_id, scene_name: scene.name@ }
    &&& d.key == scene_doc_key(d.scene_id)
    &&& d.description == description_spec(scene, cdoc)
    &&& d.created_ms == now_ms
    &&& crate::scene_doc::thumb_matches(scene, d.thumbnail)
    &&& resolve_tree_spec(scenes, crates, lock, cdoc.crate_id, md, scene, md.scene@.len() as nat)
        == Resolved::Done(d.tree)
    &&& match scene.app {
        Some(app) => d.app matches Some(av) && resolve_app_spec(
            scenes,
            crates,
            lock,
            cdoc.crate_id,
            md,
            scene,
            app,
            md.scene@.len() as nat,
        ) == Resolved::Done(av),
        None => d.app is None,
    }
    &&& d.repository == cdoc.repository
    &&& d.is_latest == false
    &&& crate::replication::replication_resolved(scene.replication, d.replication)
}

impl SceneDoc {
    /// Build a scene document from its declaration: resolve the include
    /// tree and the app against the persisted scenes, default the
    /// description and thumbnail, and derive the key; the latest flag
    /// starts false.
    pub fn from_manifest(
        api: &Services,
        crate_doc: &CrateDoc,
        cargo_lock: &CargoLock,
        crate_id: &CrateId,
        scenes: &ManifestMetadata,
        scene: &ManifestScene,
        now_ms: u64,
    ) -> (r: Result<Self, ApiError>)
        requires
            crate_id@ == crate_doc@.crate_id,
        ensures
            match r {
                Ok(d) => scene_doc_resolved(
                    api.db.scenes@,
                    api.db.crates@,
                    *cargo_lock,
                    crate_doc@,
                    *scenes,
                    *scene,
                    now_ms,
                    d@,
                ),
                Err(e) => {
                    ||| fails_as(
                        resolve_tree_spec(
                            api.db.scenes@,
                            api.db.crates@,
                            *cargo_lock,
                            crate_id@,
                            *scenes,
                            *scene,
                            scenes.scene@.len() as nat,
                        ),
                        e,
                    )
                    ||| (scene.app matches Some(app) && fails_as(
                        resolve_app_spec(
                            api.db.scenes@,
                            api.db.crates@,
                            *cargo_lock,
                            crate_id@,
                            *scenes,
                            *scene,
                            app,
                            scenes.scene@.len() as nat,
                        ),
                        e,
                    ))
                },
            },
    {
        let fuel = scenes.scene.len();
        let tree = SceneIncludeTree::from_manifest(
            api,
            cargo_lock,
            crate_id,
            scenes,
            scene,
            fuel,
        )?;
        let app = match &scene.app {
            Some(a) => Some(
                SceneApp::from_manifest(api, cargo_lock, crate_id, scenes, scene, a, fuel)?,
            ),
            None => None,
        };
        let scene_id = SceneId::new(crate_id.clone(), scene.name.clone());
        let description = match &scene.description {
            Some(d) => d.clone(),
            None => match &crate_doc.description {
                Some(d) => d.clone(),
                None => {
                    proof {
                        reveal_strlit("The ");
                        reveal_strlit(" scene");
                    }
                    let mut text = "The ".to_owned();
                    text.append(scene.name.as_str());
                    text.append(" scene");
                    text
                },
            },
        };
        let thumbnail = SceneThumb::from_manifest(scene);
        let replication = ReplicationConfig::from_manifest(&scene.replication);
        let repository = crate::manifest::clone_opt(&crate_doc.repository);
        let d = SceneDoc::assemble(
            scene_id,
            description,
            now_ms,
            thumbnail,
            tree,
            app,
            repository,
            replication,
        );
        Ok(d)
    }
}

/// Whether this stored scene belongs to the package.
pub open spec fn scene_of_crate(d: SceneDoc, cid: CrateIdView) -> bool {
    d@.scene_id.crate_id == cid
}

/// The identity a parsed package declaration derives: its name and the
/// parsed declared version (or the fallback's).
pub open spec fn derived_crate_id(pkg: ManifestPackage) -> CrateIdView {
    CrateIdView {
        name: pkg.name@,
        version: parse_version_view(crate::crate_doc::version_text_spec(pkg.version))->Some_0,
    }
}

/// Every declared scene's include tree and app resolve against the
/// persisted documents, at the fuel the resolver grants (the declared
/// scene count).
pub open spec fn all_scenes_resolve(
    scenes: Seq<SceneDoc>,
    crates: Seq<CrateDoc>,
    lock: CargoLock,
    cid: CrateIdView,
    md: ManifestMetadata,
) -> bool {
    forall|i: int|
        0 <= i < md.scene@.len() ==> (resolve_tree_spec(
            scenes,
            crates,
            lock,
            cid,
            md,
            #[trigger] md.scene@[i],
            md.scene@.len() as nat,
        ) is Done && (md.scene@[i].app matches Some(app) ==> resolve_app_spec(
            scenes,
            crates,
            lock,
            cid,
            md,
            md.scene@[i],
            app,
            md.scene@.len() as nat,
        ) is Done))
}

/// The package document a package declaration derives to, field by field.
pub open spec fn crate_doc_derived(pkg: ManifestPackage, doc: CrateDocView) -> bool {
    &&& doc.crate_id.name == pkg.name@
    &&& parse_version_view(crate::crate_doc::version_text_spec(pkg.version)) == Some(
        doc.crate_id.version,
    )
    &&& doc.key == crate_doc_key(doc.crate_id)
    &&& doc.readme == crate::crate_doc::readme_chars(pkg.readme)
    &&& doc.description == crate::crate_doc::inherited_chars(pkg.description)
    &&& doc.repository == crate::crate_doc::inherited_chars(pkg.repository)
    &&& doc.keywords == crate::crate_doc::inherited_texts(pkg.keywords)
    &&& doc.authors == crate::crate_doc::inherited_texts(pkg.authors)
}

/// The package collection after upserting one document.
pub open spec fn crates_upserted(
    pre: Seq<CrateDoc>,
    post: Seq<CrateDoc>,
    doc: CrateDocView,
) -> bool {
    &&& (forall|k: Seq<char>| #![auto]
        key_lookup(post, k) == if k == doc.key {
            key_lookup(post, doc.key)
        } else {
            key_lookup(pre, k)
        })
    &&& (key_lookup(post, doc.key) matches Some(c) && c@ == doc)
}

/// The scene collection after the batch insert alone, flags still
/// unswept: a stored scene exists under each built document's key and
/// carries its model; every other key is untouched.
pub open spec fn scenes_upserted_unswept(
    pre: Seq<SceneDoc>,
    post: Seq<SceneDoc>,
    sds: Seq<SceneDoc>,
) -> bool {
    forall|k: Seq<char>|
        #![trigger key_lookup(post, k)]
        {
            if exists|i: int| 0 <= i < sds.len() && (#[trigger] sds[i])@.key == k {
                key_lookup(post, k) matches Some(p) && exists|i: int|
                    0 <= i < sds.len() && (#[trigger] sds[i])@.key == k && p@ == sds[i]@
            } else {
                key_lookup(post, k) == key_lookup(pre, k)
            }
        }
}

/// What a failed materialization may leave behind: the package document
/// and the full scene batch persisted, flags unswept — the shape after the
/// batch insert when only the final latest-flag sweep failed.
pub open spec fn persisted_unswept(
    pre_scenes: Seq<SceneDoc>,
    pre_crates: Seq<CrateDoc>,
    post_scenes: Seq<SceneDoc>,
    post_crates: Seq<CrateDoc>,
    pkg: ManifestPackage,
    lock: CargoLock,
    now_ms: u64,
) -> bool {
    exists|doc: CrateDoc, sds: Seq<SceneDoc>|
        #![trigger crate_doc_derived(pkg, doc@), sds.len()]
        {
            &&& crate_doc_derived(pkg, doc@)
            &&& sds.len() == (match pkg.metadata {
                Some(md) => md.scene@.len(),
                None => 0nat,
            })
            &&& (forall|i: int|
                0 <= i < sds.len() ==> (pkg.metadata matches Some(md) && scene_doc_resolved(
                    pre_scenes,
                    pre_crates,
                    lock,
                    doc@,
                    md,
                    md.scene@[i],
                    now_ms,
                    (#[trigger] sds[i])@,
                )))
            &&& crates_upserted(pre_crates, post_crates, doc@)
            &&& scenes_upserted_unswept(pre_scenes, post_scenes, sds)
        }
}

impl Services {
    /// Derive and persist a materialized package's documents: the package
    /// document, then — only after every declared scene resolved — all
    /// scene documents in one batch, and finally the latest-flag sweep.
    /// No scene document is persisted when any scene fails to resolve.
    #[verifier::rlimit(80)]
    pub fn unpack_crate_to_db(
        &mut self,
        manifest: &Manifest,
        cargo_lock: &CargoLock,
        now_ms: u64,
    ) -> (r: Result<(CrateDoc, Vec<SceneDoc>), ApiError>)
        requires
            old(self).wf(),
        ensures
            final(self).wf(),
            final(self).storage == old(self).storage,
            final(self).registry == old(self).registry,
            final(self).fetches == old(self).fetches,
            match r {
                Ok((doc, sds)) => (manifest.package matches Some(pkg) && {
                    &&& pkg.version matches Some(MaybeLocal::Local(vt))
                    &&& crate_doc_derived(pkg, doc@)
                    &&& sds@.len() == (match pkg.metadata {
                        Some(md) => md.scene@.len(),
                        None => 0nat,
                    })
                    &&& (forall|i: int|
                        0 <= i < sds@.len() ==> (pkg.metadata matches Some(md)
                            && scene_doc_resolved(
                            old(self).db.scenes@,
                            old(self).db.crates@,
                            *cargo_lock,
                            doc@,
                            md,
                            md.scene@[i],
                            now_ms,
                            (#[trigger] sds@[i])@,
                        )))
                    &&& crates_upserted(old(self).db.crates@, final(self).db.crates@, doc@)
                    &&& exists|lv: VersionView|
                        {
                            &&& #[trigger] crate::registry::is_latest_of(
                                crate::registry::listed_version_texts(
                                    old(self).registry.index_view(),
                                    doc@.crate_id.name,
                                ),
                                lv,
                            )
                            &&& forall|k: Seq<char>|
                                #![trigger key_lookup(final(self).db.scenes@, k)]
                                {
                                    if exists|i: int|
                                        0 <= i < sds@.len() && (#[trigger] sds@[i])@.key == k {
                                        key_lookup(final(self).db.scenes@, k) matches Some(p)
                                            && exists|i: int|
                                            0 <= i < sds@.len() && (#[trigger] sds@[i])@.key == k
                                                && p@ == (SceneDocView {
                                                is_latest: crate::latest::reconciled_flag(
                                                    sds@[i]@,
                                                    doc@.crate_id.name,
                                                    lv,
                                                ),
                                                ..sds@[i]@
                                            })
                                    } else {
                                        match (
                                            key_lookup(old(self).db.scenes@, k),
                                            key_lookup(final(self).db.scenes@, k),
                                        ) {
                                            (None, None) => true,
                                            (Some(o), Some(p)) => p@ == (SceneDocView {
                                                is_latest: crate::latest::reconciled_flag(
                                                    o@,
                                                    doc@.crate_id.name,
                                                    lv,
                                                ),
                                                ..o@
                                            }),
                                            _ => false,
                                        }
                                    }
                                }
                        }
                }),
                Err(e) => {
                    &&& (e is Input || e is NotFound || e is MissingCrate)
                    &&& (manifest.package is None ==> e is Input)
                    &&& (manifest.package matches Some(pkg) ==> {
                        &&& (pkg.version is None ==> e is Input && final(self).db == old(
                            self,
                        ).db)
                        &&& (pkg.version matches Some(MaybeLocal::Workspace) ==> (e is Input
                            && final(self).db == old(self).db))
                        &&& (parse_version_view(
                            crate::crate_doc::version_text_spec(pkg.version),
                        ) is None ==> e is Input && final(self).db == old(self).db)
                        &&& (final(self).db == old(self).db || ((e is NotFound || e is Input)
                            && !crate::registry::registry_has_latest(
                            old(self).registry.index_view(),
                            pkg.name@,
                        ) && persisted_unswept(
                            old(self).db.scenes@,
                            old(self).db.crates@,
                            final(self).db.scenes@,
                            final(self).db.crates@,
                            pkg,
                            *cargo_lock,
                            now_ms,
                        )))
                    })
                    &&& (manifest.package is None ==> final(self).db == old(self).db)
                },
            },
            (manifest.package matches Some(pkg) && pkg.version matches Some(
                MaybeLocal::Local(vt),
            ) && parse_version_view(crate::crate_doc::version_text_spec(pkg.version)) is Some
                && crate::registry::registry_has_latest(
                old(self).registry.index_view(),
                pkg.name@,
            ) && (match pkg.metadata {
                Some(md) => all_scenes_resolve(
                    old(self).db.scenes@,
                    old(self).db.crates@,
                    *cargo_lock,
                    derived_crate_id(pkg),
                    md,
                ),
                None => true,
            })) ==> r is Ok,
    {
        let pkg = match &manifest.package {
            Some(p) => p,
            None => {
                return Err(ApiError::Input("the manifest has no package section".to_owned()));
            },
        };
        match &pkg.version {
            Some(MaybeLocal::Local(_)) => {},
            Some(MaybeLocal::Workspace) => {
                return Err(ApiError::Input(
                    "workspace-inherited versions are not supported".to_owned(),
                ));
            },
            None => {
                return Err(ApiError::Input("the manifest has no package version".to_owned()));
            },
        };
        let crate_doc = CrateDoc::from_package(pkg)?;
        let crate_id = crate_doc.crate_id().clone();
        let ghost pre_scenes = self.db.scenes@;
        let ghost pre_crates = self.db.crates@;
        let mut scene_docs: Vec<SceneDoc> = Vec::new();
        let mut to_insert: Vec<SceneDoc> = Vec::new();
        if let Some(md) = &pkg.metadata {
            let n = md.scene.len();
            let mut i: usize = 0;
            while i < n
                invariant
                    i <= n,
                    n == md.scene@.len(),
                    self.wf(),
                    self.db == old(self).db,
                    pre_scenes == self.db.scenes@,
                    pre_crates == self.db.crates@,
                    crate_id@ == crate_doc@.crate_id,
                    manifest.package == Some(*pkg),
                    pkg.metadata == Some(*md),
                    pkg.version matches Some(MaybeLocal::Local(vt)),
                    crate_doc_derived(*pkg, crate_doc@),
                    scene_docs@.len() == i,
                    to_insert@.len() == i,
                    forall|j: int| #![auto]
                        0 <= j < i ==> scene_doc_resolved(
                            pre_scenes,
                            pre_crates,
                            *cargo_lock,
                            crate_doc@,
                            *md,
                            md.scene@[j],
                            now_ms,
                            scene_docs@[j]@,
                        ),
                    forall|j: int| #![auto] 0 <= j < i ==> to_insert@[j]@ == scene_docs@[j]@,
                decreases n - i,
            {
                let d = SceneDoc::from_manifest(
                    &*self,
                    &crate_doc,
                    cargo_lock,
                    &crate_id,
                    md,
                    &md.scene[i],
                    now_ms,
                )?;
                let c = d.clone();
                scene_docs.push(d);
                to_insert.push(c);
                i = i + 1;
            }
            proof {
                assert forall|j: int|
                    0 <= j < scene_docs@.len() implies (#[trigger] scene_docs@[j]).wf() by {
                    assert(scene_doc_resolved(
                        pre_scenes,
                        pre_crates,
                        *cargo_lock,
                        crate_doc@,
                        *md,
                        md.scene@[j],
                        now_ms,
                        scene_docs@[j]@,
                    ));
                }
            }
        }
        let doc_for_db = crate_doc.clone();
        let ghost crates_before = self.db.crates@;
        let ghost fresh_doc = doc_for_db;
        let _ = self.db.crates.insert(doc_for_db);
        proof {
            assert forall|x: int|
                0 <= x < self.db.crates@.len() implies (#[trigger] self.db.crates@[x]).wf() by {
                if seq![fresh_doc].contains(self.db.crates@[x]) {
                    assert(self.db.crates@[x] == seq![fresh_doc][0]);
                    assert(fresh_doc@ == crate_doc@);
                } else {
                    assert(crates_before.contains(self.db.crates@[x]));
                    let j = choose|j: int|
                        0 <= j < crates_before.len() && crates_before[j] == self.db.crates@[x];
                    assert(crates_before[j].wf());
                }
            }
        }
        let ghost inserted = to_insert@;
        let _ = self.db.scenes.insert_many(to_insert);
        proof {
            assert forall|x: int|
                0 <= x < self.db.scenes@.len() implies (#[trigger] self.db.scenes@[x]).wf() by {
                if inserted.contains(self.db.scenes@[x]) {
                    let t = choose|t: int|
                        0 <= t < inserted.len() && inserted[t] == self.db.scenes@[x];
                    assert(inserted[t]@ == scene_docs@[t]@);
                    assert(scene_docs@[t].wf());
                } else {
                    assert(pre_scenes.contains(self.db.scenes@[x]));
                    let j = choose|j: int|
                        0 <= j < pre_scenes.len() && pre_scenes[j] == self.db.scenes@[x];
                    assert(pre_scenes[j].wf());
                }
            }
        }
        let ghost mid_scenes = self.db.scenes@;
        let ghost mid_crates = self.db.crates@;
        let sweep = self.set_latest_scenes_in_db(&crate_id);
        match sweep {
            Ok(()) => {},
            Err(e) => {
                proof {
                    assert(crate_doc_derived(*pkg, crate_doc@));
                    assert(scenes_upserted_unswept(pre_scenes, mid_scenes, scene_docs@)) by {
                        lemma_batch_upsert_shape(pre_scenes, mid_scenes, inserted, scene_docs@);
                    }
                    assert(persisted_unswept(
                        pre_scenes,
                        pre_crates,
                        final(self).db.scenes@,
                        final(self).db.crates@,
                        *pkg,
                        *cargo_lock,
                        now_ms,
                    )) by {
                        assert(final(self).db.scenes@ == mid_scenes);
                        assert(final(self).db.crates@ == mid_crates);
                        assert(scene_docs@.len() == (match pkg.metadata {
                            Some(md) => md.scene@.len(),
                            None => 0nat,
                        }));
                    }
                }
                return Err(e);
            },
        }
        proof {
            let lv = choose|lv: VersionView|
                {
                    &&& #[trigger] crate::registry::is_latest_of(
                        crate::registry::listed_version_texts(
                            old(self).registry.index_view(),
                            crate_id@.name,
                        ),
                        lv,
                    )
                    &&& forall|k: Seq<char>|
                        #![trigger key_lookup(final(self).db.scenes@, k)]
                        match (key_lookup(mid_scenes, k), key_lookup(final(self).db.scenes@, k)) {
                            (None, None) => true,
                            (Some(o), Some(p)) => p@ == (SceneDocView {
                                is_latest: crate::latest::reconciled_flag(o@, crate_id@.name, lv),
                                ..o@
                            }),
                            _ => false,
                        }
                };
            assert forall|k: Seq<char>|
                #![trigger key_lookup(final(self).db.scenes@, k)]
                {
                    if exists|i: int|
                        0 <= i < scene_docs@.len() && (#[trigger] scene_docs@[i])@.key == k {
                        key_lookup(final(self).db.scenes@, k) matches Some(p) && exists|i: int|
                            0 <= i < scene_docs@.len() && (#[trigger] scene_docs@[i])@.key == k
                                && p@ == (SceneDocView {
                                is_latest: crate::latest::reconciled_flag(
                                    scene_docs@[i]@,
                                    crate_doc@.crate_id.name,
                                    lv,
                                ),
                                ..scene_docs@[i]@
                            })
                    } else {
                        match (key_lookup(pre_scenes, k), key_lookup(final(self).db.scenes@, k)) {
                            (None, None) => true,
                            (Some(o), Some(p)) => p@ == (SceneDocView {
                                is_latest: crate::latest::reconciled_flag(
                                    o@,
                                    crate_doc@.crate_id.name,
                                    lv,
                                ),
                                ..o@
                            }),
                            _ => false,
                        }
                    }
                } by {
                if exists|i: int|
                    0 <= i < scene_docs@.len() && (#[trigger] scene_docs@[i])@.key == k {
                    let i = choose|i: int|
                        0 <= i < scene_docs@.len() && (#[trigger] scene_docs@[i])@.key == k;
                    assert(inserted[i].key_spec() == k);
                    crate::memory_collection::lemma_batch_none_iff(inserted, k);
                    assert(crate::memory_collection::batch_key_lookup(inserted, k) is Some);
                    lemma_batch_some_scene(inserted, k);
                    let t = choose|t: int|
                        0 <= t < inserted.len() && #[trigger] inserted[t] == crate::memory_collection::batch_key_lookup(
                            inserted,
                            k,
                        )->Some_0 && inserted[t].key_spec() == k;
                    assert(key_lookup(mid_scenes, k) == Some(inserted[t]));
                    assert(inserted[t]@ == scene_docs@[t]@);
                } else {
                    crate::memory_collection::lemma_batch_none_iff(inserted, k);
                    assert forall|j: int| 0 <= j < inserted.len() implies (
                    #[trigger] inserted[j]).key_spec() != k by {
                        assert(inserted[j]@ == scene_docs@[j]@);
                        assert(scene_docs@[j]@.key != k);
                    }
                    assert(key_lookup(mid_scenes, k) == key_lookup(pre_scenes, k));
                }
            }
        }
        Ok((crate_doc, scene_docs))
    }

    /// Read the package document of an identity; a package whose document
    /// is not persisted must be materialized first.  The answered document
    /// carries exactly the requested identity; a stored document whose key
    /// coincides while its identity differs — possible only for names that
    /// hold the separator — is treated as not found.
    pub fn crate_doc(&self, crate_id: &CrateId) -> (r: Result<CrateDoc, ApiError>)
        requires
            self.wf(),
        ensures
            match r {
                Ok(doc) => {
                    &&& (key_lookup(self.db.crates@, crate_doc_key(crate_id@)) matches Some(d)
                        && d@ == doc@)
                    &&& doc@.crate_id == crate_id@
                    &&& doc@.key == crate_doc_key(crate_id@)
                },
                Err(e) => match e {
                    ApiError::MissingCrate(c) => c@ == crate_id@ && key_lookup(
                        self.db.crates@,
                        crate_doc_key(crate_id@),
                    ) is None,
                    ApiError::NotFound(_) => key_lookup(
                        self.db.crates@,
                        crate_doc_key(crate_id@),
                    ) matches Some(d) && d@.crate_id != crate_id@,
                    _ => false,
                },
            },
    {
        let key = crate_id.into_doc_id();
        match self.db.crates.get(&key) {
            Some(doc) => {
                proof {
                    crate::memory_collection::lemma_key_lookup_exists(self.db.crates@, key@);
                }
                if doc.crate_id().same_as(crate_id) {
                    Ok(doc.clone())
                } else {
                    Err(ApiError::NotFound(
                        "the stored document under the key carries another identity".to_owned(),
                    ))
                }
            },
            None => Err(ApiError::MissingCrate(crate_id.clone())),
        }
    }

    /// Read a scene document by identity.  A persisted package without the
    /// scene is a not-found error; an unmaterialized package must be
    /// materialized first.  The answered document carries exactly the
    /// requested identity; a stored document whose key coincides while its
    /// identity differs — possible only for names that hold the separator —
    /// is treated as not found.
    pub fn scene_doc(&self, scene_id: &SceneId) -> (r: Result<SceneDoc, ApiError>)
        requires
            self.wf(),
        ensures
            match r {
                Ok(doc) => {
                    &&& (key_lookup(self.db.scenes@, scene_doc_key(scene_id@)) matches Some(d)
                        && d@ == doc@)
                    &&& doc@.scene_id == scene_id@
                    &&& doc@.key == scene_doc_key(scene_id@)
                },
                Err(e) => match e {
                    ApiError::NotFound(_) => (key_lookup(
                        self.db.scenes@,
                        scene_doc_key(scene_id@),
                    ) is None && key_lookup(
                        self.db.crates@,
                        crate_doc_key(scene_id@.crate_id),
                    ) is Some) || (key_lookup(
                        self.db.scenes@,
                        scene_doc_key(scene_id@),
                    ) matches Some(d) && d@.scene_id != scene_id@),
                    ApiError::MissingCrate(c) => c@ == scene_id@.crate_id && key_lookup(
                        self.db.scenes@,
                        scene_doc_key(scene_id@),
                    ) is None && key_lookup(
                        self.db.crates@,
                        crate_doc_key(scene_id@.crate_id),
                    ) is None,
                    _ => false,
                },
            },
    {
        let key = scene_id.into_doc_id();
        match self.db.scenes.get(&key) {
            Some(doc) => {
                proof {
                    crate::memory_collection::lemma_key_lookup_exists(self.db.scenes@, key@);
                }
                if doc.scene_id_ref().same_as(scene_id) {
                    Ok(doc.clone())
                } else {
                    Err(ApiError::NotFound(
                        "the stored document under the key carries another identity".to_owned(),
                    ))
                }
            },
            None => {
                let crate_key = scene_id.crate_id.into_doc_id();
                if self.db.crates.has(&crate_key) {
                    Err(ApiError::NotFound(
                        "the crate exists but the scene was not found".to_owned(),
                    ))
                } else {
                    Err(ApiError::MissingCrate(scene_id.crate_id.clone()))
                }
            },
        }
    }

    /// All persisted scene documents of one package, in store order.  A
    /// package with no persisted scenes and no package document must be
    /// materialized first.
    pub fn all_scene_docs(&self, crate_id: &CrateId) -> (r: Result<Vec<SceneDoc>, ApiError>)
        ensures
            match r {
                Ok(list) => {
                    &&& list@.map_values(|d: SceneDoc| d@) == self.db.scenes@.filter(
                        |d: SceneDoc| scene_of_crate(d, crate_id@),
                    ).map_values(|d: SceneDoc| d@)
                    &&& (list@.len() > 0 || key_lookup(
                        self.db.crates@,
                        crate_doc_key(crate_id@),
                    ) is Some)
                },
                Err(e) => e matches ApiError::MissingCrate(c) && c@ == crate_id@
                    && self.db.scenes@.filter(|d: SceneDoc| scene_of_crate(d, crate_id@)).len()
                    == 0 && key_lookup(self.db.crates@, crate_doc_key(crate_id@)) is None,
            },
    {
        let ghost p = |d: SceneDoc| scene_of_crate(d, crate_id@);
        let n = self.db.scenes.doc_count();
        let mut out: Vec<SceneDoc> = Vec::new();
        let mut i: usize = 0;
        proof {
            assert(self.db.scenes@.take(0) =~= Seq::<SceneDoc>::empty());
            assert(self.db.scenes@.take(0).filter(p) =~= Seq::<SceneDoc>::empty());
            assert(out@.map_values(|d: SceneDoc| d@) =~= Seq::<SceneDoc>::empty().map_values(
                |d: SceneDoc| d@,
            ));
        }
        while i < n
            invariant
                i <= n,
                n == self.db.scenes@.len(),
                p == (|d: SceneDoc| scene_of_crate(d, crate_id@)),
                out@.map_values(|d: SceneDoc| d@) == self.db.scenes@.take(i as int).filter(
                    p,
                ).map_values(|d: SceneDoc| d@),
            decreases n - i,
        {
            proof {
                assert(self.db.scenes@.take(i as int + 1).drop_last() =~= self.db.scenes@.take(
                    i as int,
                ));
                assert(self.db.scenes@.take(i as int + 1).last() == self.db.scenes@[i as int]);
                reveal(Seq::filter);
            }
            let ghost before = out@;
            let d = self.db.scenes.doc_at(i);
            if d.scene_id_ref().crate_id().same_as(crate_id) {
                out.push(d.clone());
                proof {
                    assert(out@.map_values(|x: SceneDoc| x@) =~= before.map_values(
                        |x: SceneDoc| x@,
                    ).push(out@.last()@));
                    assert(out@.last()@ == self.db.scenes@[i as int]@);
                }
            }
            proof {
                assert(out@.map_values(|x: SceneDoc| x@) =~= self.db.scenes@.take(
                    i as int + 1,
                ).filter(p).map_values(|x: SceneDoc| x@));
            }
            i = i + 1;
        }
        proof {
            assert(self.db.scenes@.take(n as int) =~= self.db.scenes@);
        }
        if out.len() > 0 {
            return Ok(out);
        }
        let crate_key = crate_id.into_doc_id();
        if self.db.crates.has(&crate_key) {
            Ok(out)
        } else {
            proof {
                crate::memory_collection::lemma_filter_len_le(self.db.scenes@, p);
            }
            Err(ApiError::MissingCrate(crate_id.clone()))
        }
    }
}

/// A found scene declaration carries the looked-up name.
proof fn lemma_scene_lookup_name(s: Seq<ManifestScene>, name: Seq<char>)
    requires
        scene_lookup(s, name) is Some,
    ensures
        scene_lookup(s, name)->Some_0.name@ == name,
    decreases s.len(),
{
    if s.len() > 0 && s[0].name@ != name {
        lemma_scene_lookup_name(s.skip(1), name);
    }
}

/// A resolved reference list answers one child per reference, each from its
/// own reference.
proof fn lemma_deps_spec_inverts(
    scenes: Seq<SceneDoc>,
    crates: Seq<CrateDoc>,
    lock: CargoLock,
    cid: CrateIdView,
    md: ManifestMetadata,
    deps: Seq<ManifestDependency>,
    fuel: nat,
    children: Seq<IncludeTreeView>,
)
    requires
        resolve_deps_spec(scenes, crates, lock, cid, md, deps, fuel) == Resolved::Done(children),
    ensures
        children.len() == deps.len(),
        forall|i: int|
            0 <= i < deps.len() ==> resolve_dep_spec(
                scenes,
                crates,
                lock,
                cid,
                md,
                #[trigger] deps[i],
                fuel,
            ) == Resolved::Done(children[i]),
    decreases deps.len(),
{
    if deps.len() > 0 {
        let rest = resolve_deps_spec(scenes, crates, lock, cid, md, deps.skip(1), fuel)->Done_0;
        lemma_deps_spec_inverts(scenes, crates, lock, cid, md, deps.skip(1), fuel, rest);
        assert forall|i: int| 0 <= i < deps.len() implies resolve_dep_spec(
            scenes,
            crates,
            lock,
            cid,
            md,
            #[trigger] deps[i],
            fuel,
        ) == Resolved::Done(children[i]) by {
            if i >= 1 {
                assert(deps[i] == deps.skip(1)[i - 1]);
                assert(children[i] == rest[i - 1]);
            }
        }
    }
}

/// What one resolved child is: a same-package reference yields a node of
/// that scene's identity in this package; a cross-package reference yields,
/// verbatim, the stored subtree of the scene at exactly the lockfile-pinned
/// version of the dependency — never at any other version.
pub open spec fn child_resolved(
    scenes: Seq<SceneDoc>,
    lock: CargoLock,
    cid: CrateIdView,
    dep: ManifestDependency,
    child: IncludeTreeView,
) -> bool {
    match resolved_ref(cid.name, dep) {
        None => false,
        Some((dep_crate, dep_scene)) => {
            if dep_crate == cid.name {
                child.scene_id == (SceneIdView { crate_id: cid, scene_name: dep_scene })
            } else {
                match pinned_crate(lock, dep_crate) {
                    None => false,
                    Some(ext) => key_lookup(
                        scenes,
                        scene_doc_key(SceneIdView { crate_id: ext, scene_name: dep_scene }),
                    ) matches Some(d) && child == d@.tree,
                }
            }
        },
    }
}

/// Include-tree fidelity: a resolved tree has exactly one child per
/// reference of the scene's dependency set, in declaration order, each
/// matching the resolved identity; a cross-package child is the persisted
/// subtree of the lockfile-pinned version.
pub proof fn lemma_include_tree_children(
    scenes: Seq<SceneDoc>,
    crates: Seq<CrateDoc>,
    lock: CargoLock,
    cid: CrateIdView,
    md: ManifestMetadata,
    scene: ManifestScene,
    fuel: nat,
    t: IncludeTreeView,
)
    requires
        resolve_tree_spec(scenes, crates, lock, cid, md, scene, fuel) == Resolved::Done(t),
    ensures
        t.scene_id == (SceneIdView { crate_id: cid, scene_name: scene.name@ }),
        t.children.len() == app_dependency(scene.app).len() + scene.includes@.len(),
        forall|i: int|
            0 <= i < t.children.len() ==> child_resolved(
                scenes,
                lock,
                cid,
                #[trigger] (app_dependency(scene.app) + scene.includes@)[i],
                t.children[i],
            ),
{
    let deps = app_dependency(scene.app) + scene.includes@;
    lemma_deps_spec_inverts(scenes, crates, lock, cid, md, deps, fuel, t.children);
    assert forall|i: int| 0 <= i < t.children.len() implies child_resolved(
        scenes,
        lock,
        cid,
        #[trigger] deps[i],
        t.children[i],
    ) by {
        let dep = deps[i];
        let child = t.children[i];
        assert(resolve_dep_spec(scenes, crates, lock, cid, md, dep, fuel) == Resolved::Done(
            child,
        ));
        match resolved_ref(cid.name, dep) {
            None => {},
            Some((dep_crate, dep_scene)) => {
                if dep_crate == cid.name {
                    lemma_scene_lookup_name(md.scene@, dep_scene);
                    let sibling = scene_lookup(md.scene@, dep_scene)->Some_0;
                    assert(fuel > 0);
                    assert(resolve_tree_spec(
                        scenes,
                        crates,
                        lock,
                        cid,
                        md,
                        sibling,
                        (fuel - 1) as nat,
                    ) == Resolved::Done(child));
                    assert(child.scene_id == (SceneIdView {
                        crate_id: cid,
                        scene_name: sibling.name@,
                    }));
                } else {
                }
            },
        }
    }
}

/// After a batch insert of view-equal copies, a stored scene exists under
/// each built document's key with its model, and every other key is
/// untouched.
proof fn lemma_batch_upsert_shape(
    pre: Seq<SceneDoc>,
    post: Seq<SceneDoc>,
    inserted: Seq<SceneDoc>,
    sds: Seq<SceneDoc>,
)
    requires
        inserted.len() == sds.len(),
        forall|j: int| 0 <= j < inserted.len() ==> (#[trigger] inserted[j])@ == sds[j]@,
        forall|k: Seq<char>| #![auto]
            key_lookup(post, k) == match crate::memory_collection::batch_key_lookup(inserted, k) {
                Some(d) => Some(d),
                None => key_lookup(pre, k),
            },
    ensures
        scenes_upserted_unswept(pre, post, sds),
{
    assert forall|k: Seq<char>|
        #![trigger key_lookup(post, k)]
        {
            if exists|i: int| 0 <= i < sds.len() && (#[trigger] sds[i])@.key == k {
                key_lookup(post, k) matches Some(p) && exists|i: int|
                    0 <= i < sds.len() && (#[trigger] sds[i])@.key == k && p@ == sds[i]@
            } else {
                key_lookup(post, k) == key_lookup(pre, k)
            }
        } by {
        if exists|i: int| 0 <= i < sds.len() && (#[trigger] sds[i])@.key == k {
            let i = choose|i: int| 0 <= i < sds.len() && (#[trigger] sds[i])@.key == k;
            assert(inserted[i].key_spec() == k);
            crate::memory_collection::lemma_batch_none_iff(inserted, k);
            assert(crate::memory_collection::batch_key_lookup(inserted, k) is Some);
            lemma_batch_some_scene(inserted, k);
            let t = choose|t: int|
                0 <= t < inserted.len() && #[trigger] inserted[t]
                    == crate::memory_collection::batch_key_lookup(inserted, k)->Some_0
                    && inserted[t].key_spec() == k;
            assert(key_lookup(post, k) == Some(inserted[t]));
            assert(inserted[t]@ == sds[t]@);
        } else {
            crate::memory_collection::lemma_batch_none_iff(inserted, k);
            assert forall|j: int| 0 <= j < inserted.len() implies (
            #[trigger] inserted[j]).key_spec() != k by {
                assert(inserted[j]@ == sds[j]@);
                assert(sds[j]@.key != k);
            }
        }
    }
}

/// A batch that assigns a key holds an entry with it.
proof fn lemma_batch_some_scene(vs: Seq<SceneDoc>, k: Seq<char>)
    requires
        crate::memory_collection::batch_key_lookup(vs, k) is Some,
    ensures
        exists|t: int|
            0 <= t < vs.len() && #[trigger] vs[t] == crate::memory_collection::batch_key_lookup(
                vs,
                k,
            )->Some_0 && vs[t].key_spec() == k,
    decreases vs.len(),
{
    if vs.len() > 0 {
        if vs.last().key_spec() == k {
            assert(vs[vs.len() - 1] == vs.last());
        } else {
            lemma_batch_some_scene(vs.drop_last(), k);
            let t = choose|t: int|
                0 <= t < vs.drop_last().len() && #[trigger] vs.drop_last()[t]
                    == crate::memory_collection::batch_key_lookup(
                    vs.drop_last(),
                    k,
                )->Some_0 && vs.drop_last()[t].key_spec() == k;
            assert(vs[t] == vs.drop_last()[t]);
        }
    }
}


/// Query parameters of a scene search.
#[derive(Debug)]
pub struct ListQuery {
    pub limit: Option<i64>,
    pub skip: Option<u64>,
    /// A filter as JSON text; parsing it into a structured value is the
    /// caller's side.
    pub filter: Option<String>,
}

/// The limit a scene search honours: at most one hundred answers.
pub open spec fn capped_limit(limit: Option<i64>) -> i64 {
    match limit {
        Some(v) => if v > 100 {
            100i64
        } else {
            v
        },
        None => 100i64,
    }
}

impl Services {
    /// Search the persisted scenes with a filter, answering at most one
    /// hundred documents.
    pub fn find_scenes(&self, filter: &Value, skip: Option<u64>, limit: Option<i64>) -> (r: Vec<
        SceneDoc,
    >)
        ensures
            r@.map_values(|d: SceneDoc| d@) == crate::memory_collection::find_window(
                self.db.scenes@,
                filter@,
                skip,
                Some(capped_limit(limit)),
            ).map_values(|d: SceneDoc| d@),
    {
        let capped: i64 = match limit {
            Some(v) => if v > 100 {
                100
            } else {
                v
            },
            None => 100,
        };
        let found = self.db.scenes.find(filter, skip, Some(capped));
        clone_found(found)
    }

    /// All persisted scenes matching a filter, within the default window.
    pub fn get_scenes(&self, filter: &Value) -> (r: Vec<SceneDoc>)
        ensures
            r@.map_values(|d: SceneDoc| d@) == crate::memory_collection::find_window(
                self.db.scenes@,
                filter@,
                None,
                None,
            ).map_values(|d: SceneDoc| d@),
    {
        let found = self.db.scenes.find(filter, None, None);
        clone_found(found)
    }
}

/// Clone each found document.
fn clone_found(found: Vec<&SceneDoc>) -> (r: Vec<SceneDoc>)
    ensures
        r@.map_values(|d: SceneDoc| d@) == found@.map_values(|d: &SceneDoc| *d).map_values(
            |d: SceneDoc| d@,
        ),
{
    let n = found.len();
    let mut out: Vec<SceneDoc> = Vec::new();
    let mut i: usize = 0;
    while i < n
        invariant
            i <= n,
            n == found@.len(),
            out@.len() == i,
            forall|j: int| 0 <= j < i ==> (#[trigger] out@[j])@ == found@[j]@,
        decreases n - i,
    {
        let c = found[i].clone();
        out.push(c);
        i = i + 1;
    }
    proof {
        assert(out@.map_values(|d: SceneDoc| d@) =~= found@.map_values(|d: &SceneDoc| *d).map_values(
            |d: SceneDoc| d@,
        ));
    }
    out
}

/// With no scene of a package stored beforehand, materializing it leaves a
/// scene document exactly under each declared scene's key: a stored scene
/// of the package then exists precisely at the built documents' keys, so
/// the store holds exactly one document per declared scene.
pub proof fn lemma_scene_documents_exact(
    pre: Seq<SceneDoc>,
    post: Seq<SceneDoc>,
    sds: Seq<SceneDoc>,
    cid: CrateIdView,
    name: Seq<char>,
    lv: VersionView,
)
    requires
        forall|i: int| 0 <= i < pre.len() ==> (#[trigger] pre[i])@.scene_id.crate_id != cid,
        forall|i: int| 0 <= i < sds.len() ==> (#[trigger] sds[i])@.scene_id.crate_id == cid,
        forall|k: Seq<char>|
            #![trigger key_lookup(post, k)]
            {
                if exists|i: int| 0 <= i < sds.len() && (#[trigger] sds[i])@.key == k {
                    key_lookup(post, k) matches Some(p) && exists|i: int|
                        0 <= i < sds.len() && (#[trigger] sds[i])@.key == k && p@ == (SceneDocView {
                            is_latest: crate::latest::reconciled_flag(sds[i]@, name, lv),
                            ..sds[i]@
                        })
                } else {
                    match (key_lookup(pre, k), key_lookup(post, k)) {
                        (None, None) => true,
                        (Some(o), Some(p)) => p@ == (SceneDocView {
                            is_latest: crate::latest::reconciled_flag(o@, name, lv),
                            ..o@
                        }),
                        _ => false,
                    }
                }
            },
    ensures
        forall|k: Seq<char>|
            #![trigger key_lookup(post, k)]
            (key_lookup(post, k) matches Some(d) && d@.scene_id.crate_id == cid) <==> (exists|
                i: int,
            |
                0 <= i < sds.len() && (#[trigger] sds[i])@.key == k),
{
    assert forall|k: Seq<char>|
        #![trigger key_lookup(post, k)]
        (key_lookup(post, k) matches Some(d) && d@.scene_id.crate_id == cid) <==> (exists|i: int|
            0 <= i < sds.len() && (#[trigger] sds[i])@.key == k) by {
        if exists|i: int| 0 <= i < sds.len() && (#[trigger] sds[i])@.key == k {
            let i = choose|i: int| 0 <= i < sds.len() && (#[trigger] sds[i])@.key == k;
            assert(key_lookup(post, k) matches Some(p));
        } else {
            if key_lookup(post, k) matches Some(d) && d@.scene_id.crate_id == cid {
                let d = key_lookup(post, k)->Some_0;
                assert(key_lookup(pre, k) matches Some(o));
                let o = key_lookup(pre, k)->Some_0;
                crate::memory_collection::lemma_key_lookup_exists(pre, k);
                let j = choose|j: int|
                    0 <= j < pre.len() && (#[trigger] pre[j]) == key_lookup(pre, k)->Some_0
                        && pre[j].key_spec() == k;
                assert(pre[j]@.scene_id.crate_id != cid);
                assert(d@.scene_id == o@.scene_id);
                assert(false);
            }
        }
    }
}

} // verus!
