//! The structured manifest and lockfile, as the engine consumes them.
//!
//! Parsing raw bytes into these values is a collaborator boundary: a
//! manifest parser outside the engine produces the structured form, and the
//! engine only reads it.  The scene declarations, include references and
//! lockfile entries below are plain data.

use crate::crate_id::CrateId;
use crate::error::ApiError;
use crate::text::{count_char, find_char, lemma_find_char, str_find_char};
use crate::version::Version;
use vstd::prelude::*;

verus! {

/// A manifest field that is either declared locally or inherited from the
/// enclosing workspace.
#[derive(Debug)]
pub enum MaybeLocal<T> {
    /// Declared in the package's own manifest.
    Local(T),
    /// Inherited from the workspace; the value is not available here.
    Workspace,
}

/// A readme declaration: a path, or a flag that enables or disables the
/// conventional file.
#[derive(Debug)]
pub enum TextOrFlag {
    Text(String),
    Flag(bool),
}

/// Raw scene-to-scene reference in a manifest.
#[derive(Debug)]
pub enum ManifestDependency {
    /// A bare string: an internal scene `some-scene`, or an external one
    /// `some-crate/some-scene`.
    Implicit(String),
    /// An explicit pair of package and scene name.
    Explicit { crate_name: String, scene_name: String },
}

impl Clone for ManifestDependency {
    /// A clone is the same reference.
    fn clone(&self) -> (r: Self)
        ensures
            r == *self,
    {
        match self {
            ManifestDependency::Implicit(value) => ManifestDependency::Implicit(value.clone()),
            ManifestDependency::Explicit { crate_name, scene_name } => {
                ManifestDependency::Explicit {
                    crate_name: crate_name.clone(),
                    scene_name: scene_name.clone(),
                }
            },
        }
    }
}

/// Raw app declaration in a manifest.
#[derive(Debug)]
pub enum ManifestApp {
    /// The app of an internal scene `some-scene`, or of an external one
    /// `some-crate/some-app`.
    Implicit(String),
    /// An explicit pair of package and scene name.
    Explicit { crate_name: String, scene_name: String },
    /// A terminal web-runnable binary; it carries its own locations and is
    /// not a reference.
    Wasm {
        js_url: String,
        wasm_url: String,
        replication_registry_url: Option<String>,
        type_registry_url: Option<String>,
        canvas_id: Option<String>,
    },
}

impl Clone for ManifestApp {
    /// A clone is the same declaration.
    fn clone(&self) -> (r: Self)
        ensures
            r == *self,
    {
        match self {
            ManifestApp::Implicit(value) => ManifestApp::Implicit(value.clone()),
            ManifestApp::Explicit { crate_name, scene_name } => ManifestApp::Explicit {
                crate_name: crate_name.clone(),
                scene_name: scene_name.clone(),
            },
            ManifestApp::Wasm { js_url, wasm_url, replication_registry_url, type_registry_url, canvas_id } => {
                ManifestApp::Wasm {
                    js_url: js_url.clone(),
                    wasm_url: wasm_url.clone(),
                    replication_registry_url: clone_opt(replication_registry_url),
                    type_registry_url: clone_opt(type_registry_url),
                    canvas_id: clone_opt(canvas_id),
                }
            },
        }
    }
}

/// Clone an optional string to an equal value.
pub fn clone_opt(v: &Option<String>) -> (r: Option<String>)
    ensures
        r == *v,
{
    match v {
        Some(s) => Some(s.clone()),
        None => None,
    }
}

/// Raw replication declaration in a manifest.
#[derive(Debug)]
pub struct ManifestReplicationConfig {
    pub send_events: Vec<String>,
    pub recv_events: Vec<String>,
}

/// Raw scene declaration in a manifest.
#[derive(Debug)]
pub struct ManifestScene {
    pub name: String,
    /// Defaults to the package description, then to generated text.
    pub description: Option<String>,
    /// A url to be used for the thumbnail.
    pub thumb_url: Option<String>,
    /// Some text to be used for the thumbnail.
    pub thumb_text: Option<String>,
    /// The location of the scene file; defaults to `scenes/{name}.json`.
    pub path: Option<String>,
    /// An inline scene, in JSON format; wins over `path`.
    pub scene_json: Option<String>,
    /// Scenes that should be included alongside this one.
    pub includes: Vec<ManifestDependency>,
    /// The app declaration, if any.
    pub app: Option<ManifestApp>,
    /// Details for replication events.
    pub replication: Option<ManifestReplicationConfig>,
}

/// Scene metadata declared in a manifest.
#[derive(Debug)]
pub struct ManifestMetadata {
    pub scene: Vec<ManifestScene>,
}

/// The package section of a manifest, with the fields the engine reads.
#[derive(Debug)]
pub struct ManifestPackage {
    pub name: String,
    pub version: Option<MaybeLocal<String>>,
    pub readme: Option<MaybeLocal<TextOrFlag>>,
    pub description: Option<MaybeLocal<String>>,
    pub repository: Option<MaybeLocal<String>>,
    pub keywords: Option<MaybeLocal<Vec<String>>>,
    pub authors: Option<MaybeLocal<Vec<String>>>,
    pub metadata: Option<ManifestMetadata>,
}

/// A structured manifest.
#[derive(Debug)]
pub struct Manifest {
    pub package: Option<ManifestPackage>,
}

/// One entry of a structured lockfile.
#[derive(Debug)]
pub struct CargoLockPackage {
    /// Local packages do not have this.
    pub checksum: Option<String>,
    /// Local packages do not have this.
    pub source: Option<String>,
    pub dependencies: Option<Vec<String>>,
    pub name: String,
    pub version: String,
}

/// A structured lockfile: resolved exact versions for a package's
/// dependencies.
#[derive(Debug)]
pub struct CargoLock {
    pub version: u64,
    pub package: Vec<CargoLockPackage>,
}

/// What a bare reference string means: no slash names a scene of the
/// default package, one slash separates a package from a scene name, and
/// more parts are malformed.
pub open spec fn split_implicit_spec(default_crate: Seq<char>, value: Seq<char>) -> Option<
    (Seq<char>, Seq<char>),
> {
    let slashes = count_char(value, '/');
    if slashes == 0 {
        Some((default_crate, value))
    } else if slashes == 1 {
        let i = find_char(value, '/');
        Some((value.take(i), value.skip(i + 1)))
    } else {
        None
    }
}

/// Split a bare reference string into its package and scene name.  A string
/// with more than one slash is rejected as malformed input.
pub fn split_implicit_path(default_crate_name: &str, value: &str) -> (r: Result<
    (String, String),
    ApiError,
>)
    ensures
        match r {
            Ok(p) => split_implicit_spec(default_crate_name@, value@) == Some((p.0@, p.1@)),
            Err(e) => split_implicit_spec(default_crate_name@, value@) is None && e is Input,
        },
{
    proof {
        lemma_find_char(value@, '/');
    }
    let n = value.unicode_len();
    let first = str_find_char(value, '/');
    if first == n {
        return Ok((default_crate_name.to_owned(), value.to_owned()));
    }
    let rest = value.substring_char(first + 1, n);
    proof {
        assert(rest@ == value@.skip(first + 1));
        lemma_find_char(rest@, '/');
    }
    let second = str_find_char(rest, '/');
    if second == n - (first + 1) {
        let crate_part = value.substring_char(0, first);
        proof {
            assert(crate_part@ =~= value@.take(first as int));
            assert(rest@.len() == n - first - 1);
            assert(find_char(rest@, '/') == rest@.len() as int);
            assert(count_char(rest@, '/') == 0);
            assert(count_char(value@, '/') == 1 + count_char(value@.skip(first + 1), '/'));
            assert(count_char(value@, '/') == 1);
        }
        let part0 = crate_part.to_owned();
        let part1 = rest.to_owned();
        proof {
            assert(part0@ == value@.take(find_char(value@, '/')));
            assert(part1@ == value@.skip(find_char(value@, '/') + 1));
            assert(split_implicit_spec(default_crate_name@, value@) == Some((part0@, part1@)));
        }
        Ok((part0, part1))
    } else {
        proof {
            crate::text::lemma_count_nonneg(rest@.skip(second as int + 1), '/');
            assert(count_char(rest@, '/') >= 1);
            assert(count_char(value@, '/') >= 2);
        }
        Err(ApiError::Input("a reference may only be 'scene' or 'crate/scene'".to_owned()))
    }
}

impl ManifestDependency {
    /// Normalize this reference to a `(package, scene)` pair, reading a bare
    /// string relative to the given default package.
    pub fn into_crate_and_scene(&self, default_crate_name: &str) -> (r: Result<
        (String, String),
        ApiError,
    >)
        ensures
            match r {
                Ok(p) => match self {
                    ManifestDependency::Implicit(value) => split_implicit_spec(
                        default_crate_name@,
                        value@,
                    ) == Some((p.0@, p.1@)),
                    ManifestDependency::Explicit { crate_name, scene_name } => p.0@ == crate_name@
                        && p.1@ == scene_name@,
                },
                Err(e) => self matches ManifestDependency::Implicit(value)
                    && split_implicit_spec(default_crate_name@, value@) is None && e is Input,
            },
    {
        match self {
            ManifestDependency::Implicit(value) => split_implicit_path(
                default_crate_name,
                value.as_str(),
            ),
            ManifestDependency::Explicit { crate_name, scene_name } => Ok(
                (crate_name.clone(), scene_name.clone()),
            ),
        }
    }
}

/// The reference that a scene's app declaration adds to its dependency
/// set: a referencing app is prepended, a terminal one adds nothing.
pub open spec fn app_dependency(app: Option<ManifestApp>) -> Seq<ManifestDependency> {
    match app {
        Some(ManifestApp::Implicit(value)) => seq![ManifestDependency::Implicit(value)],
        Some(ManifestApp::Explicit { crate_name, scene_name }) => seq![
            ManifestDependency::Explicit { crate_name, scene_name },
        ],
        _ => Seq::empty(),
    }
}

impl ManifestScene {
    /// The declared includes, preceded by the app's own reference if the
    /// scene declares a referencing app.
    pub fn get_includes(&self) -> (r: Vec<ManifestDependency>)
        ensures
            r@ == app_dependency(self.app) + self.includes@,
    {
        let mut includes: Vec<ManifestDependency> = Vec::new();
        match &self.app {
            Some(ManifestApp::Implicit(name)) => {
                includes.push(ManifestDependency::Implicit(name.clone()));
            },
            Some(ManifestApp::Explicit { crate_name, scene_name }) => {
                includes.push(ManifestDependency::Explicit {
                    crate_name: crate_name.clone(),
                    scene_name: scene_name.clone(),
                });
            },
            Some(ManifestApp::Wasm { .. }) => {},
            None => {},
        }
        let n = self.includes.len();
        let mut i: usize = 0;
        while i < n
            invariant
                i <= n,
                n == self.includes@.len(),
                includes@ =~= app_dependency(self.app) + self.includes@.take(i as int),
            decreases n - i,
        {
            includes.push(self.includes[i].clone());
            proof {
                assert(includes@ =~= app_dependency(self.app) + self.includes@.take(i + 1));
            }
            i = i + 1;
        }
        proof {
            assert(self.includes@.take(n as int) =~= self.includes@);
        }
        includes
    }
}

/// The first scene declaration of a name, front to back.
pub open spec fn scene_lookup(s: Seq<ManifestScene>, name: Seq<char>) -> Option<ManifestScene>
    decreases s.len(),
{
    if s.len() == 0 {
        None
    } else if s[0].name@ == name {
        Some(s[0])
    } else {
        scene_lookup(s.skip(1), name)
    }
}

impl ManifestMetadata {
    /// Find a scene declaration by name; a missing name is a not-found
    /// error.
    pub fn find_scene(&self, name: &str) -> (r: Result<&ManifestScene, ApiError>)
        ensures
            match r {
                Ok(s) => scene_lookup(self.scene@, name@) == Some(*s),
                Err(e) => e is NotFound && scene_lookup(self.scene@, name@) is None,
            },
    {
        let n = self.scene.len();
        let mut i: usize = 0;
        proof {
            assert(self.scene@.skip(0) =~= self.scene@);
        }
        while i < n
            invariant
                i <= n,
                n == self.scene@.len(),
                scene_lookup(self.scene@, name@) == scene_lookup(
                    self.scene@.skip(i as int),
                    name@,
                ),
            decreases n - i,
        {
            proof {
                let sa = self.scene@.skip(i as int);
                assert(sa[0] == self.scene@[i as int]);
                assert(sa.skip(1) =~= self.scene@.skip(i + 1));
            }
            if crate::text::str_eq(self.scene[i].name.as_str(), name) {
                return Ok(&self.scene[i]);
            }
            i = i + 1;
        }
        proof {
            assert(self.scene@.skip(n as int) =~= Seq::<ManifestScene>::empty());
        }
        let mut msg = "scene missing from the manifest: ".to_owned();
        msg.append(name);
        Err(ApiError::NotFound(msg))
    }
}

/// The pair of package and scene name a reference resolves to, or nothing
/// for a malformed bare string.
pub open spec fn resolved_ref(default_crate: Seq<char>, dep: ManifestDependency) -> Option<
    (Seq<char>, Seq<char>),
> {
    match dep {
        ManifestDependency::Implicit(value) => split_implicit_spec(default_crate, value@),
        ManifestDependency::Explicit { crate_name, scene_name } => Some((crate_name@, scene_name@)),
    }
}

impl ManifestApp {
    /// The replication registry url of a terminal app.
    pub fn replication_registry_url(&self) -> (r: Option<String>)
        ensures
            match self {
                ManifestApp::Wasm { replication_registry_url, .. } => r
                    == *replication_registry_url,
                _ => r is None,
            },
    {
        match self {
            ManifestApp::Implicit(_) => None,
            ManifestApp::Explicit { .. } => None,
            ManifestApp::Wasm { replication_registry_url, .. } => clone_opt(
                replication_registry_url,
            ),
        }
    }

    /// The type registry url of a terminal app.
    pub fn type_registry_url(&self) -> (r: Option<String>)
        ensures
            match self {
                ManifestApp::Wasm { type_registry_url, .. } => r == *type_registry_url,
                _ => r is None,
            },
    {
        match self {
            ManifestApp::Implicit(_) => None,
            ManifestApp::Explicit { .. } => None,
            ManifestApp::Wasm { type_registry_url, .. } => clone_opt(type_registry_url),
        }
    }

    /// The canvas id of a terminal app.
    pub fn canvas_id(&self) -> (r: Option<String>)
        ensures
            match self {
                ManifestApp::Wasm { canvas_id, .. } => r == *canvas_id,
                _ => r is None,
            },
    {
        match self {
            ManifestApp::Implicit(_) => None,
            ManifestApp::Explicit { .. } => None,
            ManifestApp::Wasm { canvas_id, .. } => clone_opt(canvas_id),
        }
    }

    /// Normalize a referencing app to a `(package, scene)` pair.  A terminal
    /// app is not a reference and is rejected as malformed input.
    pub fn into_crate_and_scene(&self, default_crate_name: &str) -> (r: Result<
        (String, String),
        ApiError,
    >)
        ensures
            match r {
                Ok(p) => match self {
                    ManifestApp::Implicit(value) => split_implicit_spec(
                        default_crate_name@,
                        value@,
                    ) == Some((p.0@, p.1@)),
                    ManifestApp::Explicit { crate_name, scene_name } => p.0@ == crate_name@
                        && p.1@ == scene_name@,
                    ManifestApp::Wasm { .. } => false,
                },
                Err(e) => match self {
                    ManifestApp::Implicit(value) => split_implicit_spec(
                        default_crate_name@,
                        value@,
                    ) is None && e is Input,
                    ManifestApp::Explicit { .. } => false,
                    ManifestApp::Wasm { .. } => e is Input,
                },
            },
    {
        match self {
            ManifestApp::Implicit(value) => split_implicit_path(default_crate_name, value.as_str()),
            ManifestApp::Explicit { crate_name, scene_name } => Ok(
                (crate_name.clone(), scene_name.clone()),
            ),
            ManifestApp::Wasm { .. } => Err(
                ApiError::Input("a terminal app does not name a crate and scene".to_owned()),
            ),
        }
    }
}

/// The first lockfile entry of a name, front to back.
pub open spec fn lock_entry(s: Seq<CargoLockPackage>, name: Seq<char>) -> Option<CargoLockPackage>
    decreases s.len(),
{
    if s.len() == 0 {
        None
    } else if s[0].name@ == name {
        Some(s[0])
    } else {
        lock_entry(s.skip(1), name)
    }
}

impl CargoLock {
    /// The pinned identity of a dependency: its name paired with the exact
    /// version the first lockfile entry of that name resolved.  A missing
    /// entry is a not-found error ("unresolved dependency"); a version text
    /// that is not a semantic version is an input error.
    pub fn crate_id(&self, name: &str) -> (r: Result<CrateId, ApiError>)
        ensures
            match (r, lock_entry(self.package@, name@)) {
                (Ok(c), Some(entry)) => c@.name == name@ && crate::version::parse_version_view(
                    entry.version@,
                ) == Some(c@.version),
                (Err(e), Some(entry)) => e is Input && crate::version::parse_version_view(
                    entry.version@,
                ) is None,
                (Err(e), None) => e is NotFound,
                (Ok(_), None) => false,
            },
    {
        let n = self.package.len();
        let mut i: usize = 0;
        proof {
            assert(self.package@.skip(0) =~= self.package@);
        }
        while i < n
            invariant
                i <= n,
                n == self.package@.len(),
                lock_entry(self.package@, name@) == lock_entry(
                    self.package@.skip(i as int),
                    name@,
                ),
            decreases n - i,
        {
            proof {
                let sa = self.package@.skip(i as int);
                assert(sa[0] == self.package@[i as int]);
                assert(sa.skip(1) =~= self.package@.skip(i + 1));
            }
            if crate::text::str_eq(self.package[i].name.as_str(), name) {
                match Version::parse(self.package[i].version.as_str()) {
                    Some(version) => {
                        return Ok(CrateId::new(name.to_owned(), version));
                    },
                    None => {
                        let mut msg = "unparsable version in the lockfile for: ".to_owned();
                        msg.append(name);
                        return Err(ApiError::Input(msg));
                    },
                }
            }
            i = i + 1;
        }
        proof {
            assert(self.package@.skip(n as int) =~= Seq::<CargoLockPackage>::empty());
        }
        let mut msg = "missing dependency in the lockfile: ".to_owned();
        msg.append(name);
        Err(ApiError::NotFound(msg))
    }
}

} // verus!
