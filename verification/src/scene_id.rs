//! Scene identities.

use crate::crate_id::{CrateId, CrateIdView, crate_path_chars};
use crate::doc_id::DocId;
use crate::version::{Version, version_chars};
use vstd::prelude::*;

verus! {

/// Mathematical model of a scene identity.
pub struct SceneIdView {
    pub crate_id: CrateIdView,
    pub scene_name: Seq<char>,
}

/// A specified name and version of a scene.
#[derive(Debug)]
pub struct SceneId {
    /// The package that this scene belongs to.
    pub crate_id: CrateId,
    /// The name of the scene.
    pub scene_name: String,
}

impl View for SceneId {
    type V = SceneIdView;

    open spec fn view(&self) -> SceneIdView {
        SceneIdView { crate_id: self.crate_id@, scene_name: self.scene_name@ }
    }
}

/// The canonical path of a scene: `name/version/scene_name`.
pub open spec fn scene_path_chars(s: SceneIdView) -> Seq<char> {
    crate_path_chars(s.crate_id) + seq!['/'] + s.scene_name
}

/// The canonical document key of a scene:
/// `registry/name/scene_name/version`.
pub open spec fn scene_doc_key(s: SceneIdView) -> Seq<char> {
    "registry/"@ + s.crate_id.name + seq!['/'] + s.scene_name + seq!['/'] + version_chars(
        s.crate_id.version,
    )
}

impl Clone for SceneId {
    /// A clone carries the same model.
    fn clone(&self) -> (r: Self)
        ensures
            r@ == self@,
    {
        SceneId { crate_id: self.crate_id.clone(), scene_name: self.scene_name.clone() }
    }
}

impl SceneId {
    /// Pair a package identity with a scene name.
    pub fn new(crate_id: CrateId, scene_name: String) -> (r: Self)
        ensures
            r@.crate_id == crate_id@,
            r@.scene_name == scene_name@,
    {
        SceneId { crate_id, scene_name }
    }

    /// Build from a package name, a version and a scene name.
    pub fn with_crate_name(crate_name: String, version: Version, scene_name: String) -> (r: Self)
        ensures
            r@.crate_id.name == crate_name@,
            r@.crate_id.version == version@,
            r@.scene_name == scene_name@,
    {
        SceneId::new(CrateId::new(crate_name, version), scene_name)
    }

    /// Build from `{crate_name}, {scene_name}, {version}`.
    pub fn from_parts(crate_name: String, scene_name: String, version: Version) -> (r: Self)
        ensures
            r@.crate_id.name == crate_name@,
            r@.crate_id.version == version@,
            r@.scene_name == scene_name@,
    {
        SceneId::new(CrateId::new(crate_name, version), scene_name)
    }

    /// The scene's name.
    pub fn scene_name(&self) -> (r: &str)
        ensures
            r@ == self@.scene_name,
    {
        self.scene_name.as_str()
    }

    /// The owning package's identity.
    pub fn crate_id(&self) -> (r: &CrateId)
        ensures
            r@ == self@.crate_id,
    {
        &self.crate_id
    }

    /// The owning package's name.
    pub fn crate_name(&self) -> (r: &str)
        ensures
            r@ == self@.crate_id.name,
    {
        self.crate_id.name.as_str()
    }

    /// The owning package's version.
    pub fn version(&self) -> (r: &Version)
        ensures
            r@ == self@.crate_id.version,
    {
        &self.crate_id.version
    }

    /// The two identities hold the same model.
    pub fn same_as(&self, other: &SceneId) -> (r: bool)
        ensures
            r == (self@ == other@),
    {
        self.crate_id.same_as(&other.crate_id) && self.scene_name == other.scene_name
    }

    /// The canonical path string, `crate_name/version/scene_name`.
    pub fn path(&self) -> (r: String)
        ensures
            r@ == scene_path_chars(self@),
    {
        proof {
            reveal_strlit("/");
        }
        let mut out = self.crate_id.path();
        out.append("/");
        out.append(self.scene_name.as_str());
        proof {
            assert(out@ =~= scene_path_chars(self@));
        }
        out
    }

    /// The canonical document key, `registry/crate_name/scene_name/version`.
    pub fn into_doc_id(&self) -> (r: DocId)
        ensures
            r@ == scene_doc_key(self@),
    {
        proof {
            reveal_strlit("registry/");
            reveal_strlit("/");
        }
        let mut out = "registry/".to_owned();
        out.append(self.crate_id.name.as_str());
        out.append("/");
        out.append(self.scene_name.as_str());
        out.append("/");
        let vtext = self.crate_id.version.to_text();
        out.append(vtext.as_str());
        proof {
            assert(out@ =~= scene_doc_key(self@));
        }
        DocId::new(out)
    }
}

} // verus!
