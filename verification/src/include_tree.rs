//! Scene files and the tree of scenes a scene pulls in.
//!
//! The tree is fully expanded and denormalized: children are complete
//! subtrees, never references, so a dependent package's tree can be read
//! without touching the dependency again.

use crate::error::ApiError;
use crate::manifest::ManifestScene;
use crate::scene_id::{SceneId, SceneIdView};
use crate::text::{rfind_char, lemma_rfind_char, str_rfind_char_plus_one, str_eq};
use vstd::prelude::*;

verus! {

/// Mathematical model of a scene file reference.
pub enum SceneFileView {
    Json(Seq<char>),
    Ron(Seq<char>),
    Bsn(Seq<char>),
    InlineJson(Seq<char>),
}

/// Where a scene's content lives: a path to a JSON, RON or binary scene
/// file, or an inline JSON string.
#[derive(Debug)]
pub enum SceneFile {
    Json { path: String },
    Ron { path: String },
    Bsn {
        /// Path relative to the published package root.
        path: String,
    },
    InlineJson { json: String },
}

impl View for SceneFile {
    type V = SceneFileView;

    open spec fn view(&self) -> SceneFileView {
        match self {
            SceneFile::Json { path } => SceneFileView::Json(path@),
            SceneFile::Ron { path } => SceneFileView::Ron(path@),
            SceneFile::Bsn { path } => SceneFileView::Bsn(path@),
            SceneFile::InlineJson { json } => SceneFileView::InlineJson(json@),
        }
    }
}

impl Clone for SceneFile {
    /// A clone carries the same model.
    fn clone(&self) -> (r: Self)
        ensures
            r@ == self@,
    {
        match self {
            SceneFile::Json { path } => SceneFile::Json { path: path.clone() },
            SceneFile::Ron { path } => SceneFile::Ron { path: path.clone() },
            SceneFile::Bsn { path } => SceneFile::Bsn { path: path.clone() },
            SceneFile::InlineJson { json } => SceneFile::InlineJson { json: json.clone() },
        }
    }
}

/// The extension of a path: everything after the last dot, or the whole
/// path if it has none.
pub open spec fn path_extension(p: Seq<char>) -> Seq<char> {
    p.skip(rfind_char(p, '.') + 1)
}

/// The default scene file path, `scenes/{name}.json`.
pub open spec fn default_scene_path(name: Seq<char>) -> Seq<char> {
    "scenes/"@ + name + ".json"@
}

/// What a scene declaration's file reference resolves to: inline JSON wins
/// and is carried through exactly; an explicit path is classified by its
/// extension; without either, the conventional path is used.  An explicit
/// path with an unrecognized extension is malformed input.
pub open spec fn scene_file_spec(m: ManifestScene) -> Option<SceneFileView> {
    match m.scene_json {
        Some(j) => Some(SceneFileView::InlineJson(j@)),
        None => match m.path {
            Some(p) => {
                let ext = path_extension(p@);
                if ext == "json"@ {
                    Some(SceneFileView::Json(p@))
                } else if ext == "ron"@ {
                    Some(SceneFileView::Ron(p@))
                } else if ext == "bsn"@ {
                    Some(SceneFileView::Bsn(p@))
                } else {
                    None
                }
            },
            None => Some(SceneFileView::Json(default_scene_path(m.name@))),
        },
    }
}

impl SceneFile {
    /// Resolve a scene declaration's file reference.  An inline JSON string
    /// round-trips exactly; an unrecognized extension is rejected.
    pub fn from_manifest(manifest: &ManifestScene) -> (r: Result<SceneFile, ApiError>)
        ensures
            match r {
                Ok(f) => scene_file_spec(*manifest) == Some(f@),
                Err(e) => scene_file_spec(*manifest) is None && e is Input,
            },
    {
        if let Some(scene_json) = &manifest.scene_json {
            return Ok(SceneFile::InlineJson { json: scene_json.clone() });
        }
        if let Some(path) = &manifest.path {
            proof {
                lemma_rfind_char(path@, '.');
            }
            let n = path.as_str().unicode_len();
            let start = str_rfind_char_plus_one(path.as_str(), '.');
            let ext = path.as_str().substring_char(start, n);
            proof {
                assert(ext@ == path_extension(path@));
            }
            return if str_eq(ext, "json") {
                Ok(SceneFile::Json { path: path.clone() })
            } else if str_eq(ext, "ron") {
                Ok(SceneFile::Ron { path: path.clone() })
            } else if str_eq(ext, "bsn") {
                Ok(SceneFile::Bsn { path: path.clone() })
            } else {
                let mut msg = "unrecognized scene file extension: ".to_owned();
                msg.append(path.as_str());
                Err(ApiError::Input(msg))
            };
        }
        proof {
            reveal_strlit("scenes/");
            reveal_strlit(".json");
        }
        let mut p = "scenes/".to_owned();
        p.append(manifest.name.as_str());
        p.append(".json");
        proof {
            assert(p@ =~= default_scene_path(manifest.name@));
        }
        Ok(SceneFile::Json { path: p })
    }
}

/// Mathematical model of an include tree node.
pub struct IncludeTreeView {
    pub file: SceneFileView,
    pub scene_id: SceneIdView,
    pub children: Seq<IncludeTreeView>,
}

/// Tree of scenes to be pulled in, specifying exact versions and paths, a
/// bit like a lockfile.
#[derive(Debug)]
pub struct SceneIncludeTree {
    /// The file of the unpacked scene.
    pub file: SceneFile,
    pub scene_id: SceneId,
    pub children: Vec<SceneIncludeTree>,
}

/// The models of a node list.
pub open spec fn tree_views(v: Vec<SceneIncludeTree>) -> Seq<IncludeTreeView>
    decreases v,
{
    Seq::new(
        v@.len(),
        |i: int|
            if 0 <= i < v@.len() {
                tree_view(v@[i])
            } else {
                arbitrary()
            },
    )
}

/// The model of a tree node.
pub open spec fn tree_view(t: SceneIncludeTree) -> IncludeTreeView
    decreases t,
{
    IncludeTreeView { file: t.file@, scene_id: t.scene_id@, children: tree_views(t.children) }
}

impl View for SceneIncludeTree {
    type V = IncludeTreeView;

    open spec fn view(&self) -> IncludeTreeView {
        tree_view(*self)
    }
}

impl Clone for SceneIncludeTree {
    /// A clone carries the same model.
    fn clone(&self) -> (r: Self)
        ensures
            r@ == self@,
        decreases *self,
    {
        let mut children: Vec<SceneIncludeTree> = Vec::new();
        let n = self.children.len();
        let mut i: usize = 0;
        while i < n
            invariant
                i <= n,
                n == self.children@.len(),
                children@.len() == i,
                forall|j: int| 0 <= j < i ==> children@[j]@ == #[trigger] self.children@[j]@,
            decreases n - i,
        {
            let c = self.children[i].clone();
            children.push(c);
            i = i + 1;
        }
        let ghost cs = children@;
        let r = SceneIncludeTree {
            file: self.file.clone(),
            scene_id: self.scene_id.clone(),
            children,
        };
        proof {
            assert(r.children@ == cs);
            assert(r@.children.len() == n);
            assert(self@.children.len() == n);
            assert forall|j: int| 0 <= j < n implies r@.children[j] == self@.children[j] by {
                assert(cs[j]@ == self.children@[j]@);
                assert(r@.children[j] == tree_view(r.children@[j]));
                assert(self@.children[j] == tree_view(self.children@[j]));
            }
            assert(r@.children =~= self@.children);
        }
        r
    }
}

impl SceneIncludeTree {
    /// Assemble a node from its parts.
    pub fn new(scene_id: SceneId, scene: SceneFile, children: Vec<SceneIncludeTree>) -> (r: Self)
        ensures
            r@.scene_id == scene_id@,
            r@.file == scene@,
            r@.children == tree_views(children),
    {
        SceneIncludeTree { scene_id, file: scene, children }
    }
}

} // verus!
