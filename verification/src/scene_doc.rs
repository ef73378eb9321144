//! The stored document of a scene.

use crate::doc_id::{DocId, HasDocId};
use crate::include_tree::{IncludeTreeView, SceneIncludeTree};
use crate::manifest::ManifestScene;
use crate::replication::{ReplicationConfig, ReplicationView};
use crate::scene_app::{SceneApp, SceneAppView};
use crate::scene_id::{SceneId, SceneIdView, scene_doc_key};
use crate::text::opt_chars;
use vstd::prelude::*;

verus! {

/// Mathematical model of a thumbnail.
pub enum SceneThumbView {
    Url(Seq<char>),
    Text(Seq<char>),
}

/// A scene's thumbnail: a url, or some filler text.
#[derive(Debug)]
pub enum SceneThumb {
    Url { url: String },
    Text { text: String },
}

impl View for SceneThumb {
    type V = SceneThumbView;

    open spec fn view(&self) -> SceneThumbView {
        match self {
            SceneThumb::Url { url } => SceneThumbView::Url(url@),
            SceneThumb::Text { text } => SceneThumbView::Text(text@),
        }
    }
}

impl Clone for SceneThumb {
    /// A clone carries the same model.
    fn clone(&self) -> (r: Self)
        ensures
            r@ == self@,
    {
        match self {
            SceneThumb::Url { url } => SceneThumb::Url { url: url.clone() },
            SceneThumb::Text { text } => SceneThumb::Text { text: text.clone() },
        }
    }
}

/// The fixed filler texts one of which stands in for a missing thumbnail.
pub open spec fn filler_thumb_texts() -> Seq<Seq<char>> {
    seq![
        "\u{1F308}"@,
        "\u{1F31F}"@,
        "\u{1F389}"@,
        "\u{1F3A8}"@,
        "\u{1F680}"@,
        "\u{1F30C}"@,
        "\u{1F31E}"@,
        "\u{1F30A}"@,
        "\u{1F338}"@,
        "\u{1F33B}"@,
    ]
}

/// Relies on `rand::random_range`: yields a value inside the given
/// non-empty range, from the thread-local generator.
#[verifier::external_body]
fn random_below(n: usize) -> (r: usize)
    requires
        n > 0,
    ensures
        r < n,
{
    rand::random_range(0..n)
}

/// One of the fixed filler texts.
fn filler_thumb_text(i: usize) -> (r: &'static str)
    requires
        i < 10,
    ensures
        r@ == filler_thumb_texts()[i as int],
{
    let r: &'static str = if i == 0 {
        "\u{1F308}"
    } else if i == 1 {
        "\u{1F31F}"
    } else if i == 2 {
        "\u{1F389}"
    } else if i == 3 {
        "\u{1F3A8}"
    } else if i == 4 {
        "\u{1F680}"
    } else if i == 5 {
        "\u{1F30C}"
    } else if i == 6 {
        "\u{1F31E}"
    } else if i == 7 {
        "\u{1F30A}"
    } else if i == 8 {
        "\u{1F338}"
    } else {
        "\u{1F33B}"
    };
    r
}

/// What a resolved thumbnail may be: the explicit url wins, then the
/// explicit text, else one of the fixed filler texts; any uniform pick is
/// acceptable.
pub open spec fn thumb_matches(scene: ManifestScene, t: SceneThumbView) -> bool {
    match scene.thumb_url {
        Some(url) => t == SceneThumbView::Url(url@),
        None => match scene.thumb_text {
            Some(text) => t == SceneThumbView::Text(text@),
            None => exists|i: int|
                0 <= i < 10 && t == SceneThumbView::Text(#[trigger] filler_thumb_texts()[i]),
        },
    }
}

impl SceneThumb {
    /// Resolve a scene's thumbnail: an explicit url wins, then explicit
    /// text, else one of the fixed filler texts is picked; any uniform pick
    /// is acceptable.
    pub fn from_manifest(manifest: &ManifestScene) -> (r: SceneThumb)
        ensures
            thumb_matches(*manifest, r@),
    {
        if let Some(url) = &manifest.thumb_url {
            return SceneThumb::Url { url: url.clone() };
        }
        if let Some(text) = &manifest.thumb_text {
            return SceneThumb::Text { text: text.clone() };
        }
        let i = random_below(10);
        let text = filler_thumb_text(i).to_owned();
        proof {
            assert(text@ == filler_thumb_texts()[i as int]);
        }
        SceneThumb::Text { text }
    }
}

/// Mathematical model of a scene document.
pub struct SceneDocView {
    pub key: Seq<char>,
    pub scene_id: SceneIdView,
    pub description: Seq<char>,
    pub created_ms: u64,
    pub thumbnail: SceneThumbView,
    pub tree: IncludeTreeView,
    pub app: Option<SceneAppView>,
    pub repository: Option<Seq<char>>,
    pub is_latest: bool,
    pub replication: ReplicationView,
}

/// A scene document held in the document store.  Only `is_latest` ever
/// changes after construction; the reconciler flips it.
#[derive(Debug)]
pub struct SceneDoc {
    /// The stored key, derived from the scene identity.
    pub id: DocId,
    /// The package name, package version and scene name.
    pub scene_id: SceneId,
    /// The scene description, the package description, or generated text.
    pub description: String,
    /// Epoch timestamp in milliseconds.
    pub created_ms: u64,
    /// The thumbnail.
    pub thumbnail: SceneThumb,
    /// Tree of scenes to pull in.
    pub scene_include_tree: SceneIncludeTree,
    /// The resolved app, if the scene declares one.
    pub app: Option<SceneApp>,
    /// Link to a repository, if the package declares one.
    pub repository: Option<String>,
    /// Whether this scene belongs to the newest version of its package;
    /// starts false, kept by the reconciler.
    pub is_latest: bool,
    pub replication_config: ReplicationConfig,
}

impl View for SceneDoc {
    type V = SceneDocView;

    open spec fn view(&self) -> SceneDocView {
        SceneDocView {
            key: self.id@,
            scene_id: self.scene_id@,
            description: self.description@,
            created_ms: self.created_ms,
            thumbnail: self.thumbnail@,
            tree: self.scene_include_tree@,
            app: match self.app {
                Some(a) => Some(a@),
                None => None,
            },
            repository: opt_chars(self.repository),
            is_latest: self.is_latest,
            replication: self.replication_config@,
        }
    }
}

impl HasDocId for SceneDoc {
    open spec fn key_spec(&self) -> Seq<char> {
        self@.key
    }

    fn doc_id(&self) -> (r: DocId) {
        self.id.clone()
    }
}

impl Clone for SceneDoc {
    /// A clone carries the same model.
    fn clone(&self) -> (r: Self)
        ensures
            r@ == self@,
    {
        SceneDoc {
            id: self.id.clone(),
            scene_id: self.scene_id.clone(),
            description: self.description.clone(),
            created_ms: self.created_ms,
            thumbnail: self.thumbnail.clone(),
            scene_include_tree: self.scene_include_tree.clone(),
            app: match &self.app {
                Some(a) => Some(a.clone()),
                None => None,
            },
            repository: crate::manifest::clone_opt(&self.repository),
            is_latest: self.is_latest,
            replication_config: self.replication_config.clone(),
        }
    }
}

impl SceneDoc {
    /// Assemble a scene document from its resolved parts.  The key is
    /// derived from the scene identity and the latest flag starts false.
    pub fn assemble(
        scene_id: SceneId,
        description: String,
        created_ms: u64,
        thumbnail: SceneThumb,
        tree: SceneIncludeTree,
        app: Option<SceneApp>,
        repository: Option<String>,
        replication_config: ReplicationConfig,
    ) -> (r: SceneDoc)
        ensures
            r@.key == scene_doc_key(scene_id@),
            r@.scene_id == scene_id@,
            r@.description == description@,
            r@.created_ms == created_ms,
            r@.thumbnail == thumbnail@,
            r@.tree == tree@,
            r@.app == match app {
                Some(a) => Some(a@),
                None => None,
            },
            r@.repository == opt_chars(repository),
            r@.is_latest == false,
            r@.replication == replication_config@,
    {
        let id = scene_id.into_doc_id();
        SceneDoc {
            id,
            scene_id,
            description,
            created_ms,
            thumbnail,
            scene_include_tree: tree,
            app,
            repository,
            is_latest: false,
            replication_config,
        }
    }

    /// The scene's identity.
    pub fn scene_id_ref(&self) -> (r: &SceneId)
        ensures
            r@ == self@.scene_id,
    {
        &self.scene_id
    }

    /// The include tree.
    pub fn include_tree_ref(&self) -> (r: &SceneIncludeTree)
        ensures
            r@ == self@.tree,
    {
        &self.scene_include_tree
    }

    /// The resolved app, if any.
    pub fn app_ref(&self) -> (r: &Option<SceneApp>)
        ensures
            match r {
                Some(a) => self@.app == Some(a@),
                None => self@.app is None,
            },
    {
        &self.app
    }

    /// Whether the scene belongs to its package's newest version.
    pub fn latest_flag(&self) -> (r: bool)
        ensures
            r == self@.is_latest,
    {
        self.is_latest
    }

    /// The document's key always follows its scene identity.
    pub open spec fn wf(&self) -> bool {
        self@.key == scene_doc_key(self@.scene_id)
    }

    /// Flip the latest flag; everything else stays.
    pub fn set_latest(&mut self, is_latest: bool)
        ensures
            final(self)@ == (SceneDocView { is_latest, ..old(self)@ }),
    {
        self.is_latest = is_latest;
    }
}

} // verus!
