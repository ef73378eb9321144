//! The resolved form of a scene app declared in a manifest.

use crate::scene_id::{SceneId, SceneIdView};
use crate::text::opt_chars;
use vstd::prelude::*;

verus! {

/// Mathematical model of a runnable binary.
pub enum BevyBinaryView {
    Wasm {
        scene_id: SceneIdView,
        js_url: Seq<char>,
        wasm_url: Seq<char>,
        canvas_id: Option<Seq<char>>,
    },
}

/// A runnable binary; currently one kind, a web-runnable one.
#[derive(Debug)]
pub enum BevyBinary {
    Wasm {
        /// Id of the scene this app belongs to.
        scene_id: SceneId,
        /// Location of the main script file.
        js_url: String,
        /// Location of the binary file.
        wasm_url: String,
        /// The canvas id that this app expects to render to.
        canvas_id: Option<String>,
    },
}

impl View for BevyBinary {
    type V = BevyBinaryView;

    open spec fn view(&self) -> BevyBinaryView {
        match self {
            BevyBinary::Wasm { scene_id, js_url, wasm_url, canvas_id } => BevyBinaryView::Wasm {
                scene_id: scene_id@,
                js_url: js_url@,
                wasm_url: wasm_url@,
                canvas_id: opt_chars(*canvas_id),
            },
        }
    }
}

impl Clone for BevyBinary {
    /// A clone carries the same model.
    fn clone(&self) -> (r: Self)
        ensures
            r@ == self@,
    {
        match self {
            BevyBinary::Wasm { scene_id, js_url, wasm_url, canvas_id } => BevyBinary::Wasm {
                scene_id: scene_id.clone(),
                js_url: js_url.clone(),
                wasm_url: wasm_url.clone(),
                canvas_id: crate::manifest::clone_opt(canvas_id),
            },
        }
    }
}

/// Mathematical model of a resolved app.
pub struct SceneAppView {
    pub binary: BevyBinaryView,
    pub replication_registry_url: Option<Seq<char>>,
    pub type_registry_url: Option<Seq<char>>,
}

/// A resolved form of a scene app declared in a manifest.
#[derive(Debug)]
pub struct SceneApp {
    pub binary: BevyBinary,
    pub replication_registry_url: Option<String>,
    pub type_registry_url: Option<String>,
}

impl View for SceneApp {
    type V = SceneAppView;

    open spec fn view(&self) -> SceneAppView {
        SceneAppView {
            binary: self.binary@,
            replication_registry_url: opt_chars(self.replication_registry_url),
            type_registry_url: opt_chars(self.type_registry_url),
        }
    }
}

impl Clone for SceneApp {
    /// A clone carries the same model.
    fn clone(&self) -> (r: Self)
        ensures
            r@ == self@,
    {
        SceneApp {
            binary: self.binary.clone(),
            replication_registry_url: crate::manifest::clone_opt(&self.replication_registry_url),
            type_registry_url: crate::manifest::clone_opt(&self.type_registry_url),
        }
    }
}

} // verus!
