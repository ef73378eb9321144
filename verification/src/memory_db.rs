//! The in-memory document database: one collection of scene documents and
//! one of package documents.

use crate::crate_doc::CrateDoc;
use crate::memory_collection::MemoryCollection;
use crate::scene_doc::SceneDoc;
use vstd::prelude::*;

verus! {

/// The process-local document database.
pub struct MemoryDb {
    pub scenes: MemoryCollection<SceneDoc>,
    pub crates: MemoryCollection<CrateDoc>,
}

/// Every stored scene document's key follows its scene identity.
pub open spec fn scenes_keyed(s: Seq<SceneDoc>) -> bool {
    forall|i: int| 0 <= i < s.len() ==> (#[trigger] s[i]).wf()
}

/// Every stored package document's key follows its package identity.
pub open spec fn crates_keyed(s: Seq<CrateDoc>) -> bool {
    forall|i: int| 0 <= i < s.len() ==> (#[trigger] s[i]).wf()
}

impl MemoryDb {
    /// Both collections hold each key at most once, and every stored
    /// document's key follows its own identity.
    pub open spec fn wf(&self) -> bool {
        &&& self.scenes.wf()
        &&& self.crates.wf()
        &&& scenes_keyed(self.scenes@)
        &&& crates_keyed(self.crates@)
    }

    /// An empty database.
    pub fn new() -> (r: Self)
        ensures
            r.wf(),
            r.scenes@.len() == 0,
            r.crates@.len() == 0,
    {
        MemoryDb {
            scenes: MemoryCollection::new("scenes".to_owned()),
            crates: MemoryCollection::new("crates".to_owned()),
        }
    }

    /// The scene collection.
    pub fn scenes(&self) -> (r: &MemoryCollection<SceneDoc>)
        ensures
            r == &self.scenes,
    {
        &self.scenes
    }

    /// The package collection.
    pub fn crates(&self) -> (r: &MemoryCollection<CrateDoc>)
        ensures
            r == &self.crates,
    {
        &self.crates
    }

    /// Empty both collections; be careful.
    pub fn clear(&mut self)
        ensures
            final(self).wf(),
            final(self).scenes@.len() == 0,
            final(self).crates@.len() == 0,
    {
        self.scenes.clear();
        self.crates.clear();
    }
}

} // verus!
