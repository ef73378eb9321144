//! The latest-flag reconciler.
//!
//! Invariant to re-establish after materializing a package: exactly the
//! scenes belonging to the package name's current newest version carry
//! `is_latest`, no others.  The sweep only ever moves toward the
//! invariant: it flips stale flags off and missing flags on, in one batch,
//! and changes nothing else.

use crate::crate_id::CrateId;
use crate::doc_id::HasDocId;
use crate::error::ApiError;
use crate::memory_collection::{
    key_lookup,
    lemma_batch_found,
    lemma_batch_none_iff,
    lemma_key_lookup_exists,
    lemma_key_lookup_index,
};
use crate::registry::{is_latest_of, listed_version_texts};
use crate::scene_doc::{SceneDoc, SceneDocView};
use crate::services::Services;
use crate::version::VersionView;
use vstd::prelude::*;

verus! {

/// The flag a stored scene should carry once the package name's newest
/// version is `lv`: scenes of that name are flagged exactly on the newest
/// version; other packages' scenes keep their flag.
pub open spec fn reconciled_flag(o: SceneDocView, name: Seq<char>, lv: VersionView) -> bool {
    if o.scene_id.crate_id.name == name {
        o.scene_id.crate_id.version == lv
    } else {
        o.is_latest
    }
}

/// A stored scene the sweep must flip: one of the package name whose flag
/// disagrees with the newest version.
pub open spec fn needs_flip(o: SceneDocView, name: Seq<char>, lv: VersionView) -> bool {
    o.is_latest != reconciled_flag(o, name, lv)
}

impl Services {
    /// Re-establish the latest-flag invariant for a package name: after
    /// the sweep, each stored scene of that name carries the flag exactly
    /// when its version is the registry's newest, no other scene changes,
    /// and nothing but flags changes.  A package name without a usable
    /// newest version leaves the database untouched.
    pub fn set_latest_scenes_in_db(&mut self, crate_id: &CrateId) -> (r: Result<(), ApiError>)
        requires
            old(self).wf(),
        ensures
            final(self).wf(),
            final(self).storage == old(self).storage,
            final(self).registry == old(self).registry,
            final(self).fetches == old(self).fetches,
            final(self).db.crates == old(self).db.crates,
            match r {
                Ok(()) => exists|lv: VersionView|
                    {
                        &&& #[trigger] is_latest_of(
                            listed_version_texts(
                                old(self).registry.index_view(),
                                crate_id@.name,
                            ),
                            lv,
                        )
                        &&& forall|k: Seq<char>|
                            #![trigger key_lookup(final(self).db.scenes@, k)]
                            match (
                                key_lookup(old(self).db.scenes@, k),
                                key_lookup(final(self).db.scenes@, k),
                            ) {
                                (None, None) => true,
                                (Some(o), Some(p)) => p@ == (SceneDocView {
                                    is_latest: reconciled_flag(o@, crate_id@.name, lv),
                                    ..o@
                                }),
                                _ => false,
                            }
                    },
                Err(e) => (e is NotFound || e is Input) && final(self).db == old(self).db
                    && !crate::registry::registry_has_latest(
                    old(self).registry.index_view(),
                    crate_id@.name,
                ),
            },
            crate::registry::registry_has_latest(old(self).registry.index_view(), crate_id@.name)
                ==> r is Ok,
    {
        let latest = match self.registry.latest_version(crate_id.name.as_str()) {
            Ok(v) => v,
            Err(e) => {
                return Err(e);
            },
        };
        let ghost lv = latest@;
        let ghost pre = self.db.scenes@;
        let ghost name = crate_id@.name;
        let n = self.db.scenes.doc_count();
        let mut flips: Vec<SceneDoc> = Vec::new();
        let ghost mut srcs: Seq<int> = Seq::empty();
        let mut i: usize = 0;
        while i < n
            invariant
                i <= n,
                n == pre.len(),
                pre == self.db.scenes@,
                self.db.scenes.wf(),
                lv == latest@,
                name == crate_id@.name,
                srcs.len() == flips@.len(),
                forall|t: int| 0 <= t < srcs.len() ==> 0 <= #[trigger] srcs[t] < i,
                forall|t1: int, t2: int| 0 <= t1 < t2 < srcs.len() ==> srcs[t1] < srcs[t2],
                forall|t: int| #![auto]
                    0 <= t < flips@.len() ==> needs_flip(pre[srcs[t]]@, name, lv) && flips@[t]@
                        == (SceneDocView {
                        is_latest: reconciled_flag(pre[srcs[t]]@, name, lv),
                        ..pre[srcs[t]]@
                    }),
                forall|j: int|
                    0 <= j < i && needs_flip((#[trigger] pre[j])@, name, lv) ==> exists|t: int|
                        0 <= t < srcs.len() && #[trigger] srcs[t] == j,
            decreases n - i,
        {
            let ghost srcs0 = srcs;
            let doc = self.db.scenes.doc_at(i);
            let name_match = crate::text::str_eq(
                doc.scene_id_ref().crate_name(),
                crate_id.name.as_str(),
            );
            let mut flipped = false;
            if name_match {
                let should = doc.scene_id_ref().version().same_as(&latest);
                if doc.latest_flag() != should {
                    let mut fixed = doc.clone();
                    fixed.set_latest(should);
                    flips.push(fixed);
                    flipped = true;
                    proof {
                        srcs = srcs.push(i as int);
                    }
                }
            }
            proof {
                if !flipped {
                    assert(!needs_flip(pre[i as int]@, name, lv));
                }
                assert forall|j: int|
                    0 <= j < i + 1 && needs_flip((#[trigger] pre[j])@, name, lv) implies exists|
                    t: int,
                |
                    0 <= t < srcs.len() && #[trigger] srcs[t] == j by {
                    if j == i {
                        assert(srcs[srcs.len() - 1] == i);
                    } else {
                        let t0 = choose|t0: int|
                            0 <= t0 < srcs0.len() && #[trigger] srcs0[t0] == j;
                        assert(srcs[t0] == j);
                    }
                }
            }
            i = i + 1;
        }
        proof {
            // the flips carry pairwise different keys, inherited from the
            // collection's own uniqueness
            assert forall|t1: int, t2: int| 0 <= t1 < t2 < flips@.len() implies (
            #[trigger] flips@[t1]).key_spec() != (#[trigger] flips@[t2]).key_spec() by {
                assert(srcs[t1] < srcs[t2]);
                assert(pre[srcs[t1]].key_spec() != pre[srcs[t2]].key_spec());
            }
        }
        let ghost fl = flips@;
        let _ = self.db.scenes.insert_many(flips);
        proof {
            assert forall|k: Seq<char>|
                #![trigger key_lookup(final(self).db.scenes@, k)]
                match (key_lookup(pre, k), key_lookup(final(self).db.scenes@, k)) {
                    (None, None) => true,
                    (Some(o), Some(p)) => p@ == (SceneDocView {
                        is_latest: reconciled_flag(o@, name, lv),
                        ..o@
                    }),
                    _ => false,
                } by {
                lemma_batch_none_iff(fl, k);
                if exists|t: int| 0 <= t < fl.len() && (#[trigger] fl[t]).key_spec() == k {
                    let t = choose|t: int|
                        0 <= t < fl.len() && (#[trigger] fl[t]).key_spec() == k;
                    lemma_batch_found(fl, t);
                    lemma_key_lookup_index(pre, srcs[t]);
                    assert(pre[srcs[t]].key_spec() == k);
                    assert(key_lookup(pre, k) == Some(pre[srcs[t]]));
                } else {
                    assert(batch_key_lookup_is_none(fl, k));
                    if key_lookup(pre, k) is Some {
                        lemma_key_lookup_exists(pre, k);
                        let j = choose|j: int|
                            0 <= j < pre.len() && (#[trigger] pre[j]) == key_lookup(
                                pre,
                                k,
                            )->Some_0 && pre[j].key_spec() == k;
                        if needs_flip(pre[j]@, name, lv) {
                            let t = choose|t: int|
                                0 <= t < srcs.len() && #[trigger] srcs[t] == j;
                            assert(fl[t].key_spec() == pre[j]@.key);
                            assert(false);
                        }
                        assert(pre[j]@.is_latest == reconciled_flag(pre[j]@, name, lv));
                        assert(pre[j]@ == (SceneDocView {
                            is_latest: reconciled_flag(pre[j]@, name, lv),
                            ..pre[j]@
                        }));
                    }
                }
            }
        }
        Ok(())
    }
}

/// The batch assigns nothing to the key.
pub open spec fn batch_key_lookup_is_none(vs: Seq<SceneDoc>, k: Seq<char>) -> bool {
    crate::memory_collection::batch_key_lookup(vs, k) is None
}

} // verus!
