//! The engine's service bundle — blob store, registry table and document
//! database — and the tarball materializer.
//!
//! Materialization is externally idempotent and carries no stored
//! "in progress" state: correctness comes from content-addressed paths.
//! The probe target is the package's canonical manifest object; when it is
//! present the package counts as materialized and nothing is fetched.

use crate::crate_id::{CrateId, CrateIdView, crate_path_chars};
use crate::error::ApiError;
use crate::memory_db::MemoryDb;
use crate::registry::LocalRegistry;
use crate::storage::{MemStorage, batch_lookup, lookup, unpkg_path, unpkg_path_chars};
use crate::text::{find_char, lemma_find_char, str_find_char};
use vstd::prelude::*;

verus! {

/// What the gzip-compressed tar archive holds: `None` where the bytes are
/// not such an archive, else its entries as path/content pairs, in archive
/// order.
pub uninterp spec fn archive_entries(bytes: Seq<u8>) -> Option<Seq<(Seq<char>, Seq<u8>)>>;

/// Relies on flate2's `GzDecoder` and tar's `Archive`: decodes the gzip
/// stream and lists the archive's entries as path/content pairs.  Paths
/// are read from the raw header bytes with lossy text conversion, so the
/// answer is the same function of the bytes on every build target.
#[verifier::external_body]
fn untar_gz(bytes: &Vec<u8>) -> (r: Option<Vec<(String, Vec<u8>)>>)
    ensures
        match (r, archive_entries(bytes@)) {
            (Some(v), Some(w)) => v@.map_values(
                |e: (String, Vec<u8>)| (e.0@, e.1@),
            ) == w,
            (None, None) => true,
            _ => false,
        },
{
    let decoder = flate2::read::GzDecoder::new(std::io::Cursor::new(bytes.as_slice()));
    let mut archive = tar::Archive::new(decoder);
    let mut out: Vec<(String, Vec<u8>)> = Vec::new();
    for entry in archive.entries().ok()? {
        let mut entry = entry.ok()?;
        let mut content: Vec<u8> = Vec::new();
        std::io::Read::read_to_end(&mut entry, &mut content).ok()?;
        let path = String::from_utf8_lossy(&entry.header().path_bytes()).to_string();
        out.push((path, content));
    }
    Some(out)
}

/// An archive path with its outermost directory component removed: the
/// registry convention wraps all files in a single `name-version/` root.
/// A path without a separator has nothing below the root.
pub open spec fn strip_root(p: Seq<char>) -> Seq<char> {
    let i = find_char(p, '/');
    if 0 <= i < p.len() {
        p.skip(i + 1)
    } else {
        Seq::empty()
    }
}

/// The store pairs an unpacked archive produces: each entry under the
/// package's canonical unpacked path.
pub open spec fn unpacked_pairs(c: CrateIdView, entries: Seq<(Seq<char>, Seq<u8>)>) -> Seq<
    (Seq<char>, Seq<u8>),
> {
    entries.map_values(|e: (Seq<char>, Seq<u8>)| (unpkg_path_chars(c, strip_root(e.0)), e.1))
}

/// The canonical unpacked path of a package's manifest object, the probe
/// target of materialization.
pub open spec fn manifest_object_path(c: CrateIdView) -> Seq<char> {
    unpkg_path_chars(c, "Cargo.toml"@)
}

/// Materialization is idempotent at the store level: applying one
/// version's unpacked batch to a store that already carries it changes
/// nothing — the same pairs land on the same keys with the same bytes, so
/// the contents after a second application equal the contents after the
/// first.
pub proof fn lemma_unpack_idempotent(
    before: Seq<(Seq<char>, Seq<u8>)>,
    once: Seq<(Seq<char>, Seq<u8>)>,
    twice: Seq<(Seq<char>, Seq<u8>)>,
    pairs: Seq<(Seq<char>, Seq<u8>)>,
)
    requires
        forall|k: Seq<char>| #![auto]
            lookup(once, k) == match batch_lookup(pairs, k) {
                Some(v) => Some(v),
                None => lookup(before, k),
            },
        forall|k: Seq<char>| #![auto]
            lookup(twice, k) == match batch_lookup(pairs, k) {
                Some(v) => Some(v),
                None => lookup(once, k),
            },
    ensures
        forall|k: Seq<char>| #![auto] lookup(twice, k) == lookup(once, k),
{
}

/// Materialization can provide the object: the package's tarball exists,
/// its bytes are an archive, and the unpacked batch assigns the path.
pub open spec fn unpack_provides(
    tarballs: Seq<(Seq<char>, Seq<u8>)>,
    c: CrateIdView,
    path: Seq<char>,
) -> bool {
    match lookup(tarballs, crate_path_chars(c)) {
        None => false,
        Some(tb) => match archive_entries(tb) {
            None => false,
            Some(es) => batch_lookup(unpacked_pairs(c, es), path) is Some,
        },
    }
}

/// Why materialization could not provide the object: no tarball for the
/// package (not found), bytes that are no archive (malformed input, never
/// retried), or an archive whose unpacked batch misses the path (not
/// found, never retried).
pub open spec fn unpack_read_failure(
    tarballs: Seq<(Seq<char>, Seq<u8>)>,
    c: CrateIdView,
    path: Seq<char>,
    e: ApiError,
) -> bool {
    match lookup(tarballs, crate_path_chars(c)) {
        None => e is NotFound,
        Some(tb) => match archive_entries(tb) {
            None => e is Input,
            Some(es) => e is NotFound && batch_lookup(unpacked_pairs(c, es), path) is None,
        },
    }
}

/// The blob store after a missed probe triggered materialization: the
/// unpacked batch is applied where the tarball is an archive, else nothing
/// changes.
pub open spec fn storage_after_unpack(
    tarballs: Seq<(Seq<char>, Seq<u8>)>,
    c: CrateIdView,
    pre: Seq<(Seq<char>, Seq<u8>)>,
    post: Seq<(Seq<char>, Seq<u8>)>,
) -> bool {
    match lookup(tarballs, crate_path_chars(c)) {
        None => post == pre,
        Some(tb) => match archive_entries(tb) {
            None => post == pre,
            Some(es) => forall|k: Seq<char>| #![auto]
                lookup(post, k) == match batch_lookup(unpacked_pairs(c, es), k) {
                    Some(v) => Some(v),
                    None => lookup(pre, k),
                },
        },
    }
}

/// Copy a byte vector.
pub fn clone_bytes(v: &Vec<u8>) -> (r: Vec<u8>)
    ensures
        r@ == v@,
{
    vstd::slice::slice_to_vec(v.as_slice())
}

/// The engine's services: the blob store, the registry table, and the
/// document database, plus a count of tarball fetches performed.
pub struct Services {
    pub storage: MemStorage,
    pub registry: LocalRegistry,
    pub db: MemoryDb,
    /// How many tarball fetches the materializer has made.
    pub fetches: u64,
}

impl Services {
    /// Every store holds each key at most once.
    pub open spec fn wf(&self) -> bool {
        self.storage.wf() && self.registry.wf() && self.db.wf()
    }

    /// Empty services.
    pub fn init() -> (r: Services)
        ensures
            r.wf(),
            r.storage@.len() == 0,
            r.db.scenes@.len() == 0,
            r.db.crates@.len() == 0,
            r.fetches == 0,
    {
        Services {
            storage: MemStorage::new(),
            registry: LocalRegistry::new(),
            db: MemoryDb::new(),
            fetches: 0,
        }
    }

    /// The blob store.
    pub fn storage(&self) -> (r: &MemStorage)
        ensures
            r == &self.storage,
    {
        &self.storage
    }

    /// The registry table.
    pub fn registry(&self) -> (r: &LocalRegistry)
        ensures
            r == &self.registry,
    {
        &self.registry
    }

    /// The document database.
    pub fn db(&self) -> (r: &MemoryDb)
        ensures
            r == &self.db,
    {
        &self.db
    }

    /// Whether the package's manifest object is absent, so that a fetch
    /// would be needed.
    pub fn needs_unpack(&self, crate_id: &CrateId) -> (r: bool)
        ensures
            r == (lookup(self.storage@, manifest_object_path(crate_id@)) is None),
    {
        let path = unpkg_path(crate_id, "Cargo.toml");
        !self.storage.contains_key(path.as_str())
    }

    /// Fetch the package's tarball from the registry and unpack every entry
    /// into the blob store under the canonical unpacked path, as one batch.
    /// A missing tarball is a not-found outcome; bytes that are not a
    /// gzip-compressed tar archive are malformed input, never retried.
    pub fn unpack_tarball(&mut self, crate_id: &CrateId) -> (r: Result<(), ApiError>)
        requires
            old(self).wf(),
            old(self).fetches < u64::MAX,
        ensures
            final(self).wf(),
            final(self).registry == old(self).registry,
            final(self).db == old(self).db,
            final(self).fetches == old(self).fetches + 1,
            match r {
                Ok(()) => (lookup(
                    old(self).registry.tarballs_view(),
                    crate_path_chars(crate_id@),
                ) matches Some(tb) && (archive_entries(tb) matches Some(es) && forall|
                    k: Seq<char>,
                |
                    #![auto]
                    lookup(final(self).storage@, k) == match batch_lookup(
                        unpacked_pairs(crate_id@, es),
                        k,
                    ) {
                        Some(v) => Some(v),
                        None => lookup(old(self).storage@, k),
                    })),
                Err(e) => final(self).storage@ == old(self).storage@ && match e {
                    ApiError::NotFound(_) => lookup(
                        old(self).registry.tarballs_view(),
                        crate_path_chars(crate_id@),
                    ) is None,
                    ApiError::Input(_) => (lookup(
                        old(self).registry.tarballs_view(),
                        crate_path_chars(crate_id@),
                    ) matches Some(tb) && archive_entries(tb) is None),
                    _ => false,
                },
            },
    {
        self.fetches = self.fetches + 1;
        let tarball = match self.registry.tarball(crate_id) {
            Some(b) => b,
            None => {
                return Err(ApiError::NotFound("no tarball for the package".to_owned()));
            },
        };
        let ghost tb = tarball@;
        let entries = match untar_gz(tarball) {
            Some(es) => es,
            None => {
                return Err(ApiError::Input(
                    "the package's tarball is not a gzip-compressed tar archive".to_owned(),
                ));
            },
        };
        let ghost es = archive_entries(tb)->Some_0;
        let ghost pairs = unpacked_pairs(crate_id@, es);
        let n = entries.len();
        let mut entries = entries;
        let mut to_store: Vec<(String, Vec<u8>)> = Vec::new();
        let mut i: usize = 0;
        while i < n
            invariant
                i <= n,
                n == es.len(),
                pairs == unpacked_pairs(crate_id@, es),
                entries@.len() == n - i,
                forall|j: int| #![auto]
                    0 <= j < n - i ==> (entries@[j].0@, entries@[j].1@) == es[j + i],
                to_store@.len() == i,
                forall|j: int| #![auto]
                    0 <= j < i ==> (to_store@[j].0@, to_store@[j].1@) == pairs[j],
            decreases n - i,
        {
            let ghost pre = entries@;
            let entry = entries.remove(0);
            proof {
                assert(entries@ =~= pre.skip(1));
                assert((entry.0@, entry.1@) == es[i as int]);
                lemma_find_char(entry.0@, '/');
            }
            let path_len = entry.0.as_str().unicode_len();
            let slash = str_find_char(entry.0.as_str(), '/');
            let rel = if slash < path_len {
                entry.0.as_str().substring_char(slash + 1, path_len).to_owned()
            } else {
                String::new()
            };
            proof {
                assert(rel@ == strip_root(entry.0@));
            }
            let key = unpkg_path(crate_id, rel.as_str());
            let ghost kv = key@;
            let ghost dv = entry.1@;
            to_store.push((key, entry.1));
            proof {
                assert(pairs.len() == es.len());
                assert(pairs[i as int] == (unpkg_path_chars(crate_id@, strip_root(es[i as int].0)),
                    es[i as int].1));
                assert(to_store@[i as int].0@ == kv);
                assert(to_store@[i as int].1@ == dv);
                assert((kv, dv) == pairs[i as int]);
            }
            i = i + 1;
        }
        proof {
            assert(to_store@.map_values(|e: (String, Vec<u8>)| (e.0@, e.1@)) =~= pairs);
        }
        self.storage.put_many(to_store);
        Ok(())
    }

    /// Read an object that a materialized package must have; when it is
    /// absent, materialize the package first.  An object still absent after
    /// a completed unpack means a corrupt archive or a registry mismatch: a
    /// not-found error, never retried.
    pub fn get_or_unpack_tarball(&mut self, crate_id: &CrateId, path: &str) -> (r: Result<
        Vec<u8>,
        ApiError,
    >)
        requires
            old(self).wf(),
            old(self).fetches < u64::MAX,
        ensures
            final(self).wf(),
            final(self).registry == old(self).registry,
            final(self).db == old(self).db,
            lookup(old(self).storage@, path@) is Some ==> *final(self) == *old(self),
            lookup(old(self).storage@, path@) is None ==> final(self).fetches == old(self).fetches
                + 1,
            final(self).fetches <= old(self).fetches + 1,
            lookup(old(self).storage@, path@) is None ==> storage_after_unpack(
                old(self).registry.tarballs_view(),
                crate_id@,
                old(self).storage@,
                final(self).storage@,
            ),
            (lookup(old(self).storage@, path@) is None && unpack_provides(
                old(self).registry.tarballs_view(),
                crate_id@,
                path@,
            )) ==> r is Ok,
            match r {
                Ok(b) => lookup(final(self).storage@, path@) == Some(b@),
                Err(e) => lookup(old(self).storage@, path@) is None && unpack_read_failure(
                    old(self).registry.tarballs_view(),
                    crate_id@,
                    path@,
                    e,
                ),
            },
    {
        if let Some(bytes) = self.storage.get(path) {
            return Ok(clone_bytes(bytes));
        }
        self.unpack_tarball(crate_id)?;
        match self.storage.get(path) {
            Some(bytes) => Ok(clone_bytes(bytes)),
            None => Err(ApiError::NotFound(
                "a required object is absent even after the package was unpacked".to_owned(),
            )),
        }
    }

    /// Ensure the package is materialized: probe for the canonical manifest
    /// object and unpack only when it is absent.  A package already
    /// materialized is left untouched and nothing is fetched.
    pub fn unpack_cargo_if_needed(&mut self, crate_id: &CrateId) -> (r: Result<(), ApiError>)
        requires
            old(self).wf(),
            old(self).fetches < u64::MAX,
        ensures
            final(self).wf(),
            final(self).registry == old(self).registry,
            final(self).db == old(self).db,
            lookup(old(self).storage@, manifest_object_path(crate_id@)) is Some ==> (*final(self)
                == *old(self) && r is Ok),
            lookup(old(self).storage@, manifest_object_path(crate_id@)) is None ==> final(self).fetches == old(self).fetches + 1,
            final(self).fetches <= old(self).fetches + 1,
            r is Ok ==> lookup(final(self).storage@, manifest_object_path(crate_id@)) is Some,
            lookup(old(self).storage@, manifest_object_path(crate_id@)) is None
                ==> storage_after_unpack(
                old(self).registry.tarballs_view(),
                crate_id@,
                old(self).storage@,
                final(self).storage@,
            ),
            (lookup(old(self).storage@, manifest_object_path(crate_id@)) is None
                && unpack_provides(
                old(self).registry.tarballs_view(),
                crate_id@,
                manifest_object_path(crate_id@),
            )) ==> r is Ok,
            r matches Err(e) ==> (lookup(old(self).storage@, manifest_object_path(crate_id@))
                is None && unpack_read_failure(
                old(self).registry.tarballs_view(),
                crate_id@,
                manifest_object_path(crate_id@),
                e,
            )),
    {
        let path = unpkg_path(crate_id, "Cargo.toml");
        let _ = self.get_or_unpack_tarball(crate_id, path.as_str())?;
        Ok(())
    }

    /// The bytes of the package's manifest, materializing the package
    /// first when needed.
    pub fn cargo_manifest_bytes(&mut self, crate_id: &CrateId) -> (r: Result<Vec<u8>, ApiError>)
        requires
            old(self).wf(),
            old(self).fetches < u64::MAX,
        ensures
            final(self).wf(),
            final(self).registry == old(self).registry,
            final(self).db == old(self).db,
            lookup(old(self).storage@, manifest_object_path(crate_id@)) is Some ==> final(self).fetches == old(self).fetches,
            final(self).fetches <= old(self).fetches + 1,
            lookup(old(self).storage@, manifest_object_path(crate_id@)) is None
                ==> storage_after_unpack(
                old(self).registry.tarballs_view(),
                crate_id@,
                old(self).storage@,
                final(self).storage@,
            ),
            (lookup(old(self).storage@, manifest_object_path(crate_id@)) is None
                && unpack_provides(
                old(self).registry.tarballs_view(),
                crate_id@,
                manifest_object_path(crate_id@),
            )) ==> r is Ok,
            match r {
                Ok(b) => lookup(final(self).storage@, manifest_object_path(crate_id@)) == Some(
                    b@,
                ),
                Err(e) => lookup(old(self).storage@, manifest_object_path(crate_id@)) is None
                    && unpack_read_failure(
                    old(self).registry.tarballs_view(),
                    crate_id@,
                    manifest_object_path(crate_id@),
                    e,
                ),
            },
    {
        let path = unpkg_path(crate_id, "Cargo.toml");
        self.get_or_unpack_tarball(crate_id, path.as_str())
    }

    /// The bytes of the package's lockfile, materializing the package
    /// first when needed.
    pub fn cargo_lock_bytes(&mut self, crate_id: &CrateId) -> (r: Result<Vec<u8>, ApiError>)
        requires
            old(self).wf(),
            old(self).fetches < u64::MAX,
        ensures
            final(self).wf(),
            final(self).registry == old(self).registry,
            final(self).db == old(self).db,
            lookup(old(self).storage@, unpkg_path_chars(crate_id@, "Cargo.lock"@)) is Some
                ==> final(self).fetches == old(self).fetches,
            final(self).fetches <= old(self).fetches + 1,
            lookup(old(self).storage@, unpkg_path_chars(crate_id@, "Cargo.lock"@)) is None
                ==> storage_after_unpack(
                old(self).registry.tarballs_view(),
                crate_id@,
                old(self).storage@,
                final(self).storage@,
            ),
            (lookup(old(self).storage@, unpkg_path_chars(crate_id@, "Cargo.lock"@)) is None
                && unpack_provides(
                old(self).registry.tarballs_view(),
                crate_id@,
                unpkg_path_chars(crate_id@, "Cargo.lock"@),
            )) ==> r is Ok,
            match r {
                Ok(b) => lookup(
                    final(self).storage@,
                    unpkg_path_chars(crate_id@, "Cargo.lock"@),
                ) == Some(b@),
                Err(e) => lookup(old(self).storage@, unpkg_path_chars(crate_id@, "Cargo.lock"@))
                    is None && unpack_read_failure(
                    old(self).registry.tarballs_view(),
                    crate_id@,
                    unpkg_path_chars(crate_id@, "Cargo.lock"@),
                    e,
                ),
            },
    {
        let path = unpkg_path(crate_id, "Cargo.lock");
        self.get_or_unpack_tarball(crate_id, path.as_str())
    }

    /// Read one file of the package from the blob store; a missing file
    /// triggers materialization once before the second and final probe.
    /// The probe target of materialization is the manifest object, so a
    /// missing file of an already-materialized package is final.
    pub fn get_crate_file(&mut self, crate_id: &CrateId, file: &str) -> (r: Result<
        Vec<u8>,
        ApiError,
    >)
        requires
            old(self).wf(),
            old(self).fetches < u64::MAX,
        ensures
            final(self).wf(),
            final(self).registry == old(self).registry,
            final(self).db == old(self).db,
            lookup(old(self).storage@, unpkg_path_chars(crate_id@, file@)) is Some ==> final(self).fetches == old(self).fetches,
            lookup(old(self).storage@, manifest_object_path(crate_id@)) is Some ==> final(self).fetches == old(self).fetches,
            final(self).fetches <= old(self).fetches + 1,
            (lookup(old(self).storage@, unpkg_path_chars(crate_id@, file@)) is None && lookup(
                old(self).storage@,
                manifest_object_path(crate_id@),
            ) is Some) ==> final(self).storage == old(self).storage,
            (lookup(old(self).storage@, unpkg_path_chars(crate_id@, file@)) is None && lookup(
                old(self).storage@,
                manifest_object_path(crate_id@),
            ) is None) ==> storage_after_unpack(
                old(self).registry.tarballs_view(),
                crate_id@,
                old(self).storage@,
                final(self).storage@,
            ),
            (lookup(old(self).storage@, unpkg_path_chars(crate_id@, file@)) is None && lookup(
                old(self).storage@,
                manifest_object_path(crate_id@),
            ) is None && unpack_provides(
                old(self).registry.tarballs_view(),
                crate_id@,
                manifest_object_path(crate_id@),
            ) && unpack_provides(
                old(self).registry.tarballs_view(),
                crate_id@,
                unpkg_path_chars(crate_id@, file@),
            )) ==> r is Ok,
            match r {
                Ok(b) => lookup(final(self).storage@, unpkg_path_chars(crate_id@, file@)) == Some(
                    b@,
                ),
                Err(e) => lookup(old(self).storage@, unpkg_path_chars(crate_id@, file@)) is None
                    && {
                    if lookup(old(self).storage@, manifest_object_path(crate_id@)) is Some {
                        e is NotFound
                    } else {
                        match lookup(
                            old(self).registry.tarballs_view(),
                            crate_path_chars(crate_id@),
                        ) {
                            None => e is NotFound,
                            Some(tb) => match archive_entries(tb) {
                                None => e is Input,
                                Some(es) => e is NotFound && (batch_lookup(
                                    unpacked_pairs(crate_id@, es),
                                    manifest_object_path(crate_id@),
                                ) is None || batch_lookup(
                                    unpacked_pairs(crate_id@, es),
                                    unpkg_path_chars(crate_id@, file@),
                                ) is None),
                            },
                        }
                    }
                },
            },
    {
        let path = unpkg_path(crate_id, file);
        if let Some(bytes) = self.storage.get(path.as_str()) {
            return Ok(clone_bytes(bytes));
        }
        self.unpack_cargo_if_needed(crate_id)?;
        match self.storage.get(path.as_str()) {
            Some(bytes) => Ok(clone_bytes(bytes)),
            None => Err(ApiError::NotFound("no such file in the package".to_owned())),
        }
    }
}

} // verus!
