//! The blob store: a content-addressable-by-path key/value store for bytes,
//! with prefix listing.
//!
//! The engine works against the in-memory store below, whose behaviour is
//! verified; durable backends live outside the library and mirror this
//! contract.  Each key is independently atomic; there is no cross-key
//! transaction.

use crate::crate_id::{CrateId, CrateIdView, crate_path_chars};
use crate::text::is_prefix;
use crate::text::str_eq;
use crate::text::str_starts_with;
use vstd::prelude::*;

verus! {

/// The canonical unpacked path of a package file:
/// `unpkg/{name}/{version}/{relative-path}`.
pub open spec fn unpkg_path_chars(c: CrateIdView, path: Seq<char>) -> Seq<char> {
    "unpkg/"@ + crate_path_chars(c) + seq!['/'] + path
}

/// Build the canonical unpacked path of a package file.
pub fn unpkg_path(crate_id: &CrateId, path: &str) -> (r: String)
    ensures
        r@ == unpkg_path_chars(crate_id@, path@),
{
    proof {
        reveal_strlit("unpkg/");
        reveal_strlit("/");
    }
    let mut out = "unpkg/".to_owned();
    let cpath = crate_id.path();
    out.append(cpath.as_str());
    out.append("/");
    out.append(path);
    proof {
        assert(out@ =~= unpkg_path_chars(crate_id@, path@));
    }
    out
}

/// Description of a stored object.
#[derive(Debug)]
pub struct StorageObjectInfo {
    /// Path of the object.
    pub name: String,
    /// Creation time as milliseconds since the epoch; zero where the
    /// backend cannot report it.
    pub created_ms: u64,
}

impl StorageObjectInfo {
    /// Describe an object with a known creation time.
    pub fn new(name: String, created_ms: u64) -> (r: Self)
        ensures
            r.name@ == name@,
            r.created_ms == created_ms,
    {
        StorageObjectInfo { name, created_ms }
    }

    /// Describe an object whose creation time the backend cannot report.
    pub fn new_no_creation_date(name: String) -> (r: Self)
        ensures
            r.name@ == name@,
            r.created_ms == 0,
    {
        StorageObjectInfo { name, created_ms: 0 }
    }
}

/// The value stored under a key, front to back.
pub open spec fn lookup(s: Seq<(Seq<char>, Seq<u8>)>, k: Seq<char>) -> Option<Seq<u8>>
    decreases s.len(),
{
    if s.len() == 0 {
        None
    } else if s[0].0 == k {
        Some(s[0].1)
    } else {
        lookup(s.skip(1), k)
    }
}

/// The last value a batch assigns to a key, if any: later pairs win.
pub open spec fn batch_lookup(vs: Seq<(Seq<char>, Seq<u8>)>, k: Seq<char>) -> Option<Seq<u8>>
    decreases vs.len(),
{
    if vs.len() == 0 {
        None
    } else if vs.last().0 == k {
        Some(vs.last().1)
    } else {
        batch_lookup(vs.drop_last(), k)
    }
}

/// In-memory blob store.
pub struct MemStorage {
    entries: Vec<(String, Vec<u8>)>,
}

impl View for MemStorage {
    type V = Seq<(Seq<char>, Seq<u8>)>;

    closed spec fn view(&self) -> Seq<(Seq<char>, Seq<u8>)> {
        self.entries@.map_values(|e: (String, Vec<u8>)| (e.0@, e.1@))
    }
}

impl MemStorage {
    /// The store holds each key at most once.
    pub open spec fn wf(&self) -> bool {
        forall|i: int, j: int|
            0 <= i < j < self@.len() ==> (#[trigger] self@[i]).0 != (#[trigger] self@[j]).0
    }

    /// An empty store.
    pub fn new() -> (r: Self)
        ensures
            r.wf(),
            r@.len() == 0,
    {
        let r = MemStorage { entries: Vec::new() };
        proof {
            assert(r@ =~= Seq::<(Seq<char>, Seq<u8>)>::empty());
        }
        r
    }

    /// Find the position holding a key, scanning from the front.
    fn find_index(&self, key: &str) -> (r: Option<usize>)
        ensures
            match r {
                Some(i) => i < self@.len() && self@[i as int].0 == key@ && lookup(self@, key@)
                    == Some(self@[i as int].1),
                None => lookup(self@, key@) is None,
            },
    {
        let n = self.entries.len();
        let mut i: usize = 0;
        proof {
            assert(self@.skip(0) =~= self@);
        }
        while i < n
            invariant
                i <= n,
                n == self@.len(),
                n == self.entries@.len(),
                lookup(self@, key@) == lookup(self@.skip(i as int), key@),
                forall|j: int| 0 <= j < i ==> (#[trigger] self@[j]).0 != key@,
            decreases n - i,
        {
            proof {
                let sa = self@.skip(i as int);
                assert(sa[0] == self@[i as int]);
                assert(sa.skip(1) =~= self@.skip(i + 1));
            }
            if str_eq(self.entries[i].0.as_str(), key) {
                return Some(i);
            }
            i = i + 1;
        }
        proof {
            assert(self@.skip(n as int) =~= Seq::<(Seq<char>, Seq<u8>)>::empty());
        }
        None
    }

    /// Read the bytes stored under a key; `None` is the distinguishable
    /// not-found outcome.
    pub fn get(&self, key: &str) -> (r: Option<&Vec<u8>>)
        ensures
            match r {
                Some(v) => lookup(self@, key@) == Some(v@),
                None => lookup(self@, key@) is None,
            },
    {
        match self.find_index(key) {
            Some(i) => Some(&self.entries[i].1),
            None => None,
        }
    }

    /// Whether an object exists under the key.
    pub fn contains_key(&self, key: &str) -> (r: bool)
        ensures
            r == (lookup(self@, key@) is Some),
    {
        match self.find_index(key) {
            Some(_) => true,
            None => false,
        }
    }

    /// Store bytes under a key, replacing any prior value.
    pub fn put(&mut self, key: String, value: Vec<u8>)
        requires
            old(self).wf(),
        ensures
            final(self).wf(),
            forall|k: Seq<char>| #![auto]
                lookup(final(self)@, k) == if k == key@ {
                    Some(value@)
                } else {
                    lookup(old(self)@, k)
                },
    {
        let ghost pre = self@;
        match self.find_index(key.as_str()) {
            Some(i) => {
                self.entries.set(i, (key, value));
                proof {
                    let post = self@;
                    assert(post =~= pre.update(i as int, (pre[i as int].0, value@)));
                    assert forall|k: Seq<char>| #![auto]
                        lookup(post, k) == if k == pre[i as int].0 {
                            Some(value@)
                        } else {
                            lookup(pre, k)
                        } by {
                        lemma_lookup_update(pre, i as int, value@, k);
                    }
                }
            },
            None => {
                let ghost keyv = key@;
                self.entries.push((key, value));
                proof {
                    lemma_lookup_none_iff(pre, keyv);
                    let post = self@;
                    assert(post =~= pre.push((keyv, value@)));
                    assert forall|k: Seq<char>| #![auto]
                        lookup(post, k) == if k == keyv {
                            Some(value@)
                        } else {
                            lookup(pre, k)
                        } by {
                        lemma_lookup_push(pre, keyv, value@, k);
                    }
                }
            },
        }
    }

    /// Remove the object under a key; nothing changes if it is absent.
    pub fn delete(&mut self, key: &str)
        requires
            old(self).wf(),
        ensures
            final(self).wf(),
            forall|k: Seq<char>| #![auto]
                lookup(final(self)@, k) == if k == key@ {
                    None::<Seq<u8>>
                } else {
                    lookup(old(self)@, k)
                },
    {
        let ghost pre = self@;
        match self.find_index(key) {
            Some(i) => {
                let _ = self.entries.remove(i);
                proof {
                    let post = self@;
                    assert(post =~= pre.remove(i as int));
                    assert forall|k: Seq<char>| #![auto]
                        lookup(post, k) == if k == key@ {
                            None::<Seq<u8>>
                        } else {
                            lookup(pre, k)
                        } by {
                        lemma_lookup_remove(pre, i as int, k);
                    }
                }
            },
            None => {},
        }
    }

    /// Store a batch of pairs; later pairs win on an equal key.  Each key is
    /// written independently; there is no cross-key transaction.
    pub fn put_many(&mut self, values: Vec<(String, Vec<u8>)>)
        requires
            old(self).wf(),
        ensures
            final(self).wf(),
            forall|k: Seq<char>| #![auto]
                lookup(final(self)@, k) == match batch_lookup(
                    values@.map_values(|e: (String, Vec<u8>)| (e.0@, e.1@)),
                    k,
                ) {
                    Some(v) => Some(v),
                    None => lookup(old(self)@, k),
                },
    {
        let ghost vs = values@.map_values(|e: (String, Vec<u8>)| (e.0@, e.1@));
        let n = values.len();
        let mut values = values;
        let mut i: usize = 0;
        proof {
            assert(vs.take(0) =~= Seq::<(Seq<char>, Seq<u8>)>::empty());
        }
        while i < n
            invariant
                i <= n,
                n == vs.len(),
                values@.len() == n - i,
                self.wf(),
                forall|j: int| #![auto]
                    0 <= j < n - i ==> (values@[j].0@, values@[j].1@) == vs[j + i],
                forall|k: Seq<char>| #![auto]
                    lookup(self@, k) == match batch_lookup(vs.take(i as int), k) {
                        Some(v) => Some(v),
                        None => lookup(old(self)@, k),
                    },
            decreases n - i,
        {
            let ghost pre_values = values@;
            let pair = values.remove(0);
            proof {
                assert(values@ =~= pre_values.skip(1));
                assert(vs.take(i as int + 1).drop_last() =~= vs.take(i as int));
                assert(vs.take(i as int + 1).last() == vs[i as int]);
                assert((pair.0@, pair.1@) == vs[i as int]);
            }
            self.put(pair.0, pair.1);
            i = i + 1;
        }
        proof {
            assert(vs.take(n as int) =~= vs);
        }
    }

    /// Describe every stored object whose path starts with the prefix, in
    /// store order.
    pub fn list(&self, prefix: &str) -> (r: Vec<StorageObjectInfo>)
        ensures
            r@.map_values(|o: StorageObjectInfo| o.name@) == self@.map_values(
                |e: (Seq<char>, Seq<u8>)| e.0,
            ).filter(|k: Seq<char>| is_prefix(prefix@, k)),
    {
        let n = self.entries.len();
        let mut out: Vec<StorageObjectInfo> = Vec::new();
        let ghost keys = self@.map_values(|e: (Seq<char>, Seq<u8>)| e.0);
        let ghost p = |k: Seq<char>| is_prefix(prefix@, k);
        proof {
            assert(keys.take(0) =~= Seq::<Seq<char>>::empty());
            assert(keys.take(0).filter(p) =~= Seq::<Seq<char>>::empty());
            assert(out@.map_values(|o: StorageObjectInfo| o.name@) =~= Seq::<Seq<char>>::empty());
        }
        let mut i: usize = 0;
        while i < n
            invariant
                i <= n,
                n == self@.len(),
                n == self.entries@.len(),
                keys == self@.map_values(|e: (Seq<char>, Seq<u8>)| e.0),
                p == (|k: Seq<char>| is_prefix(prefix@, k)),
                out@.map_values(|o: StorageObjectInfo| o.name@) == keys.take(i as int).filter(p),
            decreases n - i,
        {
            proof {
                assert(keys.take(i as int + 1).drop_last() =~= keys.take(i as int));
                assert(keys.take(i as int + 1).last() == keys[i as int]);
                reveal(Seq::filter);
            }
            let ghost before = out@;
            if str_starts_with(self.entries[i].0.as_str(), prefix) {
                let name = self.entries[i].0.clone();
                out.push(StorageObjectInfo::new_no_creation_date(name));
                proof {
                    assert(out@.map_values(|o: StorageObjectInfo| o.name@) =~= before.map_values(
                        |o: StorageObjectInfo| o.name@,
                    ).push(keys[i as int]));
                }
            }
            proof {
                assert(out@.map_values(|o: StorageObjectInfo| o.name@) =~= keys.take(
                    i as int + 1,
                ).filter(p));
            }
            i = i + 1;
        }
        proof {
            assert(keys.take(n as int) =~= keys);
        }
        out
    }
}

proof fn lemma_lookup_push(s: Seq<(Seq<char>, Seq<u8>)>, key: Seq<char>, value: Seq<u8>, k: Seq<char>)
    requires
        lookup(s, key) is None,
    ensures
        lookup(s.push((key, value)), k) == if k == key {
            Some(value)
        } else {
            lookup(s, k)
        },
    decreases s.len(),
{
    let post = s.push((key, value));
    if s.len() == 0 {
        assert(post[0] == (key, value));
        assert(post.skip(1) =~= Seq::<(Seq<char>, Seq<u8>)>::empty());
    } else {
        assert(post[0] == s[0]);
        assert(post.skip(1) =~= s.skip(1).push((key, value)));
        lemma_lookup_push(s.skip(1), key, value, k);
    }
}

proof fn lemma_lookup_update(s: Seq<(Seq<char>, Seq<u8>)>, i: int, value: Seq<u8>, k: Seq<char>)
    requires
        0 <= i < s.len(),
        forall|a: int, b: int| 0 <= a < b < s.len() ==> (#[trigger] s[a]).0 != (#[trigger] s[b]).0,
    ensures
        lookup(s.update(i, (s[i].0, value)), k) == if k == s[i].0 {
            Some(value)
        } else {
            lookup(s, k)
        },
    decreases s.len(),
{
    let post = s.update(i, (s[i].0, value));
    assert(post[0] == if i == 0 { (s[0].0, value) } else { s[0] });
    if i == 0 {
        assert(post.skip(1) =~= s.skip(1));
        if k == s[0].0 {
            assert forall|j: int| 0 <= j < s.skip(1).len() implies (#[trigger] s.skip(1)[j]).0
                != k by {
                assert(s.skip(1)[j] == s[j + 1]);
            }
            lemma_lookup_none_iff(s.skip(1), k);
        }
    } else {
        assert(post.skip(1) =~= s.skip(1).update(i - 1, (s[i].0, value)));
        assert(s[i] == s.skip(1)[i - 1]);
        assert(forall|a: int, b: int|
            0 <= a < b < s.skip(1).len() ==> (#[trigger] s.skip(1)[a]).0 != (
            #[trigger] s.skip(1)[b]).0);
        lemma_lookup_update(s.skip(1), i - 1, value, k);
        if k == s[i].0 {
            assert(s[0].0 != s[i].0);
        }
    }
}

/// A key is absent exactly where no entry holds it.
proof fn lemma_lookup_none_iff(s: Seq<(Seq<char>, Seq<u8>)>, k: Seq<char>)
    ensures
        (lookup(s, k) is None) <==> (forall|j: int| 0 <= j < s.len() ==> (#[trigger] s[j]).0 != k),
    decreases s.len(),
{
    if s.len() > 0 {
        lemma_lookup_none_iff(s.skip(1), k);
        assert forall|j: int| 1 <= j < s.len() implies s.skip(1)[j - 1] == s[j] by {}
        if s[0].0 != k && (lookup(s.skip(1), k) is None) {
            assert forall|j: int| 0 <= j < s.len() implies (#[trigger] s[j]).0 != k by {
                if j >= 1 {
                    assert(s[j] == s.skip(1)[j - 1]);
                }
            }
        }
    }
}

proof fn lemma_lookup_remove(s: Seq<(Seq<char>, Seq<u8>)>, i: int, k: Seq<char>)
    requires
        0 <= i < s.len(),
        forall|a: int, b: int| 0 <= a < b < s.len() ==> (#[trigger] s[a]).0 != (#[trigger] s[b]).0,
    ensures
        lookup(s.remove(i), k) == if k == s[i].0 {
            None::<Seq<u8>>
        } else {
            lookup(s, k)
        },
    decreases s.len(),
{
    let post = s.remove(i);
    if i == 0 {
        assert(post =~= s.skip(1));
        if k == s[0].0 {
            assert forall|j: int| 0 <= j < s.skip(1).len() implies (#[trigger] s.skip(1)[j]).0
                != k by {
                assert(s.skip(1)[j] == s[j + 1]);
            }
            lemma_lookup_none_iff(s.skip(1), k);
        }
    } else {
        assert(post[0] == s[0]);
        assert(post.skip(1) =~= s.skip(1).remove(i - 1));
        assert(s[i] == s.skip(1)[i - 1]);
        assert(forall|a: int, b: int|
            0 <= a < b < s.skip(1).len() ==> (#[trigger] s.skip(1)[a]).0 != (
            #[trigger] s.skip(1)[b]).0);
        lemma_lookup_remove(s.skip(1), i - 1, k);
        if k == s[i].0 {
            assert(s[0].0 != s[i].0);
        }
    }
}

} // verus!
