//! The in-memory document collection.
//!
//! A process-local, insertion-ordered collection of documents keyed by
//! their derived keys.  Re-inserting a key replaces the prior document and
//! never errors on a duplicate.  Durable backends live outside the library
//! and mirror this contract; so does persistence of this collection to a
//! flat file.

use crate::doc_id::{DocId, HasDocId};
use crate::filter::matches_filter;
use crate::value::{Value, ValueView};
use crate::filter::matches_value;
use vstd::prelude::*;

verus! {

/// A stored document type that also exposes the structured value the
/// filter language examines.
pub trait DocRecord: HasDocId {
    /// The document's structured value, as a mathematical object.
    spec fn value_model(&self) -> ValueView;

    /// Build the document's structured value.
    fn to_value(&self) -> (r: Value)
        ensures
            r@ == self.value_model(),
    ;
}

/// The first document holding a key, front to back.
pub open spec fn key_lookup<T: HasDocId>(s: Seq<T>, k: Seq<char>) -> Option<T>
    decreases s.len(),
{
    if s.len() == 0 {
        None
    } else if s[0].key_spec() == k {
        Some(s[0])
    } else {
        key_lookup(s.skip(1), k)
    }
}

/// Every stored document afterwards is one of the batch or one already
/// stored: mutations never invent documents.
pub open spec fn elems_from<T>(post: Seq<T>, pre: Seq<T>, batch: Seq<T>) -> bool {
    forall|i: int|
        0 <= i < post.len() ==> batch.contains(#[trigger] post[i]) || pre.contains(post[i])
}

/// The batch's documents carry pairwise different keys.
pub open spec fn batch_distinct<T: HasDocId>(vs: Seq<T>) -> bool {
    forall|i: int, j: int|
        0 <= i < j < vs.len() ==> (#[trigger] vs[i]).key_spec() != (#[trigger] vs[j]).key_spec()
}

/// The last document a batch holds under a key, if any: later ones win.
pub open spec fn batch_key_lookup<T: HasDocId>(vs: Seq<T>, k: Seq<char>) -> Option<T>
    decreases vs.len(),
{
    if vs.len() == 0 {
        None
    } else if vs.last().key_spec() == k {
        Some(vs.last())
    } else {
        batch_key_lookup(vs.drop_last(), k)
    }
}

/// A key is absent exactly where no document holds it.
pub proof fn lemma_key_lookup_none_iff<T: HasDocId>(s: Seq<T>, k: Seq<char>)
    ensures
        (key_lookup(s, k) is None) <==> (forall|j: int|
            0 <= j < s.len() ==> (#[trigger] s[j]).key_spec() != k),
    decreases s.len(),
{
    if s.len() > 0 {
        lemma_key_lookup_none_iff(s.skip(1), k);
        if s[0].key_spec() != k && (key_lookup(s.skip(1), k) is None) {
            assert forall|j: int| 0 <= j < s.len() implies (#[trigger] s[j]).key_spec() != k by {
                if j >= 1 {
                    assert(s[j] == s.skip(1)[j - 1]);
                }
            }
        }
    }
}

proof fn lemma_key_lookup_push<T: HasDocId>(s: Seq<T>, doc: T, k: Seq<char>)
    requires
        key_lookup(s, doc.key_spec()) is None,
    ensures
        key_lookup(s.push(doc), k) == if k == doc.key_spec() {
            Some(doc)
        } else {
            key_lookup(s, k)
        },
    decreases s.len(),
{
    let post = s.push(doc);
    assert(post.len() == s.len() + 1);
    if s.len() == 0 {
        assert(post[0] == doc);
        assert(post.skip(1) =~= Seq::<T>::empty());
    } else {
        assert(post[0] == s[0]);
        assert(post.skip(1) =~= s.skip(1).push(doc));
        assert(s[0].key_spec() != doc.key_spec());
        assert(key_lookup(s.skip(1), doc.key_spec()) is None);
        lemma_key_lookup_push(s.skip(1), doc, k);
        if s[0].key_spec() == k {
            assert(key_lookup(post, k) == Some(post[0]));
            assert(key_lookup(s, k) == Some(s[0]));
        } else {
            assert(key_lookup(post, k) == key_lookup(post.skip(1), k));
            assert(key_lookup(s, k) == key_lookup(s.skip(1), k));
        }
    }
}

proof fn lemma_key_lookup_update<T: HasDocId>(s: Seq<T>, i: int, doc: T, k: Seq<char>)
    requires
        0 <= i < s.len(),
        doc.key_spec() == s[i].key_spec(),
        forall|a: int, b: int|
            0 <= a < b < s.len() ==> (#[trigger] s[a]).key_spec() != (#[trigger] s[b]).key_spec(),
    ensures
        key_lookup(s.update(i, doc), k) == if k == doc.key_spec() {
            Some(doc)
        } else {
            key_lookup(s, k)
        },
    decreases s.len(),
{
    let post = s.update(i, doc);
    assert(post[0] == if i == 0 { doc } else { s[0] });
    if i == 0 {
        assert(post.skip(1) =~= s.skip(1));
        if k == s[0].key_spec() {
            assert forall|j: int| 0 <= j < s.skip(1).len() implies (#[trigger] s.skip(
                1,
            )[j]).key_spec() != k by {
                assert(s.skip(1)[j] == s[j + 1]);
            }
            lemma_key_lookup_none_iff(s.skip(1), k);
        }
    } else {
        assert(post.skip(1) =~= s.skip(1).update(i - 1, doc));
        assert(s[i] == s.skip(1)[i - 1]);
        assert(forall|a: int, b: int|
            0 <= a < b < s.skip(1).len() ==> (#[trigger] s.skip(1)[a]).key_spec() != (
            #[trigger] s.skip(1)[b]).key_spec());
        lemma_key_lookup_update(s.skip(1), i - 1, doc, k);
        if k == doc.key_spec() {
            assert(s[0].key_spec() != s[i].key_spec());
        }
    }
}

proof fn lemma_key_lookup_remove<T: HasDocId>(s: Seq<T>, i: int, k: Seq<char>)
    requires
        0 <= i < s.len(),
        forall|a: int, b: int|
            0 <= a < b < s.len() ==> (#[trigger] s[a]).key_spec() != (#[trigger] s[b]).key_spec(),
    ensures
        key_lookup(s.remove(i), k) == if k == s[i].key_spec() {
            None::<T>
        } else {
            key_lookup(s, k)
        },
    decreases s.len(),
{
    let post = s.remove(i);
    if i == 0 {
        assert(post =~= s.skip(1));
        if k == s[0].key_spec() {
            assert forall|j: int| 0 <= j < s.skip(1).len() implies (#[trigger] s.skip(
                1,
            )[j]).key_spec() != k by {
                assert(s.skip(1)[j] == s[j + 1]);
            }
            lemma_key_lookup_none_iff(s.skip(1), k);
        }
    } else {
        assert(post[0] == s[0]);
        assert(post.skip(1) =~= s.skip(1).remove(i - 1));
        assert(s[i] == s.skip(1)[i - 1]);
        assert(forall|a: int, b: int|
            0 <= a < b < s.skip(1).len() ==> (#[trigger] s.skip(1)[a]).key_spec() != (
            #[trigger] s.skip(1)[b]).key_spec());
        lemma_key_lookup_remove(s.skip(1), i - 1, k);
        if k == s[i].key_spec() {
            assert(s[0].key_spec() != s[i].key_spec());
        }
    }
}

/// A prefix whose entries all carry other keys never assigns the key.
proof fn lemma_batch_absent<T: HasDocId>(vs: Seq<T>, m: int, k: Seq<char>)
    requires
        0 <= m <= vs.len(),
        forall|j: int| 0 <= j < m ==> (#[trigger] vs[j]).key_spec() != k,
    ensures
        batch_key_lookup(vs.take(m), k) is None,
    decreases m,
{
    if m > 0 {
        assert(vs.take(m).last() == vs[m - 1]);
        assert(vs.take(m).drop_last() =~= vs.take(m - 1));
        lemma_batch_absent(vs, m - 1, k);
    } else {
        assert(vs.take(0) =~= Seq::<T>::empty());
    }
}

/// In a collection of pairwise different keys, every document is found
/// under its own key.
pub proof fn lemma_key_lookup_index<T: HasDocId>(s: Seq<T>, i: int)
    requires
        0 <= i < s.len(),
        forall|a: int, b: int|
            0 <= a < b < s.len() ==> (#[trigger] s[a]).key_spec() != (#[trigger] s[b]).key_spec(),
    ensures
        key_lookup(s, s[i].key_spec()) == Some(s[i]),
    decreases i,
{
    if i == 0 {
    } else {
        assert(s[0].key_spec() != s[i].key_spec());
        assert(forall|a: int, b: int|
            0 <= a < b < s.skip(1).len() ==> (#[trigger] s.skip(1)[a]).key_spec() != (
            #[trigger] s.skip(1)[b]).key_spec());
        assert(s.skip(1)[i - 1] == s[i]);
        lemma_key_lookup_index(s.skip(1), i - 1);
    }
}

/// A found document sits in the collection and carries the key.
pub proof fn lemma_key_lookup_exists<T: HasDocId>(s: Seq<T>, k: Seq<char>)
    requires
        key_lookup(s, k) is Some,
    ensures
        exists|i: int|
            0 <= i < s.len() && (#[trigger] s[i]) == key_lookup(s, k)->Some_0 && s[i].key_spec()
                == k,
    decreases s.len(),
{
    if s.len() > 0 {
        if s[0].key_spec() == k {
        } else {
            lemma_key_lookup_exists(s.skip(1), k);
            let j = choose|j: int|
                0 <= j < s.skip(1).len() && (#[trigger] s.skip(1)[j]) == key_lookup(
                    s.skip(1),
                    k,
                )->Some_0 && s.skip(1)[j].key_spec() == k;
            assert(s[j + 1] == s.skip(1)[j]);
        }
    }
}

/// In a batch of pairwise different keys, the entry holding a key is what
/// the batch assigns to it.
pub proof fn lemma_batch_found<T: HasDocId>(vs: Seq<T>, t: int)
    requires
        batch_distinct(vs),
        0 <= t < vs.len(),
    ensures
        batch_key_lookup(vs, vs[t].key_spec()) == Some(vs[t]),
    decreases vs.len(),
{
    if t == vs.len() - 1 {
    } else {
        assert(vs.last().key_spec() != vs[t].key_spec());
        assert(vs.drop_last()[t] == vs[t]);
        assert(batch_distinct(vs.drop_last()));
        lemma_batch_found(vs.drop_last(), t);
    }
}

/// A batch assigns nothing exactly where no entry holds the key.
pub proof fn lemma_batch_none_iff<T: HasDocId>(vs: Seq<T>, k: Seq<char>)
    ensures
        (batch_key_lookup(vs, k) is None) <==> (forall|j: int|
            0 <= j < vs.len() ==> (#[trigger] vs[j]).key_spec() != k),
    decreases vs.len(),
{
    if vs.len() > 0 {
        lemma_batch_none_iff(vs.drop_last(), k);
        assert(forall|j: int| 0 <= j < vs.len() - 1 ==> #[trigger] vs.drop_last()[j] == vs[j]);
        if vs.last().key_spec() != k && (batch_key_lookup(vs.drop_last(), k) is None) {
            assert forall|j: int| 0 <= j < vs.len() implies (#[trigger] vs[j]).key_spec()
                != k by {
                if j < vs.len() - 1 {
                    assert(vs[j] == vs.drop_last()[j]);
                } else {
                    assert(vs[j] == vs.last());
                }
            }
        }
        if forall|j: int| 0 <= j < vs.len() ==> (#[trigger] vs[j]).key_spec() != k {
            assert(vs.last().key_spec() != k);
        }
    }
}

/// An in-memory, insertion-ordered document collection.
pub struct MemoryCollection<T> {
    docs: Vec<T>,
    name: String,
}

impl<T> View for MemoryCollection<T> {
    type V = Seq<T>;

    closed spec fn view(&self) -> Seq<T> {
        self.docs@
    }
}

impl<T: HasDocId> MemoryCollection<T> {
    /// The collection holds each key at most once.
    pub open spec fn wf(&self) -> bool {
        forall|i: int, j: int|
            0 <= i < j < self@.len() ==> (#[trigger] self@[i]).key_spec() != (
            #[trigger] self@[j]).key_spec()
    }

    /// An empty named collection.
    pub fn new(name: String) -> (r: Self)
        ensures
            r.wf(),
            r@.len() == 0,
    {
        MemoryCollection { docs: Vec::new(), name }
    }

    /// A temporary collection, named for scratch use.
    pub fn temp() -> (r: Self)
        ensures
            r.wf(),
            r@.len() == 0,
    {
        MemoryCollection::new("_temp".to_owned())
    }

    /// The collection's name.
    pub fn name(&self) -> (r: &str) {
        self.name.as_str()
    }

    /// How many documents are stored.
    pub fn doc_count(&self) -> (r: usize)
        ensures
            r == self@.len(),
    {
        self.docs.len()
    }

    /// The stored document at a position, in insertion order.
    pub fn doc_at(&self, i: usize) -> (r: &T)
        requires
            i < self@.len(),
        ensures
            *r == self@[i as int],
    {
        &self.docs[i]
    }

    /// Find the position holding a key, scanning from the front.
    fn find_index(&self, key: &DocId) -> (r: Option<usize>)
        ensures
            match r {
                Some(i) => i < self@.len() && self@[i as int].key_spec() == key@ && key_lookup(
                    self@,
                    key@,
                ) == Some(self@[i as int]),
                None => key_lookup(self@, key@) is None,
            },
    {
        let n = self.docs.len();
        let mut i: usize = 0;
        proof {
            assert(self@.skip(0) =~= self@);
        }
        while i < n
            invariant
                i <= n,
                n == self@.len(),
                key_lookup(self@, key@) == key_lookup(self@.skip(i as int), key@),
                forall|j: int| 0 <= j < i ==> (#[trigger] self@[j]).key_spec() != key@,
            decreases n - i,
        {
            proof {
                let sa = self@.skip(i as int);
                assert(sa[0] == self@[i as int]);
                assert(sa.skip(1) =~= self@.skip(i + 1));
            }
            let id = self.docs[i].doc_id();
            if id.key_eq(key) {
                return Some(i);
            }
            i = i + 1;
        }
        proof {
            assert(self@.skip(n as int) =~= Seq::<T>::empty());
        }
        None
    }

    /// Read the document under a key; `None` is the distinguishable
    /// not-found outcome.
    pub fn get(&self, id: &DocId) -> (r: Option<&T>)
        ensures
            match r {
                Some(d) => key_lookup(self@, id@) == Some(*d),
                None => key_lookup(self@, id@) is None,
            },
    {
        match self.find_index(id) {
            Some(i) => Some(&self.docs[i]),
            None => None,
        }
    }

    /// Whether a document exists under the key.
    pub fn has(&self, id: &DocId) -> (r: bool)
        ensures
            r == (key_lookup(self@, id@) is Some),
    {
        match self.find_index(id) {
            Some(_) => true,
            None => false,
        }
    }

    /// Store a document under its derived key, replacing any prior document
    /// of that key (upsert; a duplicate never errors).
    pub fn insert(&mut self, doc: T) -> (r: DocId)
        requires
            old(self).wf(),
        ensures
            final(self).wf(),
            r@ == doc.key_spec(),
            forall|k: Seq<char>| #![auto]
                key_lookup(final(self)@, k) == if k == doc.key_spec() {
                    Some(doc)
                } else {
                    key_lookup(old(self)@, k)
                },
            key_lookup(old(self)@, doc.key_spec()) is None ==> final(self)@ == old(self)@.push(
                doc,
            ),
            key_lookup(old(self)@, doc.key_spec()) is Some ==> exists|i: int|
                0 <= i < old(self)@.len() && (#[trigger] old(self)@[i]).key_spec()
                    == doc.key_spec() && final(self)@ == old(self)@.update(i, doc),
            elems_from(final(self)@, old(self)@, seq![doc]),
    {
        let ghost pre = self@;
        let id = doc.doc_id();
        match self.find_index(&id) {
            Some(i) => {
                self.docs.set(i, doc);
                proof {
                    let post = self@;
                    assert(post =~= pre.update(i as int, doc));
                    assert forall|k: Seq<char>| #![auto]
                        key_lookup(post, k) == if k == doc.key_spec() {
                            Some(doc)
                        } else {
                            key_lookup(pre, k)
                        } by {
                        lemma_key_lookup_update(pre, i as int, doc, k);
                    }
                    assert forall|t: int|
                        0 <= t < post.len() implies seq![doc].contains(#[trigger] post[t])
                            || pre.contains(post[t]) by {
                        if t == i {
                            assert(post[t] == seq![doc][0]);
                            assert(seq![doc].contains(post[t]));
                        } else {
                            assert(post[t] == pre[t]);
                            assert(pre.contains(pre[t]));
                        }
                    }
                }
            },
            None => {
                self.docs.push(doc);
                proof {
                    lemma_key_lookup_none_iff(pre, doc.key_spec());
                    let post = self@;
                    assert(post =~= pre.push(doc));
                    assert forall|k: Seq<char>| #![auto]
                        key_lookup(post, k) == if k == doc.key_spec() {
                            Some(doc)
                        } else {
                            key_lookup(pre, k)
                        } by {
                        lemma_key_lookup_push(pre, doc, k);
                    }
                    assert forall|t: int|
                        0 <= t < post.len() implies seq![doc].contains(#[trigger] post[t])
                            || pre.contains(post[t]) by {
                        if t == pre.len() {
                            assert(post[t] == seq![doc][0]);
                            assert(seq![doc].contains(post[t]));
                        } else {
                            assert(post[t] == pre[t]);
                            assert(pre.contains(pre[t]));
                        }
                    }
                }
            },
        }
        id
    }

    /// Store a batch of documents in order; the whole batch is applied, and
    /// on an equal key a later document wins.
    pub fn insert_many(&mut self, docs: Vec<T>) -> (r: Vec<DocId>)
        requires
            old(self).wf(),
        ensures
            final(self).wf(),
            r@.len() == docs@.len(),
            forall|i: int| 0 <= i < docs@.len() ==> r@[i]@ == (#[trigger] docs@[i]).key_spec(),
            forall|k: Seq<char>| #![auto]
                key_lookup(final(self)@, k) == match batch_key_lookup(docs@, k) {
                    Some(d) => Some(d),
                    None => key_lookup(old(self)@, k),
                },
            (batch_distinct(docs@) && (forall|i: int|
                0 <= i < docs@.len() ==> key_lookup(old(self)@, (#[trigger] docs@[i]).key_spec())
                    is None)) ==> final(self)@ == old(self)@ + docs@,
            elems_from(final(self)@, old(self)@, docs@),
    {
        let ghost vs = docs@;
        let n = docs.len();
        let mut docs = docs;
        let mut ids: Vec<DocId> = Vec::new();
        let mut i: usize = 0;
        proof {
            assert(vs.take(0) =~= Seq::<T>::empty());
            assert(self@ == old(self)@);
            assert forall|t: int|
                0 <= t < self@.len() implies vs.contains(#[trigger] self@[t]) || old(
                    self,
                )@.contains(self@[t]) by {
                assert(self@[t] == old(self)@[t]);
                assert(old(self)@.contains(old(self)@[t]));
            }
        }
        while i < n
            invariant
                i <= n,
                n == vs.len(),
                docs@.len() == n - i,
                self.wf(),
                ids@.len() == i,
                forall|j: int| 0 <= j < i ==> ids@[j]@ == (#[trigger] vs[j]).key_spec(),
                forall|j: int| 0 <= j < n - i ==> #[trigger] docs@[j] == vs[j + i],
                forall|k: Seq<char>| #![auto]
                    key_lookup(self@, k) == match batch_key_lookup(vs.take(i as int), k) {
                        Some(d) => Some(d),
                        None => key_lookup(old(self)@, k),
                    },
                (batch_distinct(vs) && (forall|j: int|
                    0 <= j < vs.len() ==> key_lookup(old(self)@, (#[trigger] vs[j]).key_spec())
                        is None)) ==> self@ == old(self)@ + vs.take(i as int),
                elems_from(self@, old(self)@, vs),
            decreases n - i,
        {
            let ghost pre_docs = docs@;
            let doc = docs.remove(0);
            proof {
                assert(docs@ =~= pre_docs.skip(1));
                assert(vs.take(i as int + 1).drop_last() =~= vs.take(i as int));
                assert(vs.take(i as int + 1).last() == vs[i as int]);
                assert(doc == vs[i as int]);
            }
            let ghost pre_self = self@;
            let id = self.insert(doc);
            ids.push(id);
            proof {
                assert forall|t: int|
                    0 <= t < self@.len() implies vs.contains(#[trigger] self@[t]) || old(
                        self,
                    )@.contains(self@[t]) by {
                    assert(elems_from(self@, pre_self, seq![doc]));
                    if seq![doc].contains(self@[t]) {
                        assert(self@[t] == seq![doc][0]);
                        assert(self@[t] == vs[i as int]);
                        assert(vs.contains(vs[i as int]));
                    } else {
                        assert(pre_self.contains(self@[t]));
                    }
                }
            }
            proof {
                if batch_distinct(vs) && (forall|j: int|
                    0 <= j < vs.len() ==> key_lookup(old(self)@, (#[trigger] vs[j]).key_spec())
                        is None) {
                    assert(batch_key_lookup(vs.take(i as int), doc.key_spec()) is None) by {
                        lemma_batch_absent(vs, i as int, doc.key_spec());
                    }
                    assert(key_lookup(pre_self, doc.key_spec()) is None);
                    assert(self@ =~= old(self)@ + vs.take(i as int + 1));
                }
            }
            i = i + 1;
        }
        proof {
            assert(vs.take(n as int) =~= vs);
        }
        ids
    }

    /// Remove the document under a key; the answer says whether one was
    /// there.
    pub fn remove(&mut self, id: &DocId) -> (r: bool)
        requires
            old(self).wf(),
        ensures
            final(self).wf(),
            r == (key_lookup(old(self)@, id@) is Some),
            forall|k: Seq<char>| #![auto]
                key_lookup(final(self)@, k) == if k == id@ {
                    None::<T>
                } else {
                    key_lookup(old(self)@, k)
                },
    {
        let ghost pre = self@;
        match self.find_index(id) {
            Some(i) => {
                let _ = self.docs.remove(i);
                proof {
                    let post = self@;
                    assert(post =~= pre.remove(i as int));
                    assert forall|k: Seq<char>| #![auto]
                        key_lookup(post, k) == if k == id@ {
                            None::<T>
                        } else {
                            key_lookup(pre, k)
                        } by {
                        lemma_key_lookup_remove(pre, i as int, k);
                    }
                }
                true
            },
            None => false,
        }
    }

    /// Empty the entire collection; be careful.
    pub fn clear(&mut self)
        ensures
            final(self).wf(),
            final(self)@.len() == 0,
    {
        self.docs.clear();
    }
}

/// The documents whose structured value matches the filter, in store
/// order.
pub open spec fn matching_docs<T: DocRecord>(s: Seq<T>, f: ValueView) -> Seq<T> {
    s.filter(|d: T| matches_filter(d.value_model(), f))
}

/// The window a search answers: the matching documents in store order,
/// after dropping `skip` of them and keeping at most `limit`.  Without a
/// given skip none are dropped; without a given limit at most 1000 are
/// kept; a negative limit keeps everything.
pub open spec fn find_window<T: DocRecord>(
    s: Seq<T>,
    f: ValueView,
    skip: Option<u64>,
    limit: Option<i64>,
) -> Seq<T> {
    let m = matching_docs(s, f);
    let start = (match skip {
        Some(v) => v as int,
        None => 0int,
    });
    let cap = (match limit {
        Some(v) => if v < 0 {
            m.len() as int
        } else {
            v as int
        },
        None => 1000int,
    });
    let dropped = if start <= m.len() {
        m.skip(start)
    } else {
        Seq::empty()
    };
    if cap <= dropped.len() {
        dropped.take(cap)
    } else {
        dropped
    }
}

impl<T: DocRecord> MemoryCollection<T> {
    /// Count the documents matching a filter.
    pub fn count(&self, filter: &Value) -> (r: u64)
        requires
            self@.len() <= u64::MAX,
        ensures
            r == matching_docs(self@, filter@).len(),
    {
        let n = self.docs.len();
        let ghost p = |d: T| matches_filter(d.value_model(), filter@);
        let mut total: u64 = 0;
        let mut i: usize = 0;
        proof {
            assert(self@.take(0) =~= Seq::<T>::empty());
            assert(self@.take(0).filter(p) =~= Seq::<T>::empty());
        }
        while i < n
            invariant
                i <= n,
                n == self@.len(),
                n <= u64::MAX,
                p == (|d: T| matches_filter(d.value_model(), filter@)),
                total == self@.take(i as int).filter(p).len(),
                total <= i,
            decreases n - i,
        {
            proof {
                assert(self@.take(i as int + 1).drop_last() =~= self@.take(i as int));
                assert(self@.take(i as int + 1).last() == self@[i as int]);
                reveal(Seq::filter);
            }
            let v = self.docs[i].to_value();
            if matches_value(&v, filter) {
                total = total + 1;
            }
            proof {
                crate::memory_collection::lemma_filter_len_le(self@.take(i as int), p);
            }
            i = i + 1;
        }
        proof {
            assert(self@.take(n as int) =~= self@);
        }
        total
    }

    /// The documents matching a filter, in store order, after dropping
    /// `skip` of them and keeping at most `limit`.  Without a given skip
    /// none are dropped; without a given limit at most 1000 are kept; a
    /// negative limit keeps everything.
    pub fn find(&self, filter: &Value, skip: Option<u64>, limit: Option<i64>) -> (r: Vec<&T>)
        ensures
            r@.map_values(|d: &T| *d) == find_window(self@, filter@, skip, limit),
    {
        let n = self.docs.len();
        let ghost p = |d: T| matches_filter(d.value_model(), filter@);
        let mut all: Vec<&T> = Vec::new();
        let mut i: usize = 0;
        proof {
            assert(self@.take(0) =~= Seq::<T>::empty());
            assert(self@.take(0).filter(p) =~= Seq::<T>::empty());
            assert(all@.map_values(|d: &T| *d) =~= Seq::<T>::empty());
        }
        while i < n
            invariant
                i <= n,
                n == self@.len(),
                p == (|d: T| matches_filter(d.value_model(), filter@)),
                all@.map_values(|d: &T| *d) == self@.take(i as int).filter(p),
            decreases n - i,
        {
            proof {
                assert(self@.take(i as int + 1).drop_last() =~= self@.take(i as int));
                assert(self@.take(i as int + 1).last() == self@[i as int]);
                reveal(Seq::filter);
            }
            let ghost before = all@;
            let v = self.docs[i].to_value();
            if matches_value(&v, filter) {
                all.push(&self.docs[i]);
                proof {
                    assert(all@.map_values(|d: &T| *d) =~= before.map_values(|d: &T| *d).push(
                        self@[i as int],
                    ));
                }
            }
            proof {
                assert(all@.map_values(|d: &T| *d) =~= self@.take(i as int + 1).filter(p));
            }
            i = i + 1;
        }
        proof {
            assert(self@.take(n as int) =~= self@);
        }
        let m = all.len();
        let start_u64: u64 = match skip {
            Some(v) => v,
            None => 0,
        };
        let start: usize = if start_u64 > m as u64 {
            m
        } else {
            start_u64 as usize
        };
        let end: usize = match limit {
            Some(v) => {
                if v < 0 {
                    m
                } else if (v as u64) > (m - start) as u64 {
                    m
                } else {
                    start + (v as usize)
                }
            },
            None => {
                if 1000 > m - start {
                    m
                } else {
                    start + 1000
                }
            },
        };
        let mut out: Vec<&T> = Vec::new();
        let mut j: usize = start;
        while j < end
            invariant
                start <= j <= end,
                end <= m,
                m == all@.len(),
                out@.len() == j - start,
                forall|t: int| 0 <= t < j - start ==> out@[t] == #[trigger] all@[t + start],
            decreases end - j,
        {
            out.push(all[j]);
            j = j + 1;
        }
        proof {
            let ms = matching_docs(self@, filter@);
            assert(all@.map_values(|d: &T| *d) == ms);
            let s = (match skip {
                Some(v) => v as int,
                None => 0int,
            });
            let l = (match limit {
                Some(v) => if v < 0 {
                    ms.len() as int
                } else {
                    v as int
                },
                None => 1000int,
            });
            let dropped = if s <= ms.len() {
                ms.skip(s)
            } else {
                Seq::<T>::empty()
            };
            let kept = if l <= dropped.len() {
                dropped.take(l)
            } else {
                dropped
            };
            assert forall|t: int| 0 <= t < out@.len() implies out@.map_values(|d: &T| *d)[t]
                == kept[t] by {
                assert(out@[t] == all@[t + start]);
                assert(all@.map_values(|d: &T| *d)[t + start] == ms[t + start]);
            }
            assert(out@.map_values(|d: &T| *d) =~= kept);
        }
        out
    }
}

/// A filtered sequence is never longer than the one it came from.
pub proof fn lemma_filter_len_le<T>(s: Seq<T>, p: spec_fn(T) -> bool)
    ensures
        s.filter(p).len() <= s.len(),
    decreases s.len(),
{
    reveal(Seq::filter);
    if s.len() > 0 {
        lemma_filter_len_le(s.drop_last(), p);
    }
}

} // verus!
