//! The registry client's verified side: the index model, version listing
//! and ordering, the canonical index url, and the throttle's timing rule.
//!
//! Fetching over the network is a collaborator outside the library; the
//! in-memory registry below serves the engine from a local table of index
//! entries and tarballs.

use crate::crate_id::CrateId;
use crate::error::ApiError;
use crate::storage::{MemStorage, lookup};
use crate::text::str_eq;
use crate::version::{Version, VersionView, parse_matches, parse_version_view, version_cmp, lemma_version_order_total};
use vstd::multiset::Multiset;
use vstd::prelude::*;

verus! {

/// Raw index entry of one published version.
#[derive(Debug)]
pub struct CrateIndexVersion {
    pub name: String,
    pub yanked: bool,
    pub vers: String,
    pub deps: Vec<CrateIndexDep>,
    pub cksum: String,
}

/// Raw dependency record of an index entry.
#[derive(Debug)]
pub struct CrateIndexDep {
    pub name: String,
    pub req: String,
    pub optional: bool,
    pub default_features: bool,
    pub kind: String,
}

/// The version texts of the non-yanked index entries of one package, in
/// index order.
pub open spec fn listed_version_texts(idx: Seq<CrateIndexVersion>, name: Seq<char>) -> Seq<
    Seq<char>,
>
    decreases idx.len(),
{
    if idx.len() == 0 {
        Seq::empty()
    } else {
        let rest = listed_version_texts(idx.drop_last(), name);
        if idx.last().name@ == name && !idx.last().yanked {
            rest.push(idx.last().vers@)
        } else {
            rest
        }
    }
}

/// Whether some index entry names the package.
pub open spec fn index_has_name(idx: Seq<CrateIndexVersion>, name: Seq<char>) -> bool {
    exists|i: int| 0 <= i < idx.len() && (#[trigger] idx[i]).name@ == name
}

/// The versions are in ascending order.
pub open spec fn sorted_versions(s: Seq<Version>) -> bool {
    forall|i: int, j: int|
        0 <= i < j < s.len() ==> version_cmp((#[trigger] s[i])@, (#[trigger] s[j])@) <= 0
}

/// The version models of a list.
pub open spec fn version_views(s: Seq<Version>) -> Seq<VersionView> {
    s.map_values(|v: Version| v@)
}

/// Sort versions into ascending order; the result holds the same versions.
pub fn sort_versions(v: Vec<Version>) -> (r: Vec<Version>)
    ensures
        sorted_versions(r@),
        version_views(r@).to_multiset() == version_views(v@).to_multiset(),
{
    broadcast use vstd::seq_lib::group_to_multiset_ensures;

    let n = v.len();
    let mut v = v;
    let mut out: Vec<Version> = Vec::new();
    let ghost vs = version_views(v@);
    proof {
        assert(version_views(v@.skip(0)) =~= vs);
        assert(version_views(out@) =~= Seq::<VersionView>::empty());
        assert(version_views(out@).to_multiset() =~= Multiset::<VersionView>::empty());
        assert(vs.take(0) =~= Seq::<VersionView>::empty());
        assert(vs.take(0).to_multiset() =~= Multiset::<VersionView>::empty());
    }
    let mut i: usize = 0;
    while i < n
        invariant
            i <= n,
            n == vs.len(),
            v@.len() == n - i,
            forall|j: int| 0 <= j < n - i ==> (#[trigger] v@[j])@ == vs[j + i],
            sorted_versions(out@),
            version_views(out@).to_multiset() == vs.take(i as int).to_multiset(),
        decreases n - i,
    {
        let ghost pre_v = v@;
        let x = v.remove(0);
        proof {
            assert(v@ =~= pre_v.skip(1));
            assert(x@ == vs[i as int]);
        }
        let k = insert_pos(&out, &x);
        let ghost before = out@;
        out.insert(k, x);
        proof {
            broadcast use vstd::seq_lib::group_to_multiset_ensures;

            assert(out@ =~= before.insert(k as int, x));
            before.insert_ensures(k as int, x);
            assert forall|a: int, b: int| 0 <= a < b < out@.len() implies version_cmp(
                (#[trigger] out@[a])@,
                (#[trigger] out@[b])@,
            ) <= 0 by {
                let av = if a < k { before[a] } else if a == k { x } else { before[a - 1] };
                let bv = if b < k { before[b] } else if b == k { x } else { before[b - 1] };
                assert(out@[a] == av);
                assert(out@[b] == bv);
                if a == k {
                    // x sits before everything from position k on
                    assert(version_cmp(x@, before[k as int]@) < 0) by {
                        lemma_version_order_total(x@, before[k as int]@, x@);
                    }
                    if b > k + 1 {
                        lemma_version_order_total(x@, before[k as int]@, before[b - 1]@);
                    }
                } else if b == k {
                    assert(version_cmp(before[a]@, x@) <= 0);
                } else if a < k && b > k {
                    if b - 1 == a {
                        assert(version_cmp(before[a]@, x@) <= 0);
                        assert(version_cmp(x@, before[a]@) < 0) by {
                            lemma_version_order_total(x@, before[a]@, x@);
                        }
                    }
                }
            }
            // the inserted list holds the same versions plus x
            let mb = version_views(before);
            let ma = version_views(out@);
            assert(ma =~= mb.take(k as int) + (seq![x@] + mb.skip(k as int)));
            vstd::seq_lib::lemma_multiset_commutative(mb.take(k as int), seq![x@] + mb.skip(k as int));
            vstd::seq_lib::lemma_multiset_commutative(seq![x@], mb.skip(k as int));
            assert(mb =~= mb.take(k as int) + mb.skip(k as int));
            vstd::seq_lib::lemma_multiset_commutative(mb.take(k as int), mb.skip(k as int));
            assert(seq![x@] =~= Seq::<VersionView>::empty().push(x@));
            assert(seq![x@].to_multiset() =~= Multiset::<VersionView>::empty().insert(x@));
            assert(ma.to_multiset() =~= mb.to_multiset().insert(x@));
            assert(vs.take(i as int + 1).drop_last() =~= vs.take(i as int));
            assert(vs.take(i as int + 1) =~= vs.take(i as int).push(vs[i as int]));
            assert(vs.take(i as int + 1).to_multiset() =~= vs.take(
                i as int,
            ).to_multiset().insert(vs[i as int]));
        }
        i = i + 1;
    }
    proof {
        assert(vs.take(n as int) =~= vs);
    }
    out
}

/// The first position in a sorted list whose version follows the given
/// one.
fn insert_pos(out: &Vec<Version>, x: &Version) -> (r: usize)
    ensures
        r <= out@.len(),
        forall|j: int| 0 <= j < r ==> version_cmp((#[trigger] out@[j])@, x@) <= 0,
        r < out@.len() ==> version_cmp(x@, out@[r as int]@) < 0,
{
    let m = out.len();
    let mut k: usize = 0;
    while k < m
        invariant
            k <= m,
            m == out@.len(),
            forall|j: int| 0 <= j < k ==> version_cmp((#[trigger] out@[j])@, x@) <= 0,
        decreases m - k,
    {
        if x.lt(&out[k]) {
            return k;
        }
        proof {
            lemma_version_order_total(out@[k as int]@, x@, x@);
        }
        k = k + 1;
    }
    m
}

/// The registry can name a newest version for the package: it has index
/// entries, at least one is not yanked, and every listed version text
/// parses.
pub open spec fn registry_has_latest(idx: Seq<CrateIndexVersion>, name: Seq<char>) -> bool {
    &&& index_has_name(idx, name)
    &&& listed_version_texts(idx, name).len() > 0
    &&& forall|i: int|
        0 <= i < listed_version_texts(idx, name).len() ==> parse_version_view(
            #[trigger] listed_version_texts(idx, name)[i],
        ) is Some
}

/// One version is the newest of a collection.
pub open spec fn is_latest_of(texts: Seq<Seq<char>>, vv: VersionView) -> bool {
    &&& exists|i: int| 0 <= i < texts.len() && parse_matches(#[trigger] texts[i], Some(vv))
    &&& forall|i: int, w: VersionView|
        0 <= i < texts.len() && #[trigger] parse_matches(texts[i], Some(w)) ==> version_cmp(
            w,
            vv,
        ) <= 0
}

/// The in-memory registry: a local table of index entries and tarballs.
pub struct LocalRegistry {
    index: Vec<CrateIndexVersion>,
    tarballs: MemStorage,
}

impl LocalRegistry {
    /// The registry's index entries, in order.
    pub closed spec fn index_view(&self) -> Seq<CrateIndexVersion> {
        self.index@
    }

    /// The registry's tarball table.
    pub closed spec fn tarballs_view(&self) -> Seq<(Seq<char>, Seq<u8>)> {
        self.tarballs@
    }

    /// The tarball table holds each package at most once.
    pub closed spec fn wf(&self) -> bool {
        self.tarballs.wf()
    }

    /// An empty registry table.
    pub fn new() -> (r: Self)
        ensures
            r.wf(),
            r.index_view().len() == 0,
            r.tarballs_view().len() == 0,
    {
        LocalRegistry { index: Vec::new(), tarballs: MemStorage::new() }
    }

    /// Publish one index entry to the table.
    pub fn add_index_entry(&mut self, entry: CrateIndexVersion)
        requires
            old(self).wf(),
        ensures
            final(self).wf(),
            final(self).index_view() == old(self).index_view().push(entry),
            final(self).tarballs_view() == old(self).tarballs_view(),
    {
        self.index.push(entry);
    }

    /// Put one version's tarball into the table, keyed by the package path.
    pub fn add_tarball(&mut self, crate_id: &CrateId, bytes: Vec<u8>)
        requires
            old(self).wf(),
        ensures
            final(self).wf(),
            final(self).index_view() == old(self).index_view(),
            forall|k: Seq<char>| #![auto]
                lookup(final(self).tarballs_view(), k) == if k == crate::crate_id::crate_path_chars(
                    crate_id@,
                ) {
                    Some(bytes@)
                } else {
                    lookup(old(self).tarballs_view(), k)
                },
    {
        let key = crate_id.path();
        self.tarballs.put(key, bytes);
    }

    /// Fetch a version's tarball from the table; a missing one is a
    /// not-found outcome.
    pub fn tarball(&self, crate_id: &CrateId) -> (r: Option<&Vec<u8>>)
        ensures
            match r {
                Some(b) => lookup(self.tarballs_view(), crate::crate_id::crate_path_chars(crate_id@))
                    == Some(b@),
                None => lookup(self.tarballs_view(), crate::crate_id::crate_path_chars(crate_id@))
                    is None,
            },
    {
        let key = crate_id.path();
        self.tarballs.get(key.as_str())
    }

    /// A sorted (lowest to highest) list of non-yanked versions of a
    /// package.  An empty list is a valid outcome only when the package has
    /// index entries and none is usable; a package without any index entry
    /// is a not-found error; an entry whose version text is not a semantic
    /// version is malformed input.
    pub fn versions(&self, crate_name: &str) -> (r: Result<Vec<Version>, ApiError>)
        ensures
            match r {
                Ok(vs) => {
                    &&& index_has_name(self.index_view(), crate_name@)
                    &&& sorted_versions(vs@)
                    &&& exists|w: Seq<VersionView>|
                        {
                            &&& version_views(vs@).to_multiset() == #[trigger] w.to_multiset()
                            &&& w.len() == listed_version_texts(
                                self.index_view(),
                                crate_name@,
                            ).len()
                            &&& forall|i: int|
                                0 <= i < w.len() ==> parse_matches(
                                    listed_version_texts(self.index_view(), crate_name@)[i],
                                    Some(#[trigger] w[i]),
                                )
                        }
                },
                Err(e) => {
                    ||| (e is NotFound && !index_has_name(self.index_view(), crate_name@))
                    ||| (e is Input && exists|i: int|
                        0 <= i < listed_version_texts(self.index_view(), crate_name@).len()
                            && parse_matches(
                            #[trigger] listed_version_texts(self.index_view(), crate_name@)[i],
                            None,
                        ))
                },
            },
    {
        let n = self.index.len();
        let ghost texts = listed_version_texts(self.index_view(), crate_name@);
        let mut found_name = false;
        let mut parsed: Vec<Version> = Vec::new();
        let mut i: usize = 0;
        proof {
            assert(listed_version_texts(self.index_view().take(0), crate_name@)
                =~= Seq::<Seq<char>>::empty());
        }
        while i < n
            invariant
                i <= n,
                n == self.index_view().len(),
                found_name == (exists|j: int|
                    0 <= j < i && (#[trigger] self.index_view()[j]).name@ == crate_name@),
                parsed@.len() == listed_version_texts(
                    self.index_view().take(i as int),
                    crate_name@,
                ).len(),
                forall|j: int|
                    0 <= j < parsed@.len() ==> parse_matches(
                        listed_version_texts(self.index_view().take(i as int), crate_name@)[j],
                        Some((#[trigger] parsed@[j])@),
                    ),
            decreases n - i,
        {
            let ghost pre = listed_version_texts(self.index_view().take(i as int), crate_name@);
            proof {
                assert(self.index_view().take(i as int + 1).drop_last() =~= self.index_view().take(
                    i as int,
                ));
                assert(self.index_view().take(i as int + 1).last() == self.index_view()[i as int]);
            }
            let entry = &self.index[i];
            if str_eq(entry.name.as_str(), crate_name) {
                found_name = true;
                if !entry.yanked {
                    match Version::parse(entry.vers.as_str()) {
                        Some(version) => {
                            parsed.push(version);
                        },
                        None => {
                            proof {
                                let full = listed_version_texts(self.index_view(), crate_name@);
                                lemma_listed_prefix(self.index_view(), crate_name@, i as int + 1);
                                assert(full[pre.len() as int] == entry.vers@);
                            }
                            return Err(ApiError::Input(
                                "an index entry's version is not a semantic version".to_owned(),
                            ));
                        },
                    }
                }
            }
            i = i + 1;
        }
        proof {
            assert(self.index_view().take(n as int) =~= self.index_view());
        }
        if !found_name {
            return Err(ApiError::NotFound("no index entry for the package".to_owned()));
        }
        let ghost before_sort = parsed@;
        let sorted = sort_versions(parsed);
        proof {
            assert(version_views(sorted@).to_multiset() == version_views(before_sort).to_multiset());
        }
        Ok(sorted)
    }

    /// The newest version of a package.  A package whose index has no
    /// usable version is a not-found error.
    pub fn latest_version(&self, crate_name: &str) -> (r: Result<Version, ApiError>)
        ensures
            match r {
                Ok(v) => is_latest_of(listed_version_texts(self.index_view(), crate_name@), v@),
                Err(e) => (e is NotFound || e is Input) && !registry_has_latest(
                    self.index_view(),
                    crate_name@,
                ),
            },
            registry_has_latest(self.index_view(), crate_name@) ==> r is Ok,
    {
        broadcast use vstd::seq_lib::group_to_multiset_ensures;

        let versions = match self.versions(crate_name) {
            Ok(vs) => vs,
            Err(e) => {
                proof {
                    if e is Input {
                        let texts = listed_version_texts(self.index_view(), crate_name@);
                        let i = choose|i: int|
                            0 <= i < texts.len() && #[trigger] parse_matches(texts[i], None);
                        assert(parse_version_view(texts[i]) is None);
                    }
                }
                return Err(e);
            },
        };
        let count = versions.len();
        if count == 0 {
            proof {
                let texts = listed_version_texts(self.index_view(), crate_name@);
                let w = choose|w: Seq<VersionView>|
                    {
                        &&& version_views(versions@).to_multiset() == #[trigger] w.to_multiset()
                        &&& w.len() == texts.len()
                        &&& forall|i: int|
                            0 <= i < w.len() ==> parse_matches(texts[i], Some(#[trigger] w[i]))
                    };
                assert(version_views(versions@) =~= Seq::<VersionView>::empty());
                assert(w.to_multiset().len() == w.len());
                assert(version_views(versions@).to_multiset().len() == 0);
            }
            return Err(ApiError::NotFound("no versions found for the package".to_owned()));
        }
        let last = versions[count - 1].clone();
        proof {
            let ghost texts = listed_version_texts(self.index_view(), crate_name@);
            let w = choose|w: Seq<VersionView>|
                {
                    &&& version_views(versions@).to_multiset() == w.to_multiset()
                    &&& w.len() == texts.len()
                    &&& forall|i: int|
                        0 <= i < w.len() ==> parse_matches(texts[i], Some(#[trigger] w[i]))
                };
            let mapped = version_views(versions@);
            // the returned version is itself listed
            assert(mapped[count - 1] == last@);
            assert(mapped.to_multiset().contains(last@));
            assert(w.to_multiset().contains(last@));
            assert(w.contains(last@));
            let wi = choose|wi: int| 0 <= wi < w.len() && w[wi] == last@;
            assert(parse_matches(texts[wi], Some(last@)));
            // and every listed version stays at or below it
            assert forall|i: int, x: VersionView|
                0 <= i < texts.len() && #[trigger] parse_matches(texts[i], Some(x)) implies
                version_cmp(x, last@) <= 0 by {
                assert(parse_matches(texts[i], Some(w[i])));
                lemma_parse_unique(texts[i], x, w[i]);
                assert(w.to_multiset().contains(w[i]));
                assert(mapped.to_multiset().contains(w[i]));
                assert(mapped.contains(w[i]));
                let mi = choose|mi: int| 0 <= mi < mapped.len() && mapped[mi] == w[i];
                assert(versions@[mi]@ == w[i]);
                if mi < count - 1 {
                    assert(version_cmp(versions@[mi]@, versions@[count - 1]@) <= 0);
                } else {
                    lemma_version_order_total(x, last@, last@);
                }
            }
        }
        Ok(last)
    }

    /// Resolve `latest` to the newest version, and any other text as an
    /// explicit semantic version.
    pub fn version_or_latest(&self, crate_name: &str, version: &str) -> (r: Result<
        Version,
        ApiError,
    >)
        ensures
            match r {
                Ok(v) => {
                    if version@ == "latest"@ {
                        is_latest_of(listed_version_texts(self.index_view(), crate_name@), v@)
                    } else {
                        parse_matches(version@, Some(v@))
                    }
                },
                Err(e) => {
                    if version@ == "latest"@ {
                        e is NotFound || e is Input
                    } else {
                        e is Input && parse_matches(version@, None)
                    }
                },
            },
    {
        if str_eq(version, "latest") {
            self.latest_version(crate_name)
        } else {
            match Version::parse(version) {
                Some(v) => Ok(v),
                None => Err(ApiError::Input("the version is not a semantic version".to_owned())),
            }
        }
    }
}

/// Two parses of one text agree.
proof fn lemma_parse_unique(t: Seq<char>, a: VersionView, b: VersionView)
    requires
        parse_matches(t, Some(a)),
        parse_matches(t, Some(b)),
    ensures
        version_cmp(a, b) == 0,
{
    lemma_version_order_total(a, b, b);
    assert(a.pre =~= b.pre);
    assert(a == b);
}

/// The listed texts of a prefix are a prefix of the listed texts.
proof fn lemma_listed_prefix(idx: Seq<CrateIndexVersion>, name: Seq<char>, i: int)
    requires
        0 <= i <= idx.len(),
    ensures
        listed_version_texts(idx, name).len() >= listed_version_texts(idx.take(i), name).len(),
        forall|j: int|
            0 <= j < listed_version_texts(idx.take(i), name).len() ==> #[trigger] listed_version_texts(
                idx,
                name,
            )[j] == listed_version_texts(idx.take(i), name)[j],
    decreases idx.len() - i,
{
    if i == idx.len() {
        assert(idx.take(i) =~= idx);
    } else {
        lemma_listed_prefix(idx, name, i + 1);
        assert(idx.take(i + 1).drop_last() =~= idx.take(i));
        assert(idx.take(i + 1).last() == idx[i]);
    }
}

/// The throttle gate: a minimum one-second spacing between successive
/// tarball fetches.  The rule is pure; performing the wait is the
/// caller's side.
#[derive(Debug)]
pub struct Throttle {
    last_fetch_ms: Option<u64>,
}

impl Throttle {
    /// How long a fetch starting now must still wait: nothing for the
    /// first fetch, else the remainder of the one-second window opened by
    /// the previous fetch.
    pub closed spec fn wait_spec(&self, now_ms: u64) -> u64 {
        match self.last_fetch_ms {
            None => 0,
            Some(t) => {
                let elapsed: int = if now_ms >= t {
                    now_ms - t
                } else {
                    0
                };
                if elapsed >= 1000 {
                    0u64
                } else {
                    (1000 - elapsed) as u64
                }
            },
        }
    }

    /// A fresh gate; the first fetch proceeds immediately.
    pub fn new() -> (r: Self)
        ensures
            r.wait_spec(0) == 0,
            forall|now: u64| r.wait_spec(now) == 0,
    {
        Throttle { last_fetch_ms: None }
    }

    /// How long a fetch starting now must still wait.
    pub fn wait_ms(&self, now_ms: u64) -> (r: u64)
        ensures
            r == self.wait_spec(now_ms),
    {
        match self.last_fetch_ms {
            None => 0,
            Some(t) => {
                let elapsed = if now_ms >= t {
                    now_ms - t
                } else {
                    0
                };
                if elapsed >= 1000 {
                    0
                } else {
                    1000 - elapsed
                }
            },
        }
    }

    /// Record the start of a fetch.
    pub fn record(&mut self, now_ms: u64)
        ensures
            forall|later: u64| final(self).wait_spec(later) == if later >= now_ms + 1000 {
                0int
            } else if later >= now_ms {
                now_ms + 1000 - later
            } else {
                1000int
            },
    {
        self.last_fetch_ms = Some(now_ms);
    }
}

/// The canonical lowercase of a character: ASCII capitals map to their
/// small forms, everything else stays.
pub open spec fn lower_char(c: char) -> char {
    if c == 'A' {
        'a'
    } else if c == 'B' {
        'b'
    } else if c == 'C' {
        'c'
    } else if c == 'D' {
        'd'
    } else if c == 'E' {
        'e'
    } else if c == 'F' {
        'f'
    } else if c == 'G' {
        'g'
    } else if c == 'H' {
        'h'
    } else if c == 'I' {
        'i'
    } else if c == 'J' {
        'j'
    } else if c == 'K' {
        'k'
    } else if c == 'L' {
        'l'
    } else if c == 'M' {
        'm'
    } else if c == 'N' {
        'n'
    } else if c == 'O' {
        'o'
    } else if c == 'P' {
        'p'
    } else if c == 'Q' {
        'q'
    } else if c == 'R' {
        'r'
    } else if c == 'S' {
        's'
    } else if c == 'T' {
        't'
    } else if c == 'U' {
        'u'
    } else if c == 'V' {
        'v'
    } else if c == 'W' {
        'w'
    } else if c == 'X' {
        'x'
    } else if c == 'Y' {
        'y'
    } else if c == 'Z' {
        'z'
    } else {
        c
    }
}

/// The lowercase form of a text.
pub open spec fn lower_chars(s: Seq<char>) -> Seq<char> {
    s.map_values(|c: char| lower_char(c))
}

/// The small-form text of an ASCII capital, or nothing.
fn lower_char_text(c: char) -> (r: Option<&'static str>)
    ensures
        match r {
            Some(t) => t@ =~= seq![lower_char(c)] && lower_char(c) != c,
            None => lower_char(c) == c,
        },
{
    proof {
        reveal_strlit("a");
        reveal_strlit("b");
        reveal_strlit("c");
        reveal_strlit("d");
        reveal_strlit("e");
        reveal_strlit("f");
        reveal_strlit("g");
        reveal_strlit("h");
        reveal_strlit("i");
        reveal_strlit("j");
        reveal_strlit("k");
        reveal_strlit("l");
        reveal_strlit("m");
        reveal_strlit("n");
        reveal_strlit("o");
        reveal_strlit("p");
        reveal_strlit("q");
        reveal_strlit("r");
        reveal_strlit("s");
        reveal_strlit("t");
        reveal_strlit("u");
        reveal_strlit("v");
        reveal_strlit("w");
        reveal_strlit("x");
        reveal_strlit("y");
        reveal_strlit("z");
    }
    let u = c as u32;
    if u < 65 || u > 90 {
        proof {
            vstd::utf8::char_u32_cast(c, u);
        }
        return None;
    }
    proof {
        vstd::utf8::char_u32_cast(c, u);
    }
    Some(
        if u == 65 {
            "a"
        } else if u == 66 {
            "b"
        } else if u == 67 {
            "c"
        } else if u == 68 {
            "d"
        } else if u == 69 {
            "e"
        } else if u == 70 {
            "f"
        } else if u == 71 {
            "g"
        } else if u == 72 {
            "h"
        } else if u == 73 {
            "i"
        } else if u == 74 {
            "j"
        } else if u == 75 {
            "k"
        } else if u == 76 {
            "l"
        } else if u == 77 {
            "m"
        } else if u == 78 {
            "n"
        } else if u == 79 {
            "o"
        } else if u == 80 {
            "p"
        } else if u == 81 {
            "q"
        } else if u == 82 {
            "r"
        } else if u == 83 {
            "s"
        } else if u == 84 {
            "t"
        } else if u == 85 {
            "u"
        } else if u == 86 {
            "v"
        } else if u == 87 {
            "w"
        } else if u == 88 {
            "x"
        } else if u == 89 {
            "y"
        } else {
            "z"
        },
    )
}

/// The lowercase form of a text.
fn lower_text(s: &str) -> (r: String)
    ensures
        r@ == lower_chars(s@),
{
    let n = s.unicode_len();
    let mut out = String::new();
    let mut i: usize = 0;
    proof {
        assert(out@ =~= lower_chars(s@).take(0));
    }
    while i < n
        invariant
            i <= n,
            n == s@.len(),
            out@ == lower_chars(s@).take(i as int),
        decreases n - i,
    {
        let c = s.get_char(i);
        match lower_char_text(c) {
            Some(t) => {
                out.append(t);
            },
            None => {
                let piece = s.substring_char(i, i + 1);
                proof {
                    assert(piece@ =~= seq![s@[i as int]]);
                }
                out.append(piece);
            },
        }
        proof {
            assert(out@ =~= lower_chars(s@).take(i as int + 1));
        }
        i = i + 1;
    }
    proof {
        assert(lower_chars(s@).take(n as int) =~= lower_chars(s@));
    }
    out
}

/// The canonical sparse-index path of a package name, after lowercasing:
/// split by name length into the `1/`, `2/`, `3/{first}/` and
/// `{first two}/{next two}/` prefixes.
pub open spec fn crate_index_url_chars(name: Seq<char>) -> Seq<char> {
    let l = lower_chars(name);
    "https://index.crates.io/"@ + (if l.len() == 1 {
        "1/"@ + l
    } else if l.len() == 2 {
        "2/"@ + l
    } else if l.len() == 3 {
        "3/"@ + l.take(1) + seq!['/'] + l
    } else {
        l.take(2) + seq!['/'] + l.subrange(2, 4) + seq!['/'] + l
    })
}

/// The sparse-index url of a package name.
pub fn crate_index_url(crate_name: &str) -> (r: String)
    requires
        crate_name@.len() > 0,
    ensures
        r@ == crate_index_url_chars(crate_name@),
{
    proof {
        reveal_strlit("https://index.crates.io/");
        reveal_strlit("1/");
        reveal_strlit("2/");
        reveal_strlit("3/");
        reveal_strlit("/");
    }
    let lower = lower_text(crate_name);
    let n = lower.as_str().unicode_len();
    let mut out = "https://index.crates.io/".to_owned();
    if n == 1 {
        out.append("1/");
        out.append(lower.as_str());
    } else if n == 2 {
        out.append("2/");
        out.append(lower.as_str());
    } else if n == 3 {
        out.append("3/");
        out.append(lower.as_str().substring_char(0, 1));
        out.append("/");
        out.append(lower.as_str());
    } else {
        out.append(lower.as_str().substring_char(0, 2));
        out.append("/");
        out.append(lower.as_str().substring_char(2, 4));
        out.append("/");
        out.append(lower.as_str());
    }
    proof {
        assert(out@ =~= crate_index_url_chars(crate_name@));
    }
    out
}

} // verus!
