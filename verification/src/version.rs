//! Semantic versions.
//!
//! The engine models a version as plain data: the three numeric components,
//! the pre-release identifiers, and the build metadata text.  Versions are
//! totally ordered: numeric components first, then pre-release precedence
//! (a release outranks any pre-release of the same triple; identifiers are
//! compared left to right, numeric before alphanumeric, numeric ones by
//! value and alphanumeric ones by character order, a shorter prefix first),
//! and finally the build text as a tiebreak so that sorting is total.
//!
//! The build tiebreak compares the raw text by character order.  This is
//! the one place the order diverges from the registry convention, which
//! splits build metadata into dot-separated identifiers and compares
//! numeric ones by value; it can only show between two versions that agree
//! on the numeric triple and the pre-release and differ in build text.

use crate::text::dec_chars;
use vstd::prelude::*;

verus! {

/// What `semver::Version::parse` makes of a text: `None` where the text is
/// not a semantic version, else the three numeric components, the
/// pre-release text and the build metadata text.
pub uninterp spec fn semver_parts(s: Seq<char>) -> Option<(u64, u64, u64, Seq<char>, Seq<char>)>;

/// Mathematical model of one pre-release identifier.
pub enum PreIdentView {
    Numeric(Seq<char>),
    Alpha(Seq<char>),
}

/// Mathematical model of a version.
pub struct VersionView {
    pub major: u64,
    pub minor: u64,
    pub patch: u64,
    pub pre: Seq<PreIdentView>,
    pub build: Seq<char>,
}

/// One dot-separated pre-release identifier.
#[derive(Debug)]
pub enum PreIdent {
    /// All characters are decimal digits; compared numerically.  The text is
    /// kept canonical: non-empty, no leading zero.
    Numeric(String),
    /// At least one character is not a digit; compared by character order.
    Alpha(String),
}

impl View for PreIdent {
    type V = PreIdentView;

    open spec fn view(&self) -> PreIdentView {
        match self {
            PreIdent::Numeric(s) => PreIdentView::Numeric(s@),
            PreIdent::Alpha(s) => PreIdentView::Alpha(s@),
        }
    }
}

/// A semantic version.
#[derive(Debug)]
pub struct Version {
    pub major: u64,
    pub minor: u64,
    pub patch: u64,
    /// Pre-release identifiers; empty for a release.
    pub pre: Vec<PreIdent>,
    /// Build metadata text (without the leading `+`); ignored by semantic
    /// precedence but kept for rendering and used as a final ordering
    /// tiebreak.
    pub build: String,
}

impl View for Version {
    type V = VersionView;

    open spec fn view(&self) -> VersionView {
        VersionView {
            major: self.major,
            minor: self.minor,
            patch: self.patch,
            pre: self.pre@.map_values(|p: PreIdent| p@),
            build: self.build@,
        }
    }
}

/// Character-order comparison of two character sequences, by code point,
/// a strict prefix first.  The answer is in `{-1, 0, 1}`.
pub open spec fn lex_cmp(a: Seq<char>, b: Seq<char>) -> int
    decreases a.len(),
{
    if a.len() == 0 && b.len() == 0 {
        0
    } else if a.len() == 0 {
        -1
    } else if b.len() == 0 {
        1
    } else if (a[0] as u32) < (b[0] as u32) {
        -1
    } else if (a[0] as u32) > (b[0] as u32) {
        1
    } else {
        lex_cmp(a.skip(1), b.skip(1))
    }
}

/// Numeric comparison of two canonical digit strings: a shorter string is a
/// smaller number, equal lengths compare by digit order.
pub open spec fn num_cmp(a: Seq<char>, b: Seq<char>) -> int {
    if a.len() < b.len() {
        -1
    } else if a.len() > b.len() {
        1
    } else {
        lex_cmp(a, b)
    }
}

/// The text of one identifier.
pub open spec fn ident_chars(i: PreIdentView) -> Seq<char> {
    match i {
        PreIdentView::Numeric(s) => s,
        PreIdentView::Alpha(s) => s,
    }
}

/// Precedence of two identifiers: numeric before alphanumeric, numeric by
/// value, alphanumeric by character order.
pub open spec fn ident_cmp(a: PreIdentView, b: PreIdentView) -> int {
    match (a, b) {
        (PreIdentView::Numeric(x), PreIdentView::Numeric(y)) => num_cmp(x, y),
        (PreIdentView::Numeric(x), PreIdentView::Alpha(y)) => -1,
        (PreIdentView::Alpha(x), PreIdentView::Numeric(y)) => 1,
        (PreIdentView::Alpha(x), PreIdentView::Alpha(y)) => lex_cmp(x, y),
    }
}

/// Precedence of two identifier lists, left to right; a strict prefix comes
/// first.
pub open spec fn pre_cmp(a: Seq<PreIdentView>, b: Seq<PreIdentView>) -> int
    decreases a.len(),
{
    if a.len() == 0 && b.len() == 0 {
        0
    } else if a.len() == 0 {
        -1
    } else if b.len() == 0 {
        1
    } else if ident_cmp(a[0], b[0]) != 0 {
        ident_cmp(a[0], b[0])
    } else {
        pre_cmp(a.skip(1), b.skip(1))
    }
}

/// Total order on versions.  Numeric components first; for an equal triple a
/// release outranks any pre-release; two pre-releases compare by identifier
/// precedence; the build text is the final tiebreak (see the module doc).
pub open spec fn version_cmp(a: VersionView, b: VersionView) -> int {
    if a.major != b.major {
        if a.major < b.major { -1 } else { 1 }
    } else if a.minor != b.minor {
        if a.minor < b.minor { -1 } else { 1 }
    } else if a.patch != b.patch {
        if a.patch < b.patch { -1 } else { 1 }
    } else if a.pre.len() == 0 && b.pre.len() > 0 {
        1
    } else if a.pre.len() > 0 && b.pre.len() == 0 {
        -1
    } else if pre_cmp(a.pre, b.pre) != 0 {
        pre_cmp(a.pre, b.pre)
    } else {
        lex_cmp(a.build, b.build)
    }
}

proof fn lemma_lex_cmp_zero(a: Seq<char>, b: Seq<char>)
    ensures
        lex_cmp(a, b) == 0 <==> a == b,
    decreases a.len(),
{
    if a.len() == 0 && b.len() == 0 {
        assert(a =~= b);
    } else if a.len() == 0 || b.len() == 0 {
    } else {
        lemma_lex_cmp_zero(a.skip(1), b.skip(1));
        if lex_cmp(a, b) == 0 {
            assert(a[0] as u32 == b[0] as u32);
            assert(a[0] == b[0]) by {
                vstd::utf8::char_u32_cast(a[0], a[0] as u32);
                vstd::utf8::char_u32_cast(b[0], b[0] as u32);
            }
            assert(a.skip(1) == b.skip(1));
            assert(a.len() == b.len());
            assert forall|i: int| 0 <= i < a.len() implies a[i] == b[i] by {
                if i >= 1 {
                    assert(a[i] == a.skip(1)[i - 1]);
                    assert(b[i] == b.skip(1)[i - 1]);
                }
            }
            assert(a =~= b);
        } else {
            if a == b {
                assert(a.skip(1) =~= b.skip(1));
            }
        }
    }
}

proof fn lemma_lex_cmp_flip(a: Seq<char>, b: Seq<char>)
    ensures
        lex_cmp(a, b) == -lex_cmp(b, a),
    decreases a.len(),
{
    if a.len() > 0 && b.len() > 0 {
        lemma_lex_cmp_flip(a.skip(1), b.skip(1));
    }
}

proof fn lemma_lex_cmp_trans(a: Seq<char>, b: Seq<char>, c: Seq<char>)
    requires
        lex_cmp(a, b) <= 0,
        lex_cmp(b, c) <= 0,
    ensures
        lex_cmp(a, c) <= 0,
    decreases a.len(),
{
    if a.len() > 0 && b.len() > 0 && c.len() > 0 {
        if a[0] as u32 == b[0] as u32 && b[0] as u32 == c[0] as u32 {
            lemma_lex_cmp_trans(a.skip(1), b.skip(1), c.skip(1));
        }
    }
}

proof fn lemma_ident_cmp_zero(a: PreIdentView, b: PreIdentView)
    ensures
        ident_cmp(a, b) == 0 <==> a == b,
{
    match (a, b) {
        (PreIdentView::Numeric(x), PreIdentView::Numeric(y)) => {
            lemma_lex_cmp_zero(x, y);
        },
        (PreIdentView::Alpha(x), PreIdentView::Alpha(y)) => {
            lemma_lex_cmp_zero(x, y);
        },
        _ => {},
    }
}

proof fn lemma_ident_cmp_flip(a: PreIdentView, b: PreIdentView)
    ensures
        ident_cmp(a, b) == -ident_cmp(b, a),
{
    match (a, b) {
        (PreIdentView::Numeric(x), PreIdentView::Numeric(y)) => {
            lemma_lex_cmp_flip(x, y);
        },
        (PreIdentView::Alpha(x), PreIdentView::Alpha(y)) => {
            lemma_lex_cmp_flip(x, y);
        },
        _ => {},
    }
}

proof fn lemma_ident_cmp_trans(a: PreIdentView, b: PreIdentView, c: PreIdentView)
    requires
        ident_cmp(a, b) <= 0,
        ident_cmp(b, c) <= 0,
    ensures
        ident_cmp(a, c) <= 0,
{
    match (a, b, c) {
        (PreIdentView::Numeric(x), PreIdentView::Numeric(y), PreIdentView::Numeric(z)) => {
            if x.len() == y.len() && y.len() == z.len() {
                lemma_lex_cmp_trans(x, y, z);
            }
        },
        (PreIdentView::Alpha(x), PreIdentView::Alpha(y), PreIdentView::Alpha(z)) => {
            lemma_lex_cmp_trans(x, y, z);
        },
        _ => {},
    }
}

proof fn lemma_pre_cmp_zero(a: Seq<PreIdentView>, b: Seq<PreIdentView>)
    ensures
        pre_cmp(a, b) == 0 <==> a == b,
    decreases a.len(),
{
    if a.len() == 0 && b.len() == 0 {
        assert(a =~= b);
    } else if a.len() == 0 || b.len() == 0 {
    } else {
        lemma_ident_cmp_zero(a[0], b[0]);
        lemma_pre_cmp_zero(a.skip(1), b.skip(1));
        if pre_cmp(a, b) == 0 {
            assert(a.skip(1) == b.skip(1));
            assert(a.len() == b.len());
            assert forall|i: int| 0 <= i < a.len() implies a[i] == b[i] by {
                if i >= 1 {
                    assert(a[i] == a.skip(1)[i - 1]);
                    assert(b[i] == b.skip(1)[i - 1]);
                }
            }
            assert(a =~= b);
        } else {
            if a == b {
                assert(a.skip(1) =~= b.skip(1));
            }
        }
    }
}

proof fn lemma_pre_cmp_flip(a: Seq<PreIdentView>, b: Seq<PreIdentView>)
    ensures
        pre_cmp(a, b) == -pre_cmp(b, a),
    decreases a.len(),
{
    if a.len() > 0 && b.len() > 0 {
        lemma_ident_cmp_flip(a[0], b[0]);
        lemma_pre_cmp_flip(a.skip(1), b.skip(1));
    }
}

proof fn lemma_pre_cmp_trans(a: Seq<PreIdentView>, b: Seq<PreIdentView>, c: Seq<PreIdentView>)
    requires
        pre_cmp(a, b) <= 0,
        pre_cmp(b, c) <= 0,
    ensures
        pre_cmp(a, c) <= 0,
    decreases a.len(),
{
    if a.len() > 0 && b.len() > 0 && c.len() > 0 {
        lemma_ident_cmp_flip(a[0], b[0]);
        lemma_ident_cmp_flip(b[0], c[0]);
        lemma_ident_cmp_flip(a[0], c[0]);
        lemma_ident_cmp_trans(a[0], b[0], c[0]);
        lemma_ident_cmp_zero(a[0], b[0]);
        lemma_ident_cmp_zero(b[0], c[0]);
        lemma_ident_cmp_zero(a[0], c[0]);
        if ident_cmp(a[0], b[0]) == 0 && ident_cmp(b[0], c[0]) == 0 {
            lemma_pre_cmp_trans(a.skip(1), b.skip(1), c.skip(1));
        }
    }
}

/// The version order is a total order: antisymmetric, transitive, and zero
/// exactly on equal models.
pub proof fn lemma_version_order_total(a: VersionView, b: VersionView, c: VersionView)
    ensures
        version_cmp(a, b) == -version_cmp(b, a),
        version_cmp(a, b) == 0 <==> a == b,
        version_cmp(a, b) <= 0 && version_cmp(b, c) <= 0 ==> version_cmp(a, c) <= 0,
{
    lemma_pre_cmp_flip(a.pre, b.pre);
    lemma_pre_cmp_zero(a.pre, b.pre);
    lemma_lex_cmp_flip(a.build, b.build);
    lemma_lex_cmp_zero(a.build, b.build);
    if version_cmp(a, b) == 0 {
        assert(a == b);
    }
    if version_cmp(a, b) <= 0 && version_cmp(b, c) <= 0 {
        lemma_pre_cmp_zero(b.pre, c.pre);
        lemma_pre_cmp_zero(a.pre, c.pre);
        lemma_pre_cmp_flip(b.pre, c.pre);
        lemma_pre_cmp_flip(a.pre, c.pre);
        lemma_lex_cmp_zero(b.build, c.build);
        lemma_lex_cmp_zero(a.build, c.build);
        lemma_lex_cmp_flip(b.build, c.build);
        lemma_lex_cmp_flip(a.build, c.build);
        if pre_cmp(a.pre, b.pre) <= 0 && pre_cmp(b.pre, c.pre) <= 0 {
            lemma_pre_cmp_trans(a.pre, b.pre, c.pre);
        }
        if lex_cmp(a.build, b.build) <= 0 && lex_cmp(b.build, c.build) <= 0 {
            lemma_lex_cmp_trans(a.build, b.build, c.build);
        }
    }
}

/// Character-order comparison of two strings, as executable code.
fn str_lex_cmp(a: &str, b: &str) -> (r: i8)
    ensures
        r as int == lex_cmp(a@, b@),
{
    let a_len = a.unicode_len();
    let b_len = b.unicode_len();
    let mut i: usize = 0;
    proof {
        assert(a@.skip(0) =~= a@);
        assert(b@.skip(0) =~= b@);
    }
    loop
        invariant
            i <= a_len,
            i <= b_len,
            a_len == a@.len(),
            b_len == b@.len(),
            lex_cmp(a@, b@) == lex_cmp(a@.skip(i as int), b@.skip(i as int)),
        decreases a_len - i,
    {
        if i == a_len && i == b_len {
            return 0;
        } else if i == a_len {
            return -1;
        } else if i == b_len {
            return 1;
        }
        let ca = a.get_char(i) as u32;
        let cb = b.get_char(i) as u32;
        proof {
            let sa = a@.skip(i as int);
            let sb = b@.skip(i as int);
            assert(sa[0] == a@[i as int]);
            assert(sb[0] == b@[i as int]);
            assert(sa.skip(1) =~= a@.skip(i + 1));
            assert(sb.skip(1) =~= b@.skip(i + 1));
        }
        if ca < cb {
            return -1;
        } else if ca > cb {
            return 1;
        }
        i = i + 1;
    }
}

/// What parsing a version text yields: `None` where the grammar rejects
/// the text or its accepted pre-release text does not tokenize, else the
/// split components with the pre-release tokenized.
pub open spec fn parse_version_view(s: Seq<char>) -> Option<VersionView> {
    match semver_parts(s) {
        None => None,
        Some(p) => {
            if p.3.len() == 0 {
                Some(VersionView { major: p.0, minor: p.1, patch: p.2, pre: Seq::empty(), build: p.4 })
            } else {
                match pre_idents_of(p.3) {
                    Some(ids) => Some(
                        VersionView { major: p.0, minor: p.1, patch: p.2, pre: ids, build: p.4 },
                    ),
                    None => None,
                }
            }
        },
    }
}

/// The parse answer a version text settles on.
pub open spec fn parse_matches(s: Seq<char>, r: Option<VersionView>) -> bool {
    r == parse_version_view(s)
}

/// A decimal digit, by code point.
pub open spec fn is_digit_char(c: char) -> bool {
    48 <= c as u32 <= 57
}

/// A character allowed in pre-release and build identifiers: digits, ASCII
/// letters and the hyphen.
pub open spec fn is_ident_char(c: char) -> bool {
    ||| is_digit_char(c)
    ||| 65 <= c as u32 <= 90
    ||| 97 <= c as u32 <= 122
    ||| c as u32 == 45
}

/// The index of the first dot in the text, or its length if there is none.
pub open spec fn find_dot(s: Seq<char>) -> int
    decreases s.len(),
{
    if s.len() == 0 {
        0
    } else if s[0] as u32 == 46 {
        0
    } else {
        1 + find_dot(s.skip(1))
    }
}

proof fn lemma_find_dot_bounds(s: Seq<char>)
    ensures
        0 <= find_dot(s) <= s.len(),
    decreases s.len(),
{
    if s.len() > 0 && s[0] as u32 != 46 {
        lemma_find_dot_bounds(s.skip(1));
    }
}

/// What one dot-free token of the pre-release text stands for: a numeric
/// identifier (canonical digits), an alphanumeric identifier, or nothing
/// where the token is empty, has a leading zero among digits, or holds a
/// character outside the allowed set.
pub open spec fn classify_ident(t: Seq<char>) -> Option<PreIdentView> {
    if t.len() == 0 {
        None
    } else if forall|i: int| 0 <= i < t.len() ==> is_digit_char(#[trigger] t[i]) {
        if t.len() > 1 && t[0] as u32 == 48 {
            None
        } else {
            Some(PreIdentView::Numeric(t))
        }
    } else if forall|i: int| 0 <= i < t.len() ==> is_ident_char(#[trigger] t[i]) {
        Some(PreIdentView::Alpha(t))
    } else {
        None
    }
}

/// The identifier list of a non-empty pre-release text, split on dots; or
/// nothing where some token is not a valid identifier.
pub open spec fn pre_idents_of(s: Seq<char>) -> Option<Seq<PreIdentView>>
    decreases s.len(),
{
    let i = find_dot(s);
    if !(0 <= i < s.len()) {
        match classify_ident(s) {
            Some(id) => Some(seq![id]),
            None => None,
        }
    } else {
        match (classify_ident(s.take(i)), pre_idents_of(s.skip(i + 1))) {
            (Some(id), Some(rest)) => Some(seq![id] + rest),
            _ => None,
        }
    }
}

/// The pre-release text rendered back from its identifiers, dot-separated.
pub open spec fn pre_chars(pre: Seq<PreIdentView>) -> Seq<char>
    decreases pre.len(),
{
    if pre.len() == 0 {
        Seq::empty()
    } else if pre.len() == 1 {
        ident_chars(pre[0])
    } else {
        pre_chars(pre.drop_last()) + seq!['.'] + ident_chars(pre.last())
    }
}

/// The canonical text of a version: `major.minor.patch`, then `-pre` if
/// there are pre-release identifiers, then `+build` if there is build
/// metadata.
pub open spec fn version_chars(v: VersionView) -> Seq<char> {
    dec_chars(v.major as nat) + seq!['.'] + dec_chars(v.minor as nat) + seq!['.'] + dec_chars(
        v.patch as nat,
    ) + (if v.pre.len() > 0 {
        seq!['-'] + pre_chars(v.pre)
    } else {
        Seq::<char>::empty()
    }) + (if v.build.len() > 0 {
        seq!['+'] + v.build
    } else {
        Seq::<char>::empty()
    })
}

/// Relies on `semver::Version::parse`: accepts exactly the semantic-version
/// grammar and splits the text into major, minor, patch, pre-release text
/// and build metadata text.
#[verifier::external_body]
fn parse_semver_parts(text: &str) -> (r: Option<(u64, u64, u64, String, String)>)
    ensures
        match (r, semver_parts(text@)) {
            (Some(a), Some(b)) => {
                &&& a.0 == b.0
                &&& a.1 == b.1
                &&& a.2 == b.2
                &&& a.3@ == b.3
                &&& a.4@ == b.4
            },
            (None, None) => true,
            _ => false,
        },
{
    match semver::Version::parse(text) {
        Ok(v) => Some((
            v.major,
            v.minor,
            v.patch,
            v.pre.as_str().to_string(),
            v.build.as_str().to_string(),
        )),
        Err(_) => None,
    }
}

/// The index of the first dot in the text, or its length if there is none.
fn find_first_dot(s: &str) -> (r: usize)
    ensures
        r as int == find_dot(s@),
        r <= s@.len(),
{
    proof {
        lemma_find_dot_bounds(s@);
        assert(s@.skip(0) =~= s@);
    }
    let n = s.unicode_len();
    let mut i: usize = 0;
    while i < n
        invariant
            i <= n,
            n == s@.len(),
            find_dot(s@) == i + find_dot(s@.skip(i as int)),
            forall|j: int| 0 <= j < i ==> (#[trigger] s@[j]) as u32 != 46,
        decreases n - i,
    {
        let c = s.get_char(i) as u32;
        proof {
            let sa = s@.skip(i as int);
            assert(sa[0] == s@[i as int]);
            assert(sa.skip(1) =~= s@.skip(i + 1));
        }
        if c == 46 {
            proof {
                lemma_find_dot_bounds(s@.skip(i as int));
            }
            return i;
        }
        i = i + 1;
    }
    proof {
        assert(s@.skip(i as int) =~= Seq::<char>::empty());
    }
    n
}

/// Classify one dot-free token of the pre-release text.
fn classify_token(t: &str) -> (r: Option<PreIdent>)
    ensures
        match (r, classify_ident(t@)) {
            (Some(p), Some(q)) => p@ == q,
            (None, None) => true,
            _ => false,
        },
{
    let n = t.unicode_len();
    if n == 0 {
        return None;
    }
    let mut all_digits = true;
    let mut all_idents = true;
    let mut i: usize = 0;
    while i < n
        invariant
            i <= n,
            n == t@.len(),
            all_digits == (forall|j: int| 0 <= j < i ==> is_digit_char(#[trigger] t@[j])),
            all_idents == (forall|j: int| 0 <= j < i ==> is_ident_char(#[trigger] t@[j])),
        decreases n - i,
    {
        let c = t.get_char(i) as u32;
        let digit = 48 <= c && c <= 57;
        let ident = digit || (65 <= c && c <= 90) || (97 <= c && c <= 122) || c == 45;
        all_digits = all_digits && digit;
        all_idents = all_idents && ident;
        i = i + 1;
    }
    if all_digits {
        if n > 1 && t.get_char(0) as u32 == 48 {
            None
        } else {
            Some(PreIdent::Numeric(t.to_owned()))
        }
    } else if all_idents {
        Some(PreIdent::Alpha(t.to_owned()))
    } else {
        None
    }
}

/// Split a non-empty pre-release text into its identifiers.
fn parse_pre_list(s: &str) -> (r: Option<Vec<PreIdent>>)
    ensures
        match (r, pre_idents_of(s@)) {
            (Some(v), Some(w)) => v@.map_values(|p: PreIdent| p@) == w,
            (None, None) => true,
            _ => false,
        },
    decreases s@.len(),
{
    let n = s.unicode_len();
    let i = find_first_dot(s);
    if i == n {
        match classify_token(s) {
            Some(id) => {
                let mut out: Vec<PreIdent> = Vec::new();
                out.push(id);
                proof {
                    assert(out@.map_values(|p: PreIdent| p@) =~= seq![id@]);
                }
                Some(out)
            },
            None => None,
        }
    } else {
        let head = s.substring_char(0, i);
        let tail = s.substring_char(i + 1, n);
        proof {
            assert(head@ == s@.take(i as int));
            assert(tail@ == s@.skip(i + 1));
            assert(tail@.len() < s@.len());
        }
        match (classify_token(head), parse_pre_list(tail)) {
            (Some(id), Some(rest)) => {
                let mut out: Vec<PreIdent> = Vec::new();
                out.push(id);
                let mut rest = rest;
                let ghost rest0 = rest@;
                out.append(&mut rest);
                proof {
                    let f = |p: PreIdent| p@;
                    let w = pre_idents_of(s@)->Some_0;
                    assert(out@ =~= seq![id] + rest0);
                    assert forall|k: int| 0 <= k < out@.len() implies out@.map_values(f)[k]
                        == w[k] by {
                        if k >= 1 {
                            assert(out@[k] == rest0[k - 1]);
                            assert(rest0.map_values(f)[k - 1] == rest0[k - 1]@);
                        }
                    }
                    assert(out@.map_values(f) =~= w);
                }
                Some(out)
            },
            _ => None,
        }
    }
}

impl Clone for PreIdent {
    /// A clone carries the same model.
    fn clone(&self) -> (r: Self)
        ensures
            r@ == self@,
    {
        match self {
            PreIdent::Numeric(s) => PreIdent::Numeric(s.clone()),
            PreIdent::Alpha(s) => PreIdent::Alpha(s.clone()),
        }
    }
}

impl PreIdent {
    /// The identifier's text.
    pub fn text(&self) -> (r: &str)
        ensures
            r@ == ident_chars(self@),
    {
        match self {
            PreIdent::Numeric(s) => s.as_str(),
            PreIdent::Alpha(s) => s.as_str(),
        }
    }

    /// Precedence comparison of two identifiers.
    pub fn cmp_with(&self, other: &PreIdent) -> (r: i8)
        ensures
            r as int == ident_cmp(self@, other@),
    {
        match (self, other) {
            (PreIdent::Numeric(x), PreIdent::Numeric(y)) => {
                let xn = x.as_str().unicode_len();
                let yn = y.as_str().unicode_len();
                if xn < yn {
                    -1
                } else if xn > yn {
                    1
                } else {
                    str_lex_cmp(x.as_str(), y.as_str())
                }
            },
            (PreIdent::Numeric(_), PreIdent::Alpha(_)) => -1,
            (PreIdent::Alpha(_), PreIdent::Numeric(_)) => 1,
            (PreIdent::Alpha(x), PreIdent::Alpha(y)) => str_lex_cmp(
                x.as_str(),
                y.as_str(),
            ),
        }
    }
}

impl Clone for Version {
    /// A clone carries the same model.
    fn clone(&self) -> (r: Self)
        ensures
            r@ == self@,
    {
        let mut pre: Vec<PreIdent> = Vec::new();
        let n = self.pre.len();
        let mut i: usize = 0;
        while i < n
            invariant
                i <= n,
                n == self.pre@.len(),
                pre@.len() == i,
                forall|j: int| 0 <= j < i ==> pre@[j]@ == #[trigger] self.pre@[j]@,
            decreases n - i,
        {
            pre.push(self.pre[i].clone());
            i = i + 1;
        }
        let r = Version {
            major: self.major,
            minor: self.minor,
            patch: self.patch,
            pre,
            build: self.build.clone(),
        };
        proof {
            assert(r@.pre =~= self@.pre);
        }
        r
    }
}

impl Version {
    /// A release version with the given numeric components.
    pub fn new(major: u64, minor: u64, patch: u64) -> (r: Version)
        ensures
            r@.major == major,
            r@.minor == minor,
            r@.patch == patch,
            r@.pre.len() == 0,
            r@.build.len() == 0,
    {
        let r = Version {
            major,
            minor,
            patch,
            pre: Vec::new(),
            build: String::new(),
        };
        proof {
            assert(r@.pre =~= Seq::<PreIdentView>::empty());
        }
        r
    }

    /// Parse a semantic version text.  The result is `Some` exactly where
    /// the semantic-version grammar accepts the text and the accepted
    /// pre-release text splits into valid identifiers.
    pub fn parse(text: &str) -> (r: Option<Version>)
        ensures
            match r {
                Some(v) => parse_version_view(text@) == Some(v@),
                None => parse_version_view(text@) is None,
            },
    {
        match parse_semver_parts(text) {
            Some((major, minor, patch, pre, build)) => {
                if pre.as_str().unicode_len() == 0 {
                    let v = Version { major, minor, patch, pre: Vec::new(), build };
                    proof {
                        assert(v@.pre =~= Seq::<PreIdentView>::empty());
                    }
                    Some(v)
                } else {
                    match parse_pre_list(pre.as_str()) {
                        Some(idents) => Some(
                            Version { major, minor, patch, pre: idents, build },
                        ),
                        None => None,
                    }
                }
            },
            None => None,
        }
    }

    /// The canonical text of this version.
    pub fn to_text(&self) -> (r: String)
        ensures
            r@ == version_chars(self@),
    {
        proof {
            reveal_strlit(".");
            reveal_strlit("-");
            reveal_strlit("+");
        }
        let mut out = crate::text::fmt_u64(self.major);
        out.append(".");
        let minor_text = crate::text::fmt_u64(self.minor);
        out.append(minor_text.as_str());
        out.append(".");
        let patch_text = crate::text::fmt_u64(self.patch);
        out.append(patch_text.as_str());
        let ghost head = dec_chars(self.major as nat) + seq!['.'] + dec_chars(
            self.minor as nat,
        ) + seq!['.'] + dec_chars(self.patch as nat);
        proof {
            assert(out@ =~= head);
        }
        let n = self.pre.len();
        if n > 0 {
            out.append("-");
            let mut k: usize = 0;
            while k < n
                invariant
                    k <= n,
                    n == self.pre@.len(),
                    n == self@.pre.len(),
                    out@ == head + seq!['-'] + pre_chars(self@.pre.take(k as int)),
                decreases n - k,
            {
                if k > 0 {
                    out.append(".");
                }
                let t = self.pre[k].text();
                out.append(t);
                proof {
                    reveal_strlit(".");
                    let pv = self@.pre;
                    assert(pv.take(k as int + 1).drop_last() =~= pv.take(k as int));
                    assert(pv.take(k as int + 1).last() == pv[k as int]);
                    assert(self@.pre[k as int] == self.pre@[k as int]@);
                    if k == 0 {
                        assert(pre_chars(pv.take(1)) == ident_chars(pv[0]));
                        assert(out@ =~= head + seq!['-'] + pre_chars(pv.take(1)));
                    } else {
                        assert(pre_chars(pv.take(k as int + 1)) == pre_chars(
                            pv.take(k as int),
                        ) + seq!['.'] + ident_chars(pv[k as int]));
                        assert(out@ =~= head + seq!['-'] + pre_chars(pv.take(k as int + 1)));
                    }
                }
                k = k + 1;
            }
            proof {
                assert(self@.pre.take(n as int) =~= self@.pre);
            }
        }
        if self.build.as_str().unicode_len() > 0 {
            out.append("+");
            out.append(self.build.as_str());
        }
        proof {
            assert(out@ =~= version_chars(self@));
        }
        out
    }

    /// Total-order comparison of two versions.
    #[verifier::loop_isolation(false)]
    pub fn cmp_with(&self, other: &Version) -> (r: i8)
        ensures
            r as int == version_cmp(self@, other@),
    {
        if self.major != other.major {
            return if self.major < other.major { -1 } else { 1 };
        }
        if self.minor != other.minor {
            return if self.minor < other.minor { -1 } else { 1 };
        }
        if self.patch != other.patch {
            return if self.patch < other.patch { -1 } else { 1 };
        }
        if self.pre.len() == 0 && other.pre.len() > 0 {
            return 1;
        }
        if self.pre.len() > 0 && other.pre.len() == 0 {
            return -1;
        }
        let n = self.pre.len();
        let m = other.pre.len();
        let mut i: usize = 0;
        proof {
            assert(self@.pre.skip(0) =~= self@.pre);
            assert(other@.pre.skip(0) =~= other@.pre);
        }
        loop
            invariant
                i <= n,
                i <= m,
                n == self@.pre.len(),
                m == other@.pre.len(),
                n == self.pre@.len(),
                m == other.pre@.len(),
                pre_cmp(self@.pre, other@.pre) == pre_cmp(
                    self@.pre.skip(i as int),
                    other@.pre.skip(i as int),
                ),
            decreases n - i,
        {
            if i == n && i == m {
                proof {
                    assert(self@.pre.skip(i as int) =~= Seq::<PreIdentView>::empty());
                    assert(other@.pre.skip(i as int) =~= Seq::<PreIdentView>::empty());
                }
                return str_lex_cmp(self.build.as_str(), other.build.as_str());
            } else if i == n {
                proof {
                    assert(self@.pre.skip(i as int) =~= Seq::<PreIdentView>::empty());
                    assert(other@.pre.skip(i as int).len() == m - i);
                }
                return -1;
            } else if i == m {
                proof {
                    assert(other@.pre.skip(i as int) =~= Seq::<PreIdentView>::empty());
                    assert(self@.pre.skip(i as int).len() == n - i);
                }
                return 1;
            }
            let c = self.pre[i].cmp_with(&other.pre[i]);
            proof {
                let sa = self@.pre.skip(i as int);
                let sb = other@.pre.skip(i as int);
                assert(sa[0] == self@.pre[i as int]);
                assert(sb[0] == other@.pre[i as int]);
                assert(self@.pre[i as int] == self.pre@[i as int]@);
                assert(other@.pre[i as int] == other.pre@[i as int]@);
                assert(sa.skip(1) =~= self@.pre.skip(i + 1));
                assert(sb.skip(1) =~= other@.pre.skip(i + 1));
            }
            if c != 0 {
                return c;
            }
            i = i + 1;
        }
    }

    /// Strict order: `self` is an earlier version than `other`.
    pub fn lt(&self, other: &Version) -> (r: bool)
        ensures
            r == (version_cmp(self@, other@) < 0),
    {
        self.cmp_with(other) < 0
    }

    /// Non-strict order.
    pub fn le(&self, other: &Version) -> (r: bool)
        ensures
            r == (version_cmp(self@, other@) <= 0),
    {
        self.cmp_with(other) <= 0
    }

    /// The two versions hold the same model.
    pub fn same_as(&self, other: &Version) -> (r: bool)
        ensures
            r == (self@ == other@),
    {
        let c = self.cmp_with(other);
        proof {
            lemma_version_order_total(self@, other@, other@);
        }
        c == 0
    }
}

} // verus!
