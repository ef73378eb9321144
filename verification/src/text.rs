//! Text helpers: decimal rendering of numbers.

use vstd::prelude::*;

verus! {

/// The character of one decimal digit.
pub open spec fn digit_char(d: int) -> char {
    if d == 0 {
        '0'
    } else if d == 1 {
        '1'
    } else if d == 2 {
        '2'
    } else if d == 3 {
        '3'
    } else if d == 4 {
        '4'
    } else if d == 5 {
        '5'
    } else if d == 6 {
        '6'
    } else if d == 7 {
        '7'
    } else if d == 8 {
        '8'
    } else {
        '9'
    }
}

/// The canonical decimal rendering of a natural number: no leading zeros,
/// `0` for zero.
pub open spec fn dec_chars(n: nat) -> Seq<char>
    decreases n,
{
    if n < 10 {
        seq![digit_char(n as int)]
    } else {
        dec_chars(n / 10).push(digit_char((n % 10) as int))
    }
}

/// The one-character string of a decimal digit.
fn digit_str(d: u64) -> (r: &'static str)
    requires
        d < 10,
    ensures
        r@ =~= seq![digit_char(d as int)],
{
    let r: &'static str = if d == 0 {
        "0"
    } else if d == 1 {
        "1"
    } else if d == 2 {
        "2"
    } else if d == 3 {
        "3"
    } else if d == 4 {
        "4"
    } else if d == 5 {
        "5"
    } else if d == 6 {
        "6"
    } else if d == 7 {
        "7"
    } else if d == 8 {
        "8"
    } else {
        "9"
    };
    proof {
        reveal_strlit("0");
        reveal_strlit("1");
        reveal_strlit("2");
        reveal_strlit("3");
        reveal_strlit("4");
        reveal_strlit("5");
        reveal_strlit("6");
        reveal_strlit("7");
        reveal_strlit("8");
        reveal_strlit("9");
    }
    r
}

/// `p` is a prefix of `s`.
pub open spec fn is_prefix(p: Seq<char>, s: Seq<char>) -> bool {
    p.len() <= s.len() && s.take(p.len() as int) == p
}

/// How often a character occurs in the text.
pub open spec fn count_char(s: Seq<char>, c: char) -> int
    decreases s.len(),
{
    if s.len() == 0 {
        0
    } else {
        (if s[0] == c {
            1int
        } else {
            0int
        }) + count_char(s.skip(1), c)
    }
}

/// The index of the first occurrence of a character, or the length of the
/// text if there is none.
pub open spec fn find_char(s: Seq<char>, c: char) -> int
    decreases s.len(),
{
    if s.len() == 0 {
        0
    } else if s[0] == c {
        0
    } else {
        1 + find_char(s.skip(1), c)
    }
}

/// The index of the last occurrence of a character, or `-1` if there is
/// none.
pub open spec fn rfind_char(s: Seq<char>, c: char) -> int
    decreases s.len(),
{
    if s.len() == 0 {
        -1
    } else if s.last() == c {
        s.len() - 1
    } else {
        rfind_char(s.drop_last(), c)
    }
}

/// A count of occurrences is never negative.
pub proof fn lemma_count_nonneg(s: Seq<char>, c: char)
    ensures
        count_char(s, c) >= 0,
    decreases s.len(),
{
    if s.len() > 0 {
        lemma_count_nonneg(s.skip(1), c);
    }
}

/// Where the first occurrence sits, what it is, and how the count splits
/// around it.
pub proof fn lemma_find_char(s: Seq<char>, c: char)
    ensures
        0 <= find_char(s, c) <= s.len(),
        find_char(s, c) < s.len() ==> s[find_char(s, c)] == c,
        forall|j: int| 0 <= j < find_char(s, c) ==> s[j] != c,
        count_char(s, c) == if find_char(s, c) == s.len() {
            0int
        } else {
            1 + count_char(s.skip(find_char(s, c) + 1), c)
        },
    decreases s.len(),
{
    if s.len() == 0 {
    } else if s[0] == c {
        assert(s.skip(0int + 1) =~= s.skip(1));
    } else {
        lemma_find_char(s.skip(1), c);
        let f = find_char(s, c);
        assert forall|j: int| 0 <= j < f implies s[j] != c by {
            if j >= 1 {
                assert(s.skip(1)[j - 1] == s[j]);
            }
        }
        if f < s.len() {
            assert(s[f] == s.skip(1)[f - 1]);
            assert(s.skip(1).skip(f - 1 + 1) =~= s.skip(f + 1));
        }
    }
}

/// Where the last occurrence sits and that nothing follows it.
pub proof fn lemma_rfind_char(s: Seq<char>, c: char)
    ensures
        -1 <= rfind_char(s, c) < s.len(),
        rfind_char(s, c) >= 0 ==> s[rfind_char(s, c)] == c,
        forall|j: int| rfind_char(s, c) < j < s.len() ==> s[j] != c,
    decreases s.len(),
{
    if s.len() == 0 {
    } else if s.last() == c {
    } else {
        lemma_rfind_char(s.drop_last(), c);
        let f = rfind_char(s, c);
        assert forall|j: int| f < j < s.len() implies s[j] != c by {
            if j < s.len() - 1 {
                assert(s.drop_last()[j] == s[j]);
            }
        }
    }
}

/// The index of the first occurrence of a character, or the length of the
/// text if there is none, as executable code.
pub fn str_find_char(s: &str, c: char) -> (r: usize)
    ensures
        r as int == find_char(s@, c),
        r <= s@.len(),
{
    proof {
        lemma_find_char(s@, c);
        assert(s@.skip(0) =~= s@);
    }
    let n = s.unicode_len();
    let mut i: usize = 0;
    while i < n
        invariant
            i <= n,
            n == s@.len(),
            find_char(s@, c) == i + find_char(s@.skip(i as int), c),
            forall|j: int| 0 <= j < i ==> s@[j] != c,
        decreases n - i,
    {
        let cur = s.get_char(i);
        proof {
            let sa = s@.skip(i as int);
            assert(sa[0] == s@[i as int]);
            assert(sa.skip(1) =~= s@.skip(i + 1));
        }
        if cur as u32 == c as u32 {
            proof {
                vstd::utf8::char_u32_cast(cur, cur as u32);
                vstd::utf8::char_u32_cast(c, c as u32);
                lemma_find_char(s@.skip(i as int), c);
            }
            return i;
        }
        proof {
            vstd::utf8::char_u32_cast(cur, cur as u32);
            vstd::utf8::char_u32_cast(c, c as u32);
        }
        i = i + 1;
    }
    proof {
        assert(s@.skip(n as int) =~= Seq::<char>::empty());
    }
    n
}

/// The index one past the last occurrence of a character, or zero if there
/// is none, as executable code (`rfind_char` plus one).
pub fn str_rfind_char_plus_one(s: &str, c: char) -> (r: usize)
    ensures
        r as int == rfind_char(s@, c) + 1,
        r <= s@.len(),
{
    proof {
        lemma_rfind_char(s@, c);
    }
    let n = s.unicode_len();
    let mut i: usize = n;
    proof {
        assert(s@.take(n as int) =~= s@);
    }
    while i > 0
        invariant
            i <= n,
            n == s@.len(),
            rfind_char(s@, c) == rfind_char(s@.take(i as int), c),
            forall|j: int| i <= j < n ==> s@[j] != c,
        decreases i,
    {
        let cur = s.get_char(i - 1);
        proof {
            let sa = s@.take(i as int);
            assert(sa.last() == s@[i - 1]);
            assert(sa.drop_last() =~= s@.take(i - 1));
        }
        if cur as u32 == c as u32 {
            proof {
                vstd::utf8::char_u32_cast(cur, cur as u32);
                vstd::utf8::char_u32_cast(c, c as u32);
            }
            return i;
        }
        proof {
            vstd::utf8::char_u32_cast(cur, cur as u32);
            vstd::utf8::char_u32_cast(c, c as u32);
        }
        i = i - 1;
    }
    proof {
        assert(s@.take(0) =~= Seq::<char>::empty());
    }
    0
}

/// The texts of an optional string.
pub open spec fn opt_chars(o: Option<String>) -> Option<Seq<char>> {
    match o {
        Some(s) => Some(s@),
        None => None,
    }
}

/// The texts of a string list.
pub open spec fn texts_of(v: Seq<String>) -> Seq<Seq<char>> {
    v.map_values(|s: String| s@)
}

/// Clone a string list to one with the same texts.
pub fn clone_string_vec(v: &Vec<String>) -> (r: Vec<String>)
    ensures
        texts_of(r@) == texts_of(v@),
        r@.len() == v@.len(),
        forall|i: int| 0 <= i < v@.len() ==> r@[i]@ == #[trigger] v@[i]@,
{
    let n = v.len();
    let mut out: Vec<String> = Vec::new();
    let mut i: usize = 0;
    while i < n
        invariant
            i <= n,
            n == v@.len(),
            out@.len() == i,
            forall|j: int| 0 <= j < i ==> out@[j]@ == #[trigger] v@[j]@,
        decreases n - i,
    {
        out.push(v[i].clone());
        i = i + 1;
    }
    proof {
        assert(texts_of(out@) =~= texts_of(v@));
    }
    out
}

/// String equality on slices.
pub fn str_eq(a: &str, b: &str) -> (r: bool)
    ensures
        r == (a@ == b@),
{
    a.to_owned() == b.to_owned()
}

/// Whether `p` is a prefix of `s`.
pub fn str_starts_with(s: &str, p: &str) -> (r: bool)
    ensures
        r == is_prefix(p@, s@),
{
    let np = p.unicode_len();
    let ns = s.unicode_len();
    if np > ns {
        proof {
            assert(!is_prefix(p@, s@));
        }
        return false;
    }
    let mut i: usize = 0;
    while i < np
        invariant
            i <= np,
            np == p@.len(),
            ns == s@.len(),
            np <= ns,
            forall|j: int| 0 <= j < i ==> p@[j] == #[trigger] s@[j],
        decreases np - i,
    {
        let cp = p.get_char(i);
        let cs = s.get_char(i);
        if cp as u32 != cs as u32 {
            proof {
                assert(s@.take(np as int)[i as int] == s@[i as int]);
                if is_prefix(p@, s@) {
                    assert(p@[i as int] == s@[i as int]);
                }
            }
            return false;
        }
        proof {
            vstd::utf8::char_u32_cast(cp, cp as u32);
            vstd::utf8::char_u32_cast(cs, cs as u32);
        }
        i = i + 1;
    }
    proof {
        assert(s@.take(np as int) =~= p@);
    }
    true
}

/// Render a number in decimal.
pub fn fmt_u64(n: u64) -> (r: String)
    ensures
        r@ == dec_chars(n as nat),
{
    if n == 0 {
        return digit_str(0).to_owned();
    }
    let mut rest: u64 = n;
    let mut out = String::new();
    proof {
        assert(dec_chars(n as nat) + Seq::<char>::empty() =~= dec_chars(n as nat));
    }
    while rest > 0
        invariant
            rest > 0 ==> dec_chars(n as nat) == dec_chars(rest as nat) + out@,
            rest == 0 ==> out@ == dec_chars(n as nat),
            n > 0,
        decreases rest,
    {
        let d: u64 = rest % 10;
        let next: u64 = rest / 10;
        let piece = digit_str(d).to_owned().concat(out.as_str());
        proof {
            if next > 0 {
                assert(dec_chars(rest as nat) == dec_chars(next as nat).push(
                    digit_char(d as int),
                ));
                assert(dec_chars(next as nat) + (seq![digit_char(d as int)] + out@)
                    =~= dec_chars(rest as nat) + out@);
            } else {
                assert(rest < 10);
                assert(dec_chars(rest as nat) =~= seq![digit_char(d as int)]);
                assert(seq![digit_char(d as int)] + out@ =~= dec_chars(rest as nat) + out@);
            }
        }
        out = piece;
        rest = next;
    }
    out
}

} // verus!
