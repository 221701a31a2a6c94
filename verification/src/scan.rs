//! Verified byte-sequence utilities: substring search (forward and backward),
//! prefix/suffix tests, ASCII case folding, whitespace stripping and
//! lexicographic comparison.  Every extractor states its contract in terms of
//! these spec functions.

use vstd::prelude::*;

verus! {

/// The bytes an ASCII string is stored as, one byte per character.
pub open spec fn ascii_bytes(s: Seq<char>) -> Seq<u8> {
    Seq::new(s.len(), |i: int| s[i] as u8)
}

/// Byte slice of an ASCII string; the bridge from string literals to the
/// byte sequences all parsing here works on.
pub fn lit_bytes(s: &str) -> (r: &[u8])
    requires
        vstd::string::is_ascii(s),
    ensures
        r@ == ascii_bytes(s@),
{
    proof {
        vstd::string::is_ascii_spec_bytes(s);
    }
    s.as_bytes()
}

/// The pattern `pat` occurs in `s` starting at position `i`.
pub open spec fn match_at(s: Seq<u8>, pat: Seq<u8>, i: int) -> bool {
    0 <= i && i + pat.len() <= s.len() && s.subrange(i, i + pat.len()) == pat
}

/// The pattern occurs somewhere at or after position `from`.
pub open spec fn matches_from(s: Seq<u8>, pat: Seq<u8>, from: int) -> bool {
    exists|i: int| from <= i && match_at(s, pat, i)
}

/// The pattern occurs somewhere in `s`.
pub open spec fn contains_seq(s: Seq<u8>, pat: Seq<u8>) -> bool {
    matches_from(s, pat, 0)
}

/// Position of the first occurrence of `pat` in `s` at or after `from`,
/// if there is one.
pub open spec fn first_match(s: Seq<u8>, pat: Seq<u8>, from: int) -> Option<int> {
    if matches_from(s, pat, from) {
        Some(choose|i: int| from <= i && match_at(s, pat, i)
            && forall|j: int| from <= j < i ==> !match_at(s, pat, j))
    } else {
        None
    }
}

/// Position of the last occurrence of `pat` in `s`, if there is one.
pub open spec fn last_match(s: Seq<u8>, pat: Seq<u8>) -> Option<int> {
    if contains_seq(s, pat) {
        Some(choose|i: int| match_at(s, pat, i)
            && forall|j: int| i < j ==> !match_at(s, pat, j))
    } else {
        None
    }
}

/// `s` ends with `suffix`.
pub open spec fn ends_with_seq(s: Seq<u8>, suffix: Seq<u8>) -> bool {
    match_at(s, suffix, s.len() - suffix.len())
}

/// `s` starts with `prefix`.
pub open spec fn starts_with_seq(s: Seq<u8>, prefix: Seq<u8>) -> bool {
    match_at(s, prefix, 0)
}

/// ASCII lower-casing of one byte.
pub open spec fn lower_byte(b: u8) -> u8 {
    if 65 <= b && b <= 90 { (b + 32) as u8 } else { b }
}

/// ASCII lower-casing of a byte sequence.
pub open spec fn lower_seq(s: Seq<u8>) -> Seq<u8> {
    s.map_values(|b: u8| lower_byte(b))
}

/// ASCII whitespace: space, tab, line feed, vertical tab, form feed,
/// carriage return.
pub open spec fn is_space(b: u8) -> bool {
    b == 32 || (9 <= b && b <= 13)
}

/// `s` with all ASCII whitespace removed.
pub open spec fn strip_spaces(s: Seq<u8>) -> Seq<u8> {
    s.filter(|b: u8| !is_space(b))
}

/// Strict byte-wise lexicographic order, the order `Ord` gives byte strings.
pub open spec fn lex_lt(a: Seq<u8>, b: Seq<u8>) -> bool
    decreases a.len(),
{
    if b.len() == 0 {
        false
    } else if a.len() == 0 {
        true
    } else if a[0] != b[0] {
        a[0] < b[0]
    } else {
        lex_lt(a.drop_first(), b.drop_first())
    }
}

/// Whether `pat` occurs in `s` at exactly position `i`.
pub fn is_match_at(s: &[u8], pat: &[u8], i: usize) -> (r: bool)
    requires
        i + pat@.len() <= s@.len(),
    ensures
        r == match_at(s@, pat@, i as int),
{
    let slen = s.len();
    let plen = pat.len();
    let mut k: usize = 0;
    while k < plen
        invariant
            0 <= k <= plen,
            plen == pat@.len(),
            slen == s@.len(),
            i + plen <= slen,
            forall|m: int| 0 <= m < k ==> s@[i + m] == pat@[m],
        decreases plen - k,
    {
        if s[i + k] != pat[k] {
            assert(s@.subrange(i as int, i + pat@.len())[k as int] != pat@[k as int]);
            return false;
        }
        k += 1;
    }
    assert(s@.subrange(i as int, i + pat@.len()) =~= pat@);
    true
}

/// First occurrence of `pat` in `s` at or after `from`.
pub fn find_from(s: &[u8], pat: &[u8], from: usize) -> (r: Option<usize>)
    requires
        from <= s@.len(),
    ensures
        match r {
            Some(i) => from <= i && match_at(s@, pat@, i as int)
                && (forall|j: int| from <= j < i ==> !match_at(s@, pat@, j))
                && first_match(s@, pat@, from as int) == Some(i as int),
            None => !matches_from(s@, pat@, from as int)
                && first_match(s@, pat@, from as int) is None,
        },
{
    if pat.len() > s.len() {
        assert(forall|i: int| !match_at(s@, pat@, i));
        return None;
    }
    let last: usize = s.len() - pat.len();
    if from > last {
        assert(forall|i: int| from <= i ==> !match_at(s@, pat@, i));
        return None;
    }
    let mut i: usize = from;
    loop
        invariant
            from <= i <= last,
            last == s@.len() - pat@.len(),
            pat@.len() <= s@.len(),
            forall|j: int| from <= j < i ==> !match_at(s@, pat@, j),
        decreases last - i,
    {
        if is_match_at(s, pat, i) {
            proof {
                let w = i as int;
                assert(from <= w && match_at(s@, pat@, w)
                    && forall|j: int| from <= j < w ==> !match_at(s@, pat@, j));
                let c = choose|c: int| from <= c && match_at(s@, pat@, c)
                    && forall|j: int| from <= j < c ==> !match_at(s@, pat@, j);
                assert(c == w) by {
                    if c < w {
                        assert(!match_at(s@, pat@, c));
                    }
                    if w < c {
                        assert(!match_at(s@, pat@, w));
                    }
                }
            }
            return Some(i);
        }
        if i == last {
            assert(forall|j: int| from <= j ==> !match_at(s@, pat@, j));
            return None;
        }
        i += 1;
    }
}

/// Last occurrence of `pat` in `s`, if any.
pub fn rfind_in(s: &[u8], pat: &[u8]) -> (r: Option<usize>)
    ensures
        match r {
            Some(i) => match_at(s@, pat@, i as int)
                && (forall|j: int| i < j ==> !match_at(s@, pat@, j))
                && last_match(s@, pat@) == Some(i as int),
            None => !contains_seq(s@, pat@) && last_match(s@, pat@) is None,
        },
{
    if pat.len() > s.len() {
        assert(forall|i: int| !match_at(s@, pat@, i));
        return None;
    }
    let last: usize = s.len() - pat.len();
    let mut i: usize = last;
    loop
        invariant
            0 <= i <= last,
            last == s@.len() - pat@.len(),
            pat@.len() <= s@.len(),
            forall|j: int| i < j ==> !match_at(s@, pat@, j),
        decreases i,
    {
        if is_match_at(s, pat, i) {
            proof {
                let w = i as int;
                let c = choose|c: int| match_at(s@, pat@, c)
                    && forall|j: int| c < j ==> !match_at(s@, pat@, j);
                assert(match_at(s@, pat@, w)
                    && forall|j: int| w < j ==> !match_at(s@, pat@, j));
                assert(c == w) by {
                    if c < w {
                        assert(!match_at(s@, pat@, w));
                    }
                    if w < c {
                        assert(!match_at(s@, pat@, c));
                    }
                }
            }
            return Some(i);
        }
        if i == 0 {
            assert(forall|j: int| !match_at(s@, pat@, j));
            return None;
        }
        i -= 1;
    }
}

/// Whether `s` ends with `suffix`.
pub fn ends_with(s: &[u8], suffix: &[u8]) -> (r: bool)
    ensures
        r == ends_with_seq(s@, suffix@),
{
    if suffix.len() > s.len() {
        return false;
    }
    is_match_at(s, suffix, s.len() - suffix.len())
}

/// Whether `s` starts with `prefix`.
pub fn starts_with(s: &[u8], prefix: &[u8]) -> (r: bool)
    ensures
        r == starts_with_seq(s@, prefix@),
{
    if prefix.len() > s.len() {
        return false;
    }
    is_match_at(s, prefix, 0)
}

/// Whether `pat` occurs anywhere in `s`.
pub fn contains(s: &[u8], pat: &[u8]) -> (r: bool)
    ensures
        r == contains_seq(s@, pat@),
{
    find_from(s, pat, 0).is_some()
}

/// ASCII lower-casing of a byte string.
pub fn ascii_lower(s: &[u8]) -> (r: Vec<u8>)
    ensures
        r@ == lower_seq(s@),
{
    let mut out: Vec<u8> = Vec::new();
    let mut i: usize = 0;
    while i < s.len()
        invariant
            0 <= i <= s@.len(),
            out@ =~= lower_seq(s@.subrange(0, i as int)),
        decreases s@.len() - i,
    {
        let b = s[i];
        if 65 <= b && b <= 90 {
            out.push(b + 32);
        } else {
            out.push(b);
        }
        assert(lower_seq(s@.subrange(0, i + 1)) =~= lower_seq(s@.subrange(0, i as int)).push(
            lower_byte(s@[i as int]),
        )) by {
            assert(s@.subrange(0, i + 1) =~= s@.subrange(0, i as int).push(s@[i as int]));
        }
        i += 1;
    }
    assert(s@.subrange(0, s@.len() as int) =~= s@);
    out
}

/// `s` with all ASCII whitespace removed.
pub fn remove_spaces(s: &[u8]) -> (r: Vec<u8>)
    ensures
        r@ == strip_spaces(s@),
{
    let mut out: Vec<u8> = Vec::new();
    let mut i: usize = 0;
    proof {
        reveal(Seq::filter);
        assert(s@.subrange(0, 0) =~= Seq::<u8>::empty());
    }
    while i < s.len()
        invariant
            0 <= i <= s@.len(),
            out@ =~= strip_spaces(s@.subrange(0, i as int)),
        decreases s@.len() - i,
    {
        let b = s[i];
        proof {
            reveal(Seq::filter);
            let ext = s@.subrange(0, i + 1);
            assert(ext.drop_last() =~= s@.subrange(0, i as int));
            assert(ext.last() == s@[i as int]);
        }
        if !(b == 32 || (9 <= b && b <= 13)) {
            out.push(b);
        }
        i += 1;
    }
    assert(s@.subrange(0, s@.len() as int) =~= s@);
    out
}

/// Strict byte-wise lexicographic comparison.
pub fn lex_less(a: &[u8], b: &[u8]) -> (r: bool)
    ensures
        r == lex_lt(a@, b@),
{
    let mut i: usize = 0;
    proof {
        assert(a@.skip(0) =~= a@);
        assert(b@.skip(0) =~= b@);
    }
    loop
        invariant
            0 <= i <= a@.len(),
            0 <= i <= b@.len(),
            lex_lt(a@, b@) == lex_lt(a@.skip(i as int), b@.skip(i as int)),
        decreases a@.len() - i,
    {
        proof {
            lemma_lex_skip(a@, b@, i as int);
        }
        if i >= b.len() {
            return false;
        }
        if i >= a.len() {
            return true;
        }
        if a[i] != b[i] {
            return a[i] < b[i];
        }
        i += 1;
    }
}

/// No byte string sorts strictly before itself.
pub proof fn lemma_lex_lt_irreflexive(a: Seq<u8>)
    ensures
        !lex_lt(a, a),
    decreases a.len(),
{
    if a.len() > 0 {
        lemma_lex_lt_irreflexive(a.drop_first());
    }
}

/// Strict lexicographic order is transitive.
pub proof fn lemma_lex_lt_transitive(a: Seq<u8>, b: Seq<u8>, c: Seq<u8>)
    requires
        lex_lt(a, b),
        lex_lt(b, c),
    ensures
        lex_lt(a, c),
    decreases a.len(),
{
    if b.len() == 0 || c.len() == 0 {
        // lex_lt(a, b) forces b nonempty; lex_lt(b, c) forces c nonempty.
    } else if a.len() == 0 {
    } else {
        if a[0] == b[0] && b[0] == c[0] {
            lemma_lex_lt_transitive(a.drop_first(), b.drop_first(), c.drop_first());
        }
    }
}

/// Unfolding lemma for `lex_lt` under a common prefix: comparing the
/// remainders one step further in gives the same answer.
proof fn lemma_lex_skip(a: Seq<u8>, b: Seq<u8>, i: int)
    requires
        0 <= i <= a.len(),
        0 <= i <= b.len(),
    ensures
        i < a.len() && i < b.len() && a[i] == b[i] ==> lex_lt(a.skip(i), b.skip(i)) == lex_lt(
            a.skip(i + 1),
            b.skip(i + 1),
        ),
        i < b.len() && i >= a.len() ==> lex_lt(a.skip(i), b.skip(i)),
        i >= b.len() ==> !lex_lt(a.skip(i), b.skip(i)),
{
    if i < a.len() && i < b.len() && a[i] == b[i] {
        assert(a.skip(i).drop_first() =~= a.skip(i + 1));
        assert(b.skip(i).drop_first() =~= b.skip(i + 1));
        assert(a.skip(i)[0] == a[i]);
        assert(b.skip(i)[0] == b[i]);
    }
    if i < b.len() && i >= a.len() {
        assert(a.skip(i).len() == 0);
        assert(b.skip(i).len() > 0);
    }
    if i >= b.len() {
        assert(b.skip(i).len() == 0);
    }
}

} // verus!
