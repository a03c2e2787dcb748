//! Verified text primitives: lexicographic order over character
//! sequences (the order of the store's timestamp strings) and
//! case-sensitive substring search.

use vstd::prelude::*;

verus! {

/// Lexicographic "less than or equal" over character sequences, by
/// unicode scalar value.
pub open spec fn chars_le(a: Seq<char>, b: Seq<char>) -> bool
    decreases a.len(),
{
    if a.len() == 0 {
        true
    } else if b.len() == 0 {
        false
    } else if a[0] == b[0] {
        chars_le(a.skip(1), b.skip(1))
    } else {
        (a[0] as u32) < (b[0] as u32)
    }
}

/// The lexicographic order is total.
pub proof fn lemma_chars_le_total(a: Seq<char>, b: Seq<char>)
    ensures
        chars_le(a, b) || chars_le(b, a),
    decreases a.len(),
{
    if a.len() == 0 {
    } else if b.len() == 0 {
    } else if a[0] == b[0] {
        lemma_chars_le_total(a.skip(1), b.skip(1));
    } else {
        vstd::utf8::char_u32_cast(a[0], a[0] as u32);
        vstd::utf8::char_u32_cast(b[0], b[0] as u32);
    }
}

/// The lexicographic order is transitive.
pub proof fn lemma_chars_le_trans(a: Seq<char>, b: Seq<char>, c: Seq<char>)
    requires
        chars_le(a, b),
        chars_le(b, c),
    ensures
        chars_le(a, c),
    decreases a.len(),
{
    if a.len() == 0 {
    } else if b.len() == 0 {
    } else if c.len() == 0 {
    } else if a[0] == b[0] && b[0] == c[0] {
        lemma_chars_le_trans(a.skip(1), b.skip(1), c.skip(1));
    }
}

/// Compares two strings in the lexicographic order of their characters.
pub fn le_str(a: &str, b: &str) -> (r: bool)
    ensures
        r == chars_le(a@, b@),
{
    let alen = a.unicode_len();
    let blen = b.unicode_len();
    let mut i: usize = 0;
    proof {
        assert(a@.skip(0) =~= a@);
        assert(b@.skip(0) =~= b@);
    }
    loop
        invariant
            i <= alen,
            i <= blen,
            alen == a@.len(),
            blen == b@.len(),
            forall|k: int| 0 <= k < i ==> a@[k] == b@[k],
            chars_le(a@, b@) == chars_le(a@.skip(i as int), b@.skip(i as int)),
        decreases alen - i,
    {
        if i >= alen {
            proof {
                assert(a@.skip(i as int).len() == 0);
            }
            return true;
        }
        if i >= blen {
            proof {
                assert(b@.skip(i as int).len() == 0);
                assert(a@.skip(i as int).len() > 0);
            }
            return false;
        }
        let ca = a.get_char(i);
        let cb = b.get_char(i);
        if ca != cb {
            proof {
                assert(a@.skip(i as int)[0] == a@[i as int]);
                assert(b@.skip(i as int)[0] == b@[i as int]);
            }
            return (ca as u32) < (cb as u32);
        }
        proof {
            assert(a@.skip(i as int)[0] == a@[i as int]);
            assert(b@.skip(i as int)[0] == b@[i as int]);
            assert(a@.skip(i as int).skip(1) =~= a@.skip(i as int + 1));
            assert(b@.skip(i as int).skip(1) =~= b@.skip(i as int + 1));
        }
        i = i + 1;
    }
}

/// The needle `n` occurs in `h` starting at position `k`.
pub open spec fn is_match_at(h: Seq<char>, n: Seq<char>, k: int) -> bool {
    0 <= k && k + n.len() <= h.len() && (forall|j: int| 0 <= j < n.len() ==> h[k + j] == n[j])
}

/// The needle `n` occurs somewhere in `h` as a contiguous substring.
pub open spec fn has_substring(h: Seq<char>, n: Seq<char>) -> bool {
    exists|k: int| is_match_at(h, n, k)
}

/// Case-sensitive substring search: does `n` occur in `h`?
pub fn contains_str(h: &str, n: &str) -> (r: bool)
    ensures
        r == has_substring(h@, n@),
{
    let hl = h.unicode_len();
    let nl = n.unicode_len();
    if nl == 0 {
        proof {
            assert(is_match_at(h@, n@, 0));
        }
        return true;
    }
    if nl > hl {
        proof {
            assert(forall|k: int| !is_match_at(h@, n@, k));
        }
        return false;
    }
    let mut k: usize = 0;
    loop
        invariant
            nl == n@.len(),
            hl == h@.len(),
            0 < nl <= hl,
            k <= hl - nl + 1,
            forall|q: int| 0 <= q < k ==> !is_match_at(h@, n@, q),
        decreases hl - nl + 1 - k,
    {
        if k > hl - nl {
            proof {
                assert(forall|q: int| !is_match_at(h@, n@, q));
            }
            return false;
        }
        let mut j: usize = 0;
        let mut matched = true;
        while j < nl
            invariant
                nl == n@.len(),
                hl == h@.len(),
                k + nl <= hl,
                j <= nl,
                matched ==> forall|p: int| 0 <= p < j ==> h@[k + p] == n@[p],
                !matched ==> exists|p: int| 0 <= p < nl && h@[k + p] != n@[p],
            decreases nl - j,
        {
            if matched {
                let ch = h.get_char(k + j);
                let cn = n.get_char(j);
                if ch != cn {
                    matched = false;
                    proof {
                        assert(0 <= j < nl && h@[k + j as int] != n@[j as int]);
                    }
                }
            }
            j = j + 1;
        }
        if matched {
            proof {
                assert(is_match_at(h@, n@, k as int));
            }
            return true;
        }
        k = k + 1;
    }
}

/// The position of the first occurrence of `n` in `h`.
pub open spec fn first_occ(h: Seq<char>, n: Seq<char>) -> Option<int>
    decreases h.len(),
{
    if is_match_at(h, n, 0) {
        Some(0)
    } else if h.len() == 0 {
        None
    } else {
        match first_occ(h.drop_first(), n) {
            Some(k) => Some(k + 1),
            None => None,
        }
    }
}

/// A match one position further in `h` is a match in `h` without its
/// first character.
pub proof fn lemma_match_shift(h: Seq<char>, n: Seq<char>, q: int)
    requires
        h.len() > 0,
        0 <= q,
    ensures
        is_match_at(h, n, q + 1) == is_match_at(h.drop_first(), n, q),
{
    if is_match_at(h, n, q + 1) {
        assert forall|j: int| 0 <= j < n.len() implies h.drop_first()[q + j] == n[j] by {
            assert(h.drop_first()[q + j] == h[q + 1 + j]);
        }
    }
    if is_match_at(h.drop_first(), n, q) {
        assert forall|j: int| 0 <= j < n.len() implies h[q + 1 + j] == n[j] by {
            assert(h.drop_first()[q + j] == h[q + 1 + j]);
        }
    }
}

/// The earliest match is the first occurrence.
pub proof fn lemma_first_occ_at(h: Seq<char>, n: Seq<char>, k: int)
    requires
        0 <= k,
        is_match_at(h, n, k),
        forall|q: int| 0 <= q < k ==> !is_match_at(h, n, q),
    ensures
        first_occ(h, n) == Some(k),
    decreases k,
{
    if is_match_at(h, n, 0) {
        assert(k == 0);
    } else {
        assert(k > 0);
        assert(h.len() > 0);
        lemma_match_shift(h, n, k - 1);
        assert forall|q: int| 0 <= q < k - 1 implies !is_match_at(h.drop_first(), n, q) by {
            lemma_match_shift(h, n, q);
        }
        lemma_first_occ_at(h.drop_first(), n, k - 1);
    }
}

/// Without any match there is no first occurrence.
pub proof fn lemma_first_occ_none(h: Seq<char>, n: Seq<char>)
    requires
        forall|q: int| !is_match_at(h, n, q),
    ensures
        first_occ(h, n) is None,
    decreases h.len(),
{
    if h.len() > 0 {
        assert forall|q: int| !is_match_at(h.drop_first(), n, q) by {
            if 0 <= q {
                lemma_match_shift(h, n, q);
            }
        }
        lemma_first_occ_none(h.drop_first(), n);
    }
}

/// The first occurrence is a match, in range.
pub proof fn lemma_first_occ_is_match(h: Seq<char>, n: Seq<char>)
    ensures
        first_occ(h, n) matches Some(k) ==> 0 <= k && is_match_at(h, n, k),
    decreases h.len(),
{
    if !is_match_at(h, n, 0) && h.len() > 0 {
        lemma_first_occ_is_match(h.drop_first(), n);
        let fo = first_occ(h.drop_first(), n);
        if fo is Some {
            lemma_match_shift(h, n, fo->0);
        }
    }
}

/// Finds the first occurrence of `n` in `h`.
pub fn find_str(h: &str, n: &str) -> (r: Option<usize>)
    ensures
        match r {
            Some(k) => Some(k as int) == first_occ(h@, n@),
            None => first_occ(h@, n@) is None,
        },
{
    let hl = h.unicode_len();
    let nl = n.unicode_len();
    if nl == 0 {
        proof {
            assert(is_match_at(h@, n@, 0));
        }
        return Some(0);
    }
    if nl > hl {
        proof {
            assert(forall|k: int| !is_match_at(h@, n@, k));
            lemma_first_occ_none(h@, n@);
        }
        return None;
    }
    let mut k: usize = 0;
    loop
        invariant
            nl == n@.len(),
            hl == h@.len(),
            0 < nl <= hl,
            k <= hl - nl + 1,
            forall|q: int| 0 <= q < k ==> !is_match_at(h@, n@, q),
        decreases hl - nl + 1 - k,
    {
        if k > hl - nl {
            proof {
                assert(forall|q: int| !is_match_at(h@, n@, q));
                lemma_first_occ_none(h@, n@);
            }
            return None;
        }
        let mut j: usize = 0;
        let mut matched = true;
        while j < nl
            invariant
                nl == n@.len(),
                hl == h@.len(),
                k + nl <= hl,
                j <= nl,
                matched ==> forall|p: int| 0 <= p < j ==> h@[k + p] == n@[p],
                !matched ==> exists|p: int| 0 <= p < nl && h@[k + p] != n@[p],
            decreases nl - j,
        {
            if matched {
                let ch = h.get_char(k + j);
                let cn = n.get_char(j);
                if ch != cn {
                    matched = false;
                    proof {
                        assert(0 <= j < nl && h@[k + j as int] != n@[j as int]);
                    }
                }
            }
            j = j + 1;
        }
        if matched {
            proof {
                assert(is_match_at(h@, n@, k as int));
                lemma_first_occ_at(h@, n@, k as int);
            }
            return Some(k);
        }
        k = k + 1;
    }
}

/// Is `c` one of the usual whitespace characters?
pub open spec fn is_space(c: char) -> bool {
    c == ' ' || c == '\t' || c == '\n' || c == '\r' || c == '\u{b}' || c == '\u{c}'
}

/// `s` without trailing whitespace.
pub open spec fn trim_back(s: Seq<char>) -> Seq<char>
    decreases s.len(),
{
    if s.len() > 0 && is_space(s.last()) {
        trim_back(s.drop_last())
    } else {
        s
    }
}

/// `s` without leading whitespace.
pub open spec fn trim_front(s: Seq<char>) -> Seq<char>
    decreases s.len(),
{
    if s.len() > 0 && is_space(s.first()) {
        trim_front(s.drop_first())
    } else {
        s
    }
}

/// `s` without leading and trailing whitespace.
pub open spec fn trim_spec(s: Seq<char>) -> Seq<char> {
    trim_front(trim_back(s))
}

/// Is `c` one of the usual whitespace characters?
pub fn is_space_char(c: char) -> (r: bool)
    ensures
        r == is_space(c),
{
    c == ' ' || c == '\t' || c == '\n' || c == '\r' || c == '\u{b}' || c == '\u{c}'
}

/// Strips leading and trailing whitespace.
pub fn trim_str(s: &str) -> (r: &str)
    ensures
        r@ == trim_spec(s@),
{
    let n = s.unicode_len();
    let mut j: usize = n;
    proof {
        assert(s@.take(n as int) =~= s@);
    }
    while j > 0 && is_space_char(s.get_char(j - 1))
        invariant
            j <= n,
            n == s@.len(),
            trim_back(s@) == trim_back(s@.take(j as int)),
        decreases j,
    {
        proof {
            assert(s@.take(j as int).last() == s@[j as int - 1]);
            assert(s@.take(j as int).drop_last() =~= s@.take(j as int - 1));
        }
        j = j - 1;
    }
    proof {
        if j > 0 {
            assert(s@.take(j as int).last() == s@[j as int - 1]);
        }
        assert(trim_back(s@) == s@.take(j as int));
    }
    let mut i: usize = 0;
    proof {
        assert(s@.take(j as int).skip(0) =~= s@.take(j as int));
    }
    while i < j && is_space_char(s.get_char(i))
        invariant
            i <= j <= n,
            n == s@.len(),
            trim_back(s@) == s@.take(j as int),
            trim_front(s@.take(j as int)) == trim_front(s@.take(j as int).skip(i as int)),
        decreases j - i,
    {
        proof {
            assert(s@.take(j as int).skip(i as int).first() == s@[i as int]);
            assert(s@.take(j as int).skip(i as int).drop_first() =~= s@.take(j as int).skip(
                i as int + 1,
            ));
        }
        i = i + 1;
    }
    let r = s.substring_char(i, j);
    proof {
        let t = s@.take(j as int).skip(i as int);
        if i < j {
            assert(t.first() == s@[i as int]);
        }
        assert(trim_front(t) == t);
        assert(r@ =~= t);
    }
    r
}

/// `s` with every trailing ` (` pair removed.
pub open spec fn trim_end_paren(s: Seq<char>) -> Seq<char>
    decreases s.len(),
{
    if s.len() >= 2 && s[s.len() - 2] == ' ' && s[s.len() - 1] == '(' {
        trim_end_paren(s.take(s.len() - 2))
    } else {
        s
    }
}

/// Strips every trailing ` (` pair.
pub fn trim_end_paren_str(s: &str) -> (r: &str)
    ensures
        r@ == trim_end_paren(s@),
{
    let n = s.unicode_len();
    let mut j: usize = n;
    proof {
        assert(s@.take(n as int) =~= s@);
    }
    while j >= 2 && s.get_char(j - 2) == ' ' && s.get_char(j - 1) == '('
        invariant
            j <= n,
            n == s@.len(),
            trim_end_paren(s@) == trim_end_paren(s@.take(j as int)),
        decreases j,
    {
        proof {
            let t = s@.take(j as int);
            assert(t[j as int - 2] == s@[j as int - 2]);
            assert(t[j as int - 1] == s@[j as int - 1]);
            assert(t.take(j as int - 2) =~= s@.take(j as int - 2));
        }
        j = j - 2;
    }
    let r = s.substring_char(0, j);
    proof {
        let t = s@.take(j as int);
        if j >= 2 {
            assert(t[j as int - 2] == s@[j as int - 2]);
            assert(t[j as int - 1] == s@[j as int - 1]);
        }
        assert(trim_end_paren(t) == t);
        assert(r@ =~= t);
    }
    r
}

} // verus!
