//! Small verified helpers over byte slices. Paths, file contents and
//! language labels are all handled as raw bytes throughout the crate.

use vstd::prelude::*;

verus! {

/// ASCII lower-casing of one byte: `A`..`Z` map to `a`..`z`, all other
/// bytes are unchanged.
pub open spec fn spec_lower_byte(b: u8) -> u8 {
    if 'A' as u8 <= b && b <= 'Z' as u8 {
        (b + 32) as u8
    } else {
        b
    }
}

/// ASCII lower-casing of a byte sequence.
pub open spec fn spec_lower(s: Seq<u8>) -> Seq<u8> {
    s.map_values(|b: u8| spec_lower_byte(b))
}

/// Exact equality of two byte slices.
pub fn bytes_eq(a: &[u8], b: &[u8]) -> (r: bool)
    ensures
        r == (a@ == b@),
{
    if a.len() != b.len() {
        proof {
            assert(a@ != b@);
        }
        return false;
    }
    let n: usize = a.len();
    let mut i: usize = 0;
    while i < n
        invariant
            n == a@.len() && n == b@.len(),
            0 <= i <= n,
            forall|k: int| 0 <= k < i ==> a@[k] == b@[k],
        decreases n - i,
    {
        if a[i] != b[i] {
            proof {
                assert(a@[i as int] != b@[i as int]);
            }
            return false;
        }
        i = i + 1;
    }
    proof {
        assert(a@ =~= b@);
    }
    true
}

/// ASCII lower-casing, executable form.
pub fn to_lower(s: &[u8]) -> (r: Vec<u8>)
    ensures
        r@ == spec_lower(s@),
{
    let mut out: Vec<u8> = Vec::new();
    let n: usize = s.len();
    let mut i: usize = 0;
    while i < n
        invariant
            n == s@.len(),
            0 <= i <= n,
            out@ == spec_lower(s@.take(i as int)),
        decreases n - i,
    {
        let b = s[i];
        if 65u8 <= b && b <= 90u8 {
            out.push(b + 32);
        } else {
            out.push(b);
        }
        proof {
            assert(s@.take(i + 1).drop_last() =~= s@.take(i as int));
            assert(out@ =~= spec_lower(s@.take(i + 1)));
        }
        i = i + 1;
    }
    proof {
        assert(s@.take(n as int) =~= s@);
    }
    out
}

/// Whether `p` is a prefix of `s`.
pub open spec fn spec_starts_with(s: Seq<u8>, p: Seq<u8>) -> bool {
    p.len() <= s.len() && s.take(p.len() as int) == p
}

/// Prefix test, executable form.
pub fn starts_with(s: &[u8], p: &[u8]) -> (r: bool)
    ensures
        r == spec_starts_with(s@, p@),
{
    if p.len() > s.len() {
        return false;
    }
    let n: usize = p.len();
    let mut i: usize = 0;
    while i < n
        invariant
            n == p@.len(),
            n <= s@.len(),
            0 <= i <= n,
            forall|k: int| 0 <= k < i ==> s@[k] == p@[k],
        decreases n - i,
    {
        if s[i] != p[i] {
            proof {
                assert(s@.take(n as int)[i as int] != p@[i as int]);
            }
            return false;
        }
        i = i + 1;
    }
    proof {
        assert(s@.take(n as int) =~= p@);
    }
    true
}

/// Whether `p` is a suffix of `s`.
pub open spec fn spec_ends_with(s: Seq<u8>, p: Seq<u8>) -> bool {
    p.len() <= s.len() && s.skip(s.len() - p.len()) == p
}

/// Suffix test, executable form.
pub fn ends_with(s: &[u8], p: &[u8]) -> (r: bool)
    ensures
        r == spec_ends_with(s@, p@),
{
    if p.len() > s.len() {
        return false;
    }
    let slen: usize = s.len();
    let off: usize = slen - p.len();
    let n: usize = p.len();
    let mut i: usize = 0;
    while i < n
        invariant
            n == p@.len(),
            slen == s@.len(),
            off == s@.len() - n,
            0 <= i <= n,
            forall|k: int| 0 <= k < i ==> s@[off + k] == p@[k],
        decreases n - i,
    {
        if s[off + i] != p[i] {
            proof {
                assert(s@.skip(off as int)[i as int] != p@[i as int]);
            }
            return false;
        }
        i = i + 1;
    }
    proof {
        assert(s@.skip(off as int) =~= p@);
    }
    true
}

/// Whether `p` occurs anywhere in `s` as a contiguous run.
pub open spec fn spec_contains(s: Seq<u8>, p: Seq<u8>) -> bool {
    exists|i: int| 0 <= i && i + p.len() <= s.len() && #[trigger] s.subrange(i, i + p.len()) == p
}

/// Substring search, executable form.
pub fn contains_sub(s: &[u8], p: &[u8]) -> (r: bool)
    ensures
        r == spec_contains(s@, p@),
{
    let n: usize = s.len();
    let m: usize = p.len();
    if m > n {
        return false;
    }
    if m == 0 {
        proof {
            assert(spec_contains(s@, p@)) by {
                assert(s@.subrange(0, 0 + p@.len() as int) =~= p@);
            }
        }
        return true;
    }
    let mut i: usize = 0;
    while i <= n - m
        invariant
            n == s@.len(),
            m == p@.len(),
            0 < m <= n,
            0 <= i <= n - m + 1,
            forall|k: int| 0 <= k < i ==> #[trigger] s@.subrange(k, k + p@.len()) != p@,
        decreases n - m + 1 - i,
    {
        if starts_with(&s[i..n], p) {
            proof {
                assert(s@.subrange(i as int, i + p@.len()) =~= s@.subrange(i as int, n as int).take(
                    p@.len() as int,
                ));
            }
            return true;
        }
        proof {
            assert(s@.subrange(i as int, i + p@.len()) =~= s@.subrange(i as int, n as int).take(
                p@.len() as int,
            ));
        }
        i = i + 1;
    }
    false
}

/// The view of an association list of byte vectors.
pub open spec fn pairs_view(pairs: Seq<(Vec<u8>, Vec<u8>)>) -> Seq<(Seq<u8>, Seq<u8>)> {
    pairs.map_values(|p: (Vec<u8>, Vec<u8>)| (p.0@, p.1@))
}

/// First-match lookup in an association list.
pub open spec fn spec_lookup(pairs: Seq<(Seq<u8>, Seq<u8>)>, key: Seq<u8>) -> Option<Seq<u8>>
    decreases pairs.len(),
{
    if pairs.len() == 0 {
        Option::None
    } else if pairs[0].0 == key {
        Option::Some(pairs[0].1)
    } else {
        spec_lookup(pairs.drop_first(), key)
    }
}

/// When no entry up to `i` holds the key, the lookup is decided by the
/// rest of the list.
pub proof fn lemma_lookup_skip(pairs: Seq<(Seq<u8>, Seq<u8>)>, key: Seq<u8>, i: int)
    requires
        0 <= i <= pairs.len(),
        forall|k: int| 0 <= k < i ==> (#[trigger] pairs[k]).0 != key,
    ensures
        spec_lookup(pairs, key) == spec_lookup(pairs.skip(i), key),
    decreases i,
{
    if i > 0 {
        let rest = pairs.drop_first();
        assert(forall|k: int| 0 <= k < rest.len() ==> #[trigger] rest[k] == pairs[k + 1]);
        lemma_lookup_skip(rest, key, i - 1);
        assert(rest.skip(i - 1) =~= pairs.skip(i));
    } else {
        assert(pairs.skip(0) =~= pairs);
    }
}

/// Index of the entry holding `key`, searching from the front.
pub fn find_key(pairs: &Vec<(Vec<u8>, Vec<u8>)>, key: &[u8]) -> (r: Option<usize>)
    ensures
        match r {
            Some(i) => i < pairs@.len() && pairs@[i as int].0@ == key@ && spec_lookup(
                pairs_view(pairs@),
                key@,
            ) == Option::Some(pairs@[i as int].1@),
            None => spec_lookup(pairs_view(pairs@), key@) == Option::<Seq<u8>>::None,
        },
{
    let n: usize = pairs.len();
    let mut i: usize = 0;
    while i < n
        invariant
            n == pairs@.len(),
            0 <= i <= n,
            forall|k: int| 0 <= k < i ==> (#[trigger] pairs@[k]).0@ != key@,
        decreases n - i,
    {
        if bytes_eq(pairs[i].0.as_slice(), key) {
            proof {
                let pv = pairs_view(pairs@);
                assert(forall|k: int| 0 <= k < i ==> (#[trigger] pv[k]).0 != key@);
                lemma_lookup_skip(pv, key@, i as int);
                assert(pv.skip(i as int)[0] == pv[i as int]);
            }
            return Some(i);
        }
        i = i + 1;
    }
    proof {
        let pv = pairs_view(pairs@);
        assert(forall|k: int| 0 <= k < n ==> (#[trigger] pv[k]).0 != key@);
        lemma_lookup_skip(pv, key@, n as int);
    }
    None
}

/// Whether some element of `list` equals `x`.
pub open spec fn spec_list_has(list: Seq<Vec<u8>>, x: Seq<u8>) -> bool {
    exists|i: int| 0 <= i < list.len() && (#[trigger] list[i])@ == x
}

/// Membership test, executable form.
pub fn list_has(list: &Vec<Vec<u8>>, x: &[u8]) -> (r: bool)
    ensures
        r == spec_list_has(list@, x@),
{
    let n: usize = list.len();
    let mut i: usize = 0;
    while i < n
        invariant
            n == list@.len(),
            0 <= i <= n,
            forall|k: int| 0 <= k < i ==> (#[trigger] list@[k])@ != x@,
        decreases n - i,
    {
        if bytes_eq(list[i].as_slice(), x) {
            return true;
        }
        i = i + 1;
    }
    false
}

/// Whether `p` is a whole-component prefix of the path `path`: `p` is a
/// byte prefix that ends at a separator — equal to the path, followed in
/// the path by `/`, or itself ending in `/`.
pub open spec fn spec_path_prefix(path: Seq<u8>, p: Seq<u8>) -> bool {
    spec_starts_with(path, p) && (p.len() == path.len() || (p.len() > 0 && p[p.len() - 1]
        == '/' as u8) || path[p.len() as int] == '/' as u8)
}

/// Whole-component path-prefix test, executable form.
pub fn path_prefix_of(path: &[u8], p: &[u8]) -> (r: bool)
    ensures
        r == spec_path_prefix(path@, p@),
{
    if !starts_with(path, p) {
        return false;
    }
    let m: usize = p.len();
    m == path.len() || (m > 0 && p[m - 1] == '/' as u8) || path[m] == '/' as u8
}

/// Whether some element of `list` is a whole-component prefix of `x`.
pub open spec fn spec_list_has_prefix_of(list: Seq<Vec<u8>>, x: Seq<u8>) -> bool {
    exists|i: int| 0 <= i < list.len() && spec_path_prefix(x, (#[trigger] list[i])@)
}

/// Path-prefix membership test, executable form.
pub fn list_has_prefix_of(list: &Vec<Vec<u8>>, x: &[u8]) -> (r: bool)
    ensures
        r == spec_list_has_prefix_of(list@, x@),
{
    let n: usize = list.len();
    let mut i: usize = 0;
    while i < n
        invariant
            n == list@.len(),
            0 <= i <= n,
            forall|k: int| 0 <= k < i ==> !spec_path_prefix(x@, (#[trigger] list@[k])@),
        decreases n - i,
    {
        if path_prefix_of(x, list[i].as_slice()) {
            return true;
        }
        i = i + 1;
    }
    false
}

/// Last-match lookup in an association list: the latest entry for the
/// key decides.
pub open spec fn spec_lookup_last(pairs: Seq<(Seq<u8>, Seq<u8>)>, key: Seq<u8>) -> Option<Seq<u8>>
    decreases pairs.len(),
{
    if pairs.len() == 0 {
        Option::None
    } else if pairs.last().0 == key {
        Option::Some(pairs.last().1)
    } else {
        spec_lookup_last(pairs.drop_last(), key)
    }
}

/// Index of the entry holding `key`, searching from the back.
pub fn find_key_last(pairs: &Vec<(Vec<u8>, Vec<u8>)>, key: &[u8]) -> (r: Option<usize>)
    ensures
        match r {
            Some(i) => i < pairs@.len() && pairs@[i as int].0@ == key@ && spec_lookup_last(
                pairs_view(pairs@),
                key@,
            ) == Option::Some(pairs@[i as int].1@),
            None => spec_lookup_last(pairs_view(pairs@), key@) == Option::<Seq<u8>>::None,
        },
{
    let n: usize = pairs.len();
    let ghost pv = pairs_view(pairs@);
    proof {
        assert(pv.take(n as int) =~= pv);
    }
    let mut i: usize = n;
    while i > 0
        invariant
            i <= n,
            n == pairs@.len(),
            pv == pairs_view(pairs@),
            spec_lookup_last(pv, key@) == spec_lookup_last(pv.take(i as int), key@),
        decreases i,
    {
        i = i - 1;
        if bytes_eq(pairs[i].0.as_slice(), key) {
            proof {
                assert(pv.take(i + 1).last() == pv[i as int]);
            }
            return Some(i);
        }
        proof {
            assert(pv.take(i + 1).last() == pv[i as int]);
            assert(pv.take(i + 1).drop_last() =~= pv.take(i as int));
        }
    }
    proof {
        assert(pv.take(0) =~= Seq::<(Seq<u8>, Seq<u8>)>::empty());
    }
    None
}

/// Index of the last occurrence of `b` in `s`, or `-1` when `b` does not
/// occur.
pub open spec fn spec_last_index_of(s: Seq<u8>, b: u8) -> int
    decreases s.len(),
{
    if s.len() == 0 {
        -1
    } else if s[s.len() - 1] == b {
        s.len() - 1
    } else {
        spec_last_index_of(s.drop_last(), b)
    }
}

proof fn lemma_last_index_of_bounds(s: Seq<u8>, b: u8)
    ensures
        -1 <= spec_last_index_of(s, b) < s.len(),
        spec_last_index_of(s, b) >= 0 ==> s[spec_last_index_of(s, b)] == b,
        forall|k: int| spec_last_index_of(s, b) < k < s.len() ==> s[k] != b,
    decreases s.len(),
{
    if s.len() > 0 && s[s.len() - 1] != b {
        lemma_last_index_of_bounds(s.drop_last(), b);
        assert(forall|k: int| 0 <= k < s.len() - 1 ==> s[k] == s.drop_last()[k]);
    }
}

/// Last-occurrence search, executable form; returns `None` when `b` does
/// not occur in `s`.
pub fn last_index_of(s: &[u8], b: u8) -> (r: Option<usize>)
    ensures
        match r {
            Some(i) => i < s@.len() && spec_last_index_of(s@, b) == i as int,
            None => spec_last_index_of(s@, b) == -1,
        },
{
    let mut i: usize = s.len();
    while i > 0
        invariant
            i <= s@.len(),
            forall|k: int| i <= k < s@.len() ==> s@[k] != b,
        decreases i,
    {
        i = i - 1;
        if s[i] == b {
            proof {
                lemma_last_index_of_bounds(s@, b);
            }
            return Some(i);
        }
    }
    proof {
        lemma_last_index_of_bounds(s@, b);
    }
    None
}

} // verus!
