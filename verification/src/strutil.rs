//! Verified string helpers: equality, lexicographic order, substring search,
//! sorted insertion, splitting and trimming.
//!
//! All specifications are over `Seq<char>` views.  Ordering and whitespace
//! are by character code: the formats parsed here (command listings, manifest
//! files, paths) are ASCII in practice.

use vstd::prelude::*;

verus! {

/// Character-for-character equality of two string slices.
pub fn str_eq(a: &str, b: &str) -> (r: bool)
    ensures
        r == (a@ == b@),
{
    let sa = a.to_owned();
    let sb = b.to_owned();
    sa == sb
}

/// Two characters with the same code point are the same character.
pub proof fn lemma_char_eq_from_code(a: char, b: char)
    requires
        a as u32 == b as u32,
    ensures
        a == b,
{
}

/// Lexicographic "less than or equal" on character sequences, by code point.
pub open spec fn lex_le(a: Seq<char>, b: Seq<char>) -> bool
    decreases a.len(),
{
    if a.len() == 0 {
        true
    } else if b.len() == 0 {
        false
    } else if (a[0] as u32) < (b[0] as u32) {
        true
    } else if (b[0] as u32) < (a[0] as u32) {
        false
    } else {
        lex_le(a.skip(1), b.skip(1))
    }
}

/// Strict lexicographic order.
pub open spec fn lex_lt(a: Seq<char>, b: Seq<char>) -> bool {
    lex_le(a, b) && a != b
}

/// `lex_le` is total: one direction always holds.
pub proof fn lemma_lex_le_total(a: Seq<char>, b: Seq<char>)
    ensures
        lex_le(a, b) || lex_le(b, a),
    decreases a.len(),
{
    if a.len() == 0 || b.len() == 0 {
    } else if (a[0] as u32) < (b[0] as u32) || (b[0] as u32) < (a[0] as u32) {
    } else {
        lemma_lex_le_total(a.skip(1), b.skip(1));
    }
}

/// `lex_le` is antisymmetric: both directions force equality.
pub proof fn lemma_lex_le_antisymmetric(a: Seq<char>, b: Seq<char>)
    requires
        lex_le(a, b),
        lex_le(b, a),
    ensures
        a == b,
    decreases a.len(),
{
    if a.len() == 0 {
        assert(b.len() == 0);
        assert(a =~= b);
    } else {
        assert(b.len() != 0);
        assert(!((a[0] as u32) < (b[0] as u32)));
        assert(!((b[0] as u32) < (a[0] as u32)));
        lemma_char_eq_from_code(a[0], b[0]);
        lemma_lex_le_antisymmetric(a.skip(1), b.skip(1));
        assert(a =~= seq![a[0]] + a.skip(1));
        assert(b =~= seq![b[0]] + b.skip(1));
    }
}

/// `lex_le` is transitive.
pub proof fn lemma_lex_le_transitive(a: Seq<char>, b: Seq<char>, c: Seq<char>)
    requires
        lex_le(a, b),
        lex_le(b, c),
    ensures
        lex_le(a, c),
    decreases a.len(),
{
    if a.len() == 0 || b.len() == 0 || c.len() == 0 {
    } else if (a[0] as u32) < (b[0] as u32) {
        if (b[0] as u32) < (c[0] as u32) {
        } else {
            assert(!((c[0] as u32) < (b[0] as u32)));
            lemma_char_eq_from_code(b[0], c[0]);
        }
    } else {
        assert(!((b[0] as u32) < (a[0] as u32)));
        lemma_char_eq_from_code(a[0], b[0]);
        if (b[0] as u32) < (c[0] as u32) {
        } else {
            assert(!((c[0] as u32) < (b[0] as u32)));
            lemma_char_eq_from_code(b[0], c[0]);
            lemma_lex_le_transitive(a.skip(1), b.skip(1), c.skip(1));
        }
    }
}

/// Decide `lex_le` on two string slices.
pub fn str_lex_le(a: &str, b: &str) -> (r: bool)
    ensures
        r == lex_le(a@, b@),
{
    let na = a.unicode_len();
    let nb = b.unicode_len();
    let mut i: usize = 0;
    proof {
        assert(a@.skip(0) =~= a@);
        assert(b@.skip(0) =~= b@);
    }
    loop
        invariant
            i <= na,
            i <= nb,
            na == a@.len(),
            nb == b@.len(),
            lex_le(a@, b@) == lex_le(a@.skip(i as int), b@.skip(i as int)),
            forall|j: int| 0 <= j < i ==> a@[j] == b@[j],
        decreases na - i,
    {
        if i == na {
            proof {
                assert(a@.skip(i as int).len() == 0);
            }
            return true;
        }
        if i == nb {
            proof {
                assert(b@.skip(i as int).len() == 0);
                assert(a@.skip(i as int).len() > 0);
            }
            return false;
        }
        let ca = a.get_char(i);
        let cb = b.get_char(i);
        proof {
            assert(a@.skip(i as int)[0] == a@[i as int]);
            assert(b@.skip(i as int)[0] == b@[i as int]);
            assert(a@.skip(i as int).skip(1) =~= a@.skip(i as int + 1));
            assert(b@.skip(i as int).skip(1) =~= b@.skip(i as int + 1));
        }
        if (ca as u32) < (cb as u32) {
            return true;
        }
        if (cb as u32) < (ca as u32) {
            return false;
        }
        i = i + 1;
    }
}

/// The needle occurs in the haystack starting at index `i`.
pub open spec fn occurs_at(h: Seq<char>, n: Seq<char>, i: int) -> bool {
    0 <= i && i + n.len() <= h.len() && h.subrange(i, i + n.len() as int) == n
}

/// The needle occurs somewhere in the haystack.
pub open spec fn contains_seq(h: Seq<char>, n: Seq<char>) -> bool {
    exists|i: int| occurs_at(h, n, i)
}

/// Decide whether `needle` occurs in `haystack` as a contiguous run of
/// characters.
pub fn contains_sub(haystack: &str, needle: &str) -> (r: bool)
    ensures
        r == contains_seq(haystack@, needle@),
{
    let nh = haystack.unicode_len();
    let nn = needle.unicode_len();
    if nn == 0 {
        proof {
            assert(haystack@.subrange(0, 0) =~= needle@);
            assert(occurs_at(haystack@, needle@, 0));
        }
        return true;
    }
    if nn > nh {
        proof {
            assert(forall|i: int| !occurs_at(haystack@, needle@, i));
        }
        return false;
    }
    let mut i: usize = 0;
    while i <= nh - nn
        invariant
            1 <= nn <= nh,
            i <= nh - nn + 1,
            nh == haystack@.len(),
            nn == needle@.len(),
            forall|k: int| 0 <= k < i ==> !occurs_at(haystack@, needle@, k),
        decreases nh - nn - i + 1,
    {
        let mut j: usize = 0;
        let mut matches: bool = true;
        while j < nn
            invariant
                i + nn <= nh,
                nh == haystack@.len(),
                nn == needle@.len(),
                j <= nn,
                matches ==> forall|t: int| 0 <= t < j ==> haystack@[i + t] == needle@[t],
                !matches ==> !occurs_at(haystack@, needle@, i as int),
            decreases nn - j,
        {
            if matches {
                let hc = haystack.get_char(i + j);
                let nc = needle.get_char(j);
                if hc != nc {
                    proof {
                        assert(haystack@.subrange(i as int, i + nn as int)[j as int]
                            == haystack@[i + j]);
                    }
                    matches = false;
                }
            }
            j = j + 1;
        }
        if matches {
            proof {
                assert(haystack@.subrange(i as int, i + nn as int) =~= needle@);
                assert(occurs_at(haystack@, needle@, i as int));
            }
            return true;
        }
        i = i + 1;
    }
    proof {
        assert forall|k: int| !occurs_at(haystack@, needle@, k) by {
            if 0 <= k && k + needle@.len() <= haystack@.len() {
                assert(k < i);
            }
        }
    }
    false
}

/// A sequence of strings that is strictly increasing in `lex_le`: sorted,
/// with no duplicates.
pub open spec fn sorted_unique(s: Seq<Seq<char>>) -> bool {
    forall|i: int, j: int| 0 <= i < j < s.len() ==> lex_lt(s[i], s[j])
}

/// Where a new string lands in a sorted sequence: the result of inserting
/// `x` in order, dropping it if already present.
pub open spec fn spec_insert_sorted(s: Seq<Seq<char>>, x: Seq<char>) -> Seq<Seq<char>>
    decreases s.len(),
{
    if s.len() == 0 {
        seq![x]
    } else if s[0] == x {
        s
    } else if lex_lt(x, s[0]) {
        seq![x] + s
    } else {
        seq![s[0]] + spec_insert_sorted(s.skip(1), x)
    }
}

/// Insert a string into a sorted, duplicate-free vector, keeping it sorted
/// and duplicate-free.
pub fn insert_sorted_unique(v: &mut Vec<String>, x: String)
    ensures
        final(v).deep_view() == spec_insert_sorted(old(v).deep_view(), x@),
{
    let ghost orig: Seq<Seq<char>> = old(v).deep_view();
    let n = v.len();
    let mut i: usize = 0;
    proof {
        assert(orig.skip(0) =~= orig);
        assert(orig.subrange(0, 0) + spec_insert_sorted(orig, x@) =~= spec_insert_sorted(
            orig,
            x@,
        ));
        assert(orig.len() == v@.len());
    }
    while i < n
        invariant
            i <= n,
            n == v.len(),
            orig == old(v).deep_view(),
            v.deep_view() == orig,
            spec_insert_sorted(orig, x@) == orig.subrange(0, i as int) + spec_insert_sorted(
                orig.skip(i as int),
                x@,
            ),
        decreases n - i,
    {
        proof {
            assert(orig.skip(i as int)[0] == orig[i as int]);
        }
        if v[i] == x {
            proof {
                assert(spec_insert_sorted(orig.skip(i as int), x@) == orig.skip(i as int));
                assert(orig.subrange(0, i as int) + orig.skip(i as int) =~= orig);
            }
            return;
        }
        let le = str_lex_le(x.as_str(), v[i].as_str());
        if le {
            proof {
                assert(lex_lt(x@, orig[i as int]));
                assert(spec_insert_sorted(orig.skip(i as int), x@) == seq![x@] + orig.skip(
                    i as int,
                ));
            }
            v.insert(i, x);
            proof {
                assert(v.deep_view() =~= orig.subrange(0, i as int) + (seq![x@] + orig.skip(
                    i as int,
                )));
            }
            return;
        }
        proof {
            assert(!lex_le(x@, orig[i as int]));
            lemma_lex_le_total(x@, orig[i as int]);
            assert(lex_le(orig[i as int], x@));
            assert(!lex_lt(x@, orig[i as int]));
            assert(spec_insert_sorted(orig.skip(i as int), x@) == seq![orig[i as int]]
                + spec_insert_sorted(orig.skip(i as int).skip(1), x@));
            assert(orig.skip(i as int).skip(1) =~= orig.skip(i as int + 1));
            assert(orig.subrange(0, i as int) + seq![orig[i as int]] =~= orig.subrange(
                0,
                i as int + 1,
            ));
            assert(spec_insert_sorted(orig, x@) == orig.subrange(0, i as int + 1)
                + spec_insert_sorted(orig.skip(i as int + 1), x@)) by {
                assert((orig.subrange(0, i as int) + (seq![orig[i as int]] + spec_insert_sorted(
                    orig.skip(i as int + 1),
                    x@,
                ))) =~= orig.subrange(0, i as int + 1) + spec_insert_sorted(
                    orig.skip(i as int + 1),
                    x@,
                ));
            }
        }
        i = i + 1;
    }
    proof {
        assert(orig.skip(n as int).len() == 0);
        assert(spec_insert_sorted(orig.skip(n as int), x@) == seq![x@]);
    }
    v.push(x);
    proof {
        assert(v.deep_view() =~= orig.subrange(0, n as int) + seq![x@]);
        assert(orig.subrange(0, n as int) =~= orig);
    }
}

/// Inserting into a sorted, duplicate-free sequence keeps it sorted and
/// duplicate-free, and the result holds exactly the old strings plus the new
/// one.
pub proof fn lemma_insert_sorted_unique(s: Seq<Seq<char>>, x: Seq<char>)
    requires
        sorted_unique(s),
    ensures
        sorted_unique(spec_insert_sorted(s, x)),
        spec_insert_sorted(s, x).to_set() == s.to_set().insert(x),
    decreases s.len(),
{
    let r = spec_insert_sorted(s, x);
    if s.len() == 0 {
        assert(r =~= seq![x]);
        assert(r.to_set() =~= s.to_set().insert(x)) by {
            assert(r[0] == x);
            assert(r.contains(x));
            assert forall|y: Seq<char>| s.to_set().insert(x).contains(y) implies r.to_set()
                .contains(y) by {
                assert(y == x);
            }
            assert forall|y: Seq<char>| r.to_set().contains(y) implies s.to_set().insert(
                x,
            ).contains(y) by {
                let k = choose|k: int| 0 <= k < r.len() && r[k] == y;
                assert(y == x);
            }
        }
    } else if s[0] == x {
        assert(s.to_set().contains(x)) by {
            assert(s.contains(x));
        }
        assert(r.to_set() =~= s.to_set().insert(x)) by {
            assert forall|y: Seq<char>| s.to_set().insert(x).contains(y) implies s.to_set()
                .contains(y) by {
                if y == x {
                    assert(s.to_set().contains(x));
                }
            }
            assert(forall|y: Seq<char>| s.to_set().contains(y) ==> s.to_set().insert(x).contains(
                y,
            ));
        }
    } else if lex_lt(x, s[0]) {
        assert(r == seq![x] + s);
        assert forall|i: int, j: int| 0 <= i < j < r.len() implies lex_lt(r[i], r[j]) by {
            if i == 0 {
                assert(r[0] == x);
                assert(r[j] == s[j - 1]);
                if j - 1 > 0 {
                    assert(lex_lt(s[0], s[j - 1]));
                    lemma_lex_le_transitive(x, s[0], s[j - 1]);
                    if x == s[j - 1] {
                        lemma_lex_le_antisymmetric(s[0], s[j - 1]);
                    }
                }
            } else {
                assert(r[i] == s[i - 1] && r[j] == s[j - 1]);
            }
        }
        assert(r.to_set() =~= s.to_set().insert(x)) by {
            assert forall|y: Seq<char>| r.to_set().contains(y) implies s.to_set().insert(
                x,
            ).contains(y) by {
                let k = choose|k: int| 0 <= k < r.len() && r[k] == y;
                if k > 0 {
                    assert(s[k - 1] == y);
                    assert(s.contains(y));
                }
            }
            assert forall|y: Seq<char>| s.to_set().insert(x).contains(y) implies r.to_set()
                .contains(y) by {
                if y == x {
                    assert(r[0] == y);
                    assert(r.contains(y));
                } else {
                    let k = choose|k: int| 0 <= k < s.len() && s[k] == y;
                    assert(r[k + 1] == y);
                    assert(r.contains(y));
                }
            }
        }
    } else {
        let tail = s.skip(1);
        assert(sorted_unique(tail)) by {
            assert(forall|i: int, j: int| 0 <= i < j < tail.len() ==> lex_lt(
                #[trigger] tail[i],
                #[trigger] tail[j],
            ));
        }
        lemma_insert_sorted_unique(tail, x);
        let rt = spec_insert_sorted(tail, x);
        assert(r == seq![s[0]] + rt);
        lemma_lex_le_total(x, s[0]);
        assert(lex_le(s[0], x));
        assert forall|i: int, j: int| 0 <= i < j < r.len() implies lex_lt(r[i], r[j]) by {
            if i == 0 {
                assert(r[j] == rt[j - 1]);
                assert(rt.to_set().contains(rt[j - 1])) by {
                    assert(rt.contains(rt[j - 1]));
                }
                if rt[j - 1] == x {
                    assert(lex_le(s[0], x) && s[0] != x);
                } else {
                    assert(tail.to_set().contains(rt[j - 1]));
                    let k = choose|k: int| 0 <= k < tail.len() && tail[k] == rt[j - 1];
                    assert(lex_lt(s[0], s[k + 1]));
                }
            } else {
                assert(r[i] == rt[i - 1] && r[j] == rt[j - 1]);
            }
        }
        assert(r.to_set() =~= s.to_set().insert(x)) by {
            assert forall|y: Seq<char>| r.to_set().contains(y) implies s.to_set().insert(
                x,
            ).contains(y) by {
                let k = choose|k: int| 0 <= k < r.len() && r[k] == y;
                if k == 0 {
                    assert(s.contains(y));
                } else {
                    assert(rt[k - 1] == y);
                    assert(rt.contains(y));
                    assert(rt.to_set().contains(y));
                    if y != x {
                        assert(tail.to_set().contains(y));
                        let t = choose|t: int| 0 <= t < tail.len() && tail[t] == y;
                        assert(s[t + 1] == y);
                        assert(s.contains(y));
                    }
                }
            }
            assert forall|y: Seq<char>| s.to_set().insert(x).contains(y) implies r.to_set()
                .contains(y) by {
                if y == x {
                    assert(rt.to_set().contains(y));
                    let k = choose|k: int| 0 <= k < rt.len() && rt[k] == y;
                    assert(r[k + 1] == y);
                    assert(r.contains(y));
                } else {
                    let k = choose|k: int| 0 <= k < s.len() && s[k] == y;
                    if k == 0 {
                        assert(r[0] == y);
                        assert(r.contains(y));
                    } else {
                        assert(tail[k - 1] == y);
                        assert(tail.contains(y));
                        assert(tail.to_set().contains(y));
                        assert(rt.to_set().contains(y));
                        let t = choose|t: int| 0 <= t < rt.len() && rt[t] == y;
                        assert(r[t + 1] == y);
                        assert(r.contains(y));
                    }
                }
            }
        }
    }
}


/// The index of the first occurrence of `sep` in `s`, or `s.len()` when
/// there is none.
pub open spec fn first_index_from(s: Seq<char>, sep: char) -> int
    decreases s.len(),
{
    if s.len() == 0 {
        0
    } else if s[0] == sep {
        0
    } else {
        1 + first_index_from(s.skip(1), sep)
    }
}

/// Bounds and characterization of `first_index_from`.
pub proof fn lemma_first_index_bounds(s: Seq<char>, sep: char)
    ensures
        0 <= first_index_from(s, sep) <= s.len(),
        first_index_from(s, sep) < s.len() ==> s[first_index_from(s, sep)] == sep,
        forall|k: int| 0 <= k < first_index_from(s, sep) ==> s[k] != sep,
    decreases s.len(),
{
    if s.len() == 0 {
    } else if s[0] == sep {
    } else {
        lemma_first_index_bounds(s.skip(1), sep);
        let j = first_index_from(s, sep);
        assert(j == 1 + first_index_from(s.skip(1), sep));
        assert forall|k: int| 0 <= k < j implies s[k] != sep by {
            if k > 0 {
                assert(s.skip(1)[k - 1] == s[k]);
            }
        }
        if j < s.len() {
            assert(s.skip(1)[j - 1] == s[j]);
        }
    }
}

/// A position with no separator before it, holding a separator or standing
/// at the end, is the first separator position.
pub proof fn lemma_first_index_at(s: Seq<char>, sep: char, j: int)
    requires
        0 <= j <= s.len(),
        forall|k: int| 0 <= k < j ==> s[k] != sep,
        j < s.len() ==> s[j] == sep,
    ensures
        first_index_from(s, sep) == j,
    decreases s.len(),
{
    if s.len() == 0 {
    } else if s[0] == sep {
        assert(j == 0);
    } else {
        assert(j > 0);
        assert forall|k: int| 0 <= k < j - 1 implies s.skip(1)[k] != sep by {
            assert(s.skip(1)[k] == s[k + 1]);
        }
        if j - 1 < s.skip(1).len() {
            assert(s.skip(1)[j - 1] == s[j]);
        }
        lemma_first_index_at(s.skip(1), sep, j - 1);
    }
}

/// The pieces of `s` between occurrences of `sep`: always one more piece
/// than there are separators, in order, separators dropped.
pub open spec fn spec_split(s: Seq<char>, sep: char) -> Seq<Seq<char>>
    decreases s.len(),
    via spec_split_decreases
{
    let j = first_index_from(s, sep);
    if j == s.len() {
        seq![s]
    } else {
        seq![s.subrange(0, j)] + spec_split(s.subrange(j + 1, s.len() as int), sep)
    }
}

#[via_fn]
proof fn spec_split_decreases(s: Seq<char>, sep: char) {
    lemma_first_index_bounds(s, sep);
}

/// Split a string at every occurrence of `sep`.
pub fn split_char(s: &str, sep: char) -> (r: Vec<String>)
    ensures
        r.deep_view() == spec_split(s@, sep),
{
    let n = s.unicode_len();
    let mut r: Vec<String> = Vec::new();
    let mut start: usize = 0;
    let mut i: usize = 0;
    proof {
        assert(s@.subrange(0, n as int) =~= s@);
        assert(r.deep_view() + spec_split(s@, sep) =~= spec_split(s@, sep));
    }
    while i < n
        invariant
            start <= i <= n,
            n == s@.len(),
            spec_split(s@, sep) == r.deep_view() + spec_split(
                s@.subrange(start as int, n as int),
                sep,
            ),
            forall|k: int| start <= k < i ==> s@[k] != sep,
        decreases n - i,
    {
        if s.get_char(i) == sep {
            let piece = s.substring_char(start, i).to_owned();
            let ghost prior: Seq<Seq<char>> = r.deep_view();
            proof {
                let rest = s@.subrange(start as int, n as int);
                assert forall|k: int| 0 <= k < i - start implies rest[k] != sep by {
                    assert(rest[k] == s@[start + k]);
                }
                assert(rest[i - start] == s@[i as int]);
                lemma_first_index_at(rest, sep, i - start);
                assert(rest.subrange(0, i - start) =~= s@.subrange(start as int, i as int));
                assert(rest.subrange(i - start + 1, rest.len() as int) =~= s@.subrange(
                    i + 1,
                    n as int,
                ));
                assert(spec_split(rest, sep) == seq![s@.subrange(start as int, i as int)]
                    + spec_split(s@.subrange(i + 1, n as int), sep));
            }
            r.push(piece);
            proof {
                assert(r.deep_view() =~= prior + seq![s@.subrange(start as int, i as int)]);
                assert(prior + (seq![s@.subrange(start as int, i as int)] + spec_split(
                    s@.subrange(i + 1, n as int),
                    sep,
                )) =~= (prior + seq![s@.subrange(start as int, i as int)]) + spec_split(
                    s@.subrange(i + 1, n as int),
                    sep,
                ));
            }
            start = i + 1;
        }
        i = i + 1;
    }
    let piece = s.substring_char(start, n).to_owned();
    let ghost prior: Seq<Seq<char>> = r.deep_view();
    proof {
        let rest = s@.subrange(start as int, n as int);
        assert forall|k: int| 0 <= k < rest.len() implies rest[k] != sep by {
            assert(rest[k] == s@[start + k]);
        }
        lemma_first_index_at(rest, sep, rest.len() as int);
        assert(spec_split(rest, sep) == seq![rest]);
    }
    r.push(piece);
    proof {
        assert(r.deep_view() =~= prior + seq![s@.subrange(start as int, n as int)]);
        assert(prior + seq![s@.subrange(start as int, n as int)] =~= prior + spec_split(
            s@.subrange(start as int, n as int),
            sep,
        ));
    }
    r
}


/// Whitespace, for the line-based formats parsed here: space, tab, carriage
/// return, newline.
pub open spec fn is_space_char(c: char) -> bool {
    c == ' ' || c == '\t' || c == '\r' || c == '\n'
}

/// Decide `is_space_char`.
pub fn is_space(c: char) -> (r: bool)
    ensures
        r == is_space_char(c),
{
    c == ' ' || c == '\t' || c == '\r' || c == '\n'
}

/// The index of the first whitespace character of `s`, or `s.len()` when
/// there is none.
pub open spec fn first_space_from(s: Seq<char>) -> int
    decreases s.len(),
{
    if s.len() == 0 {
        0
    } else if is_space_char(s[0]) {
        0
    } else {
        1 + first_space_from(s.skip(1))
    }
}

/// Bounds and characterization of `first_space_from`.
pub proof fn lemma_first_space_bounds(s: Seq<char>)
    ensures
        0 <= first_space_from(s) <= s.len(),
        first_space_from(s) < s.len() ==> is_space_char(s[first_space_from(s)]),
        forall|k: int| 0 <= k < first_space_from(s) ==> !is_space_char(s[k]),
    decreases s.len(),
{
    if s.len() == 0 {
    } else if is_space_char(s[0]) {
    } else {
        lemma_first_space_bounds(s.skip(1));
        let j = first_space_from(s);
        assert forall|k: int| 0 <= k < j implies !is_space_char(s[k]) by {
            if k > 0 {
                assert(s.skip(1)[k - 1] == s[k]);
            }
        }
        if j < s.len() {
            assert(s.skip(1)[j - 1] == s[j]);
        }
    }
}

/// A position with no whitespace before it, holding whitespace or standing
/// at the end, is the first whitespace position.
pub proof fn lemma_first_space_at(s: Seq<char>, j: int)
    requires
        0 <= j <= s.len(),
        forall|k: int| 0 <= k < j ==> !is_space_char(s[k]),
        j < s.len() ==> is_space_char(s[j]),
    ensures
        first_space_from(s) == j,
    decreases s.len(),
{
    if s.len() == 0 {
    } else if is_space_char(s[0]) {
        assert(j == 0);
    } else {
        assert(j > 0);
        assert forall|k: int| 0 <= k < j - 1 implies !is_space_char(s.skip(1)[k]) by {
            assert(s.skip(1)[k] == s[k + 1]);
        }
        if j - 1 < s.skip(1).len() {
            assert(s.skip(1)[j - 1] == s[j]);
        }
        lemma_first_space_at(s.skip(1), j - 1);
    }
}

/// The whitespace-separated tokens of `s`, in order, with empty runs of
/// whitespace producing nothing.
pub open spec fn spec_tokens(s: Seq<char>) -> Seq<Seq<char>>
    decreases s.len(),
    via spec_tokens_decreases
{
    if s.len() == 0 {
        Seq::empty()
    } else if is_space_char(s[0]) {
        spec_tokens(s.skip(1))
    } else {
        let j = first_space_from(s);
        seq![s.subrange(0, j)] + spec_tokens(s.subrange(j, s.len() as int))
    }
}

#[via_fn]
proof fn spec_tokens_decreases(s: Seq<char>) {
    if s.len() > 0 && !is_space_char(s[0]) {
        lemma_first_space_bounds(s);
        assert(first_space_from(s) >= 1);
    }
}

/// Split a string into its whitespace-separated tokens.
pub fn split_tokens(s: &str) -> (r: Vec<String>)
    ensures
        r.deep_view() == spec_tokens(s@),
{
    let n = s.unicode_len();
    let mut r: Vec<String> = Vec::new();
    let mut i: usize = 0;
    proof {
        assert(s@.subrange(0, n as int) =~= s@);
        assert(r.deep_view() + spec_tokens(s@) =~= spec_tokens(s@));
    }
    while i < n
        invariant
            i <= n,
            n == s@.len(),
            spec_tokens(s@) == r.deep_view() + spec_tokens(s@.subrange(i as int, n as int)),
        decreases n - i,
    {
        let c = s.get_char(i);
        if is_space(c) {
            proof {
                let rest = s@.subrange(i as int, n as int);
                assert(rest[0] == s@[i as int]);
                assert(rest.skip(1) =~= s@.subrange(i + 1, n as int));
            }
            i = i + 1;
        } else {
            let mut j: usize = i + 1;
            while j < n
                invariant
                    i < j <= n,
                    n == s@.len(),
                    forall|k: int| i <= k < j ==> !is_space_char(s@[k]),
                ensures
                    i < j <= n,
                    forall|k: int| i <= k < j ==> !is_space_char(s@[k]),
                    j < n ==> is_space_char(s@[j as int]),
                decreases n - j,
            {
                if is_space(s.get_char(j)) {
                    break;
                }
                j = j + 1;
            }
            let piece = s.substring_char(i, j).to_owned();
            let ghost prior: Seq<Seq<char>> = r.deep_view();
            proof {
                let rest = s@.subrange(i as int, n as int);
                assert forall|k: int| 0 <= k < j - i implies !is_space_char(rest[k]) by {
                    assert(rest[k] == s@[i + k]);
                }
                if j < n {
                    assert(rest[j - i] == s@[j as int]);
                }
                lemma_first_space_at(rest, j - i);
                assert(!is_space_char(rest[0]));
                assert(rest.subrange(0, j - i) =~= s@.subrange(i as int, j as int));
                assert(rest.subrange(j - i, rest.len() as int) =~= s@.subrange(
                    j as int,
                    n as int,
                ));
                assert(spec_tokens(rest) == seq![s@.subrange(i as int, j as int)] + spec_tokens(
                    s@.subrange(j as int, n as int),
                ));
            }
            r.push(piece);
            proof {
                assert(r.deep_view() =~= prior + seq![s@.subrange(i as int, j as int)]);
                assert(prior + (seq![s@.subrange(i as int, j as int)] + spec_tokens(
                    s@.subrange(j as int, n as int),
                )) =~= (prior + seq![s@.subrange(i as int, j as int)]) + spec_tokens(
                    s@.subrange(j as int, n as int),
                ));
            }
            i = j;
        }
    }
    proof {
        assert(s@.subrange(n as int, n as int).len() == 0);
        assert(r.deep_view() + spec_tokens(s@.subrange(n as int, n as int)) =~= r.deep_view());
    }
    r
}

/// `s` without leading whitespace.
pub open spec fn spec_trim_start(s: Seq<char>) -> Seq<char>
    decreases s.len(),
{
    if s.len() == 0 {
        s
    } else if is_space_char(s[0]) {
        spec_trim_start(s.skip(1))
    } else {
        s
    }
}

/// `s` without trailing whitespace.
pub open spec fn spec_trim_end(s: Seq<char>) -> Seq<char>
    decreases s.len(),
{
    if s.len() == 0 {
        s
    } else if is_space_char(s[s.len() - 1]) {
        spec_trim_end(s.drop_last())
    } else {
        s
    }
}

/// `s` without leading or trailing whitespace.
pub open spec fn spec_trim(s: Seq<char>) -> Seq<char> {
    spec_trim_end(spec_trim_start(s))
}

/// A prefix of whitespace ends where the first non-space stands.
proof fn lemma_trim_start_at(s: Seq<char>, a: int)
    requires
        0 <= a <= s.len(),
        forall|k: int| 0 <= k < a ==> is_space_char(s[k]),
        a < s.len() ==> !is_space_char(s[a]),
    ensures
        spec_trim_start(s) == s.subrange(a, s.len() as int),
    decreases s.len(),
{
    if s.len() == 0 {
        assert(s.subrange(0, 0) =~= s);
    } else if is_space_char(s[0]) {
        assert(a > 0);
        assert forall|k: int| 0 <= k < a - 1 implies is_space_char(s.skip(1)[k]) by {
            assert(s.skip(1)[k] == s[k + 1]);
        }
        if a - 1 < s.skip(1).len() {
            assert(s.skip(1)[a - 1] == s[a]);
        }
        lemma_trim_start_at(s.skip(1), a - 1);
        assert(s.skip(1).subrange(a - 1, s.skip(1).len() as int) =~= s.subrange(
            a,
            s.len() as int,
        ));
    } else {
        assert(a == 0);
        assert(s.subrange(0, s.len() as int) =~= s);
    }
}

/// A suffix of whitespace starts where the last non-space ends.
proof fn lemma_trim_end_at(s: Seq<char>, b: int)
    requires
        0 <= b <= s.len(),
        forall|k: int| b <= k < s.len() ==> is_space_char(s[k]),
        b > 0 ==> !is_space_char(s[b - 1]),
    ensures
        spec_trim_end(s) == s.subrange(0, b),
    decreases s.len(),
{
    if s.len() == 0 {
        assert(s.subrange(0, 0) =~= s);
    } else if is_space_char(s[s.len() - 1]) {
        assert(b < s.len());
        assert forall|k: int| b <= k < s.drop_last().len() implies is_space_char(
            s.drop_last()[k],
        ) by {
            assert(s.drop_last()[k] == s[k]);
        }
        if b > 0 {
            assert(s.drop_last()[b - 1] == s[b - 1]);
        }
        lemma_trim_end_at(s.drop_last(), b);
        assert(s.drop_last().subrange(0, b) =~= s.subrange(0, b));
    } else {
        assert(b == s.len());
        assert(s.subrange(0, s.len() as int) =~= s);
    }
}

/// Remove leading and trailing whitespace.
pub fn trim_str(s: &str) -> (r: String)
    ensures
        r@ == spec_trim(s@),
{
    let n = s.unicode_len();
    let mut a: usize = 0;
    while a < n
        invariant
            a <= n,
            n == s@.len(),
            forall|k: int| 0 <= k < a ==> is_space_char(s@[k]),
        ensures
            a <= n,
            forall|k: int| 0 <= k < a ==> is_space_char(s@[k]),
            a < n ==> !is_space_char(s@[a as int]),
        decreases n - a,
    {
        if !is_space(s.get_char(a)) {
            break;
        }
        a = a + 1;
    }
    proof {
        lemma_trim_start_at(s@, a as int);
    }
    let ghost t: Seq<char> = s@.subrange(a as int, n as int);
    let mut b: usize = n;
    while b > a
        invariant
            a <= b <= n,
            n == s@.len(),
            forall|k: int| b <= k < n ==> is_space_char(s@[k]),
        ensures
            a <= b <= n,
            forall|k: int| b <= k < n ==> is_space_char(s@[k]),
            b > a ==> !is_space_char(s@[b - 1]),
        decreases b,
    {
        if !is_space(s.get_char(b - 1)) {
            break;
        }
        b = b - 1;
    }
    proof {
        assert forall|k: int| b - a <= k < t.len() implies is_space_char(t[k]) by {
            assert(t[k] == s@[a + k]);
        }
        if b > a {
            assert(t[b - a - 1] == s@[b - 1]);
        }
        if b == a && a < n {
            assert(t[0] == s@[a as int]);
            assert(!is_space_char(t[0]));
            assert(b - a > 0 || t.len() == 0 || !is_space_char(t[b - a]));
        }
        lemma_trim_end_at(t, b - a as int);
        assert(t.subrange(0, b - a as int) =~= s@.subrange(a as int, b as int));
    }
    let r = s.substring_char(a, b).to_owned();
    r
}

/// The remainder of `s` after the prefix `p`, when `s` starts with `p`.
pub fn strip_prefix_str(s: &str, p: &str) -> (r: Option<String>)
    ensures
        match r {
            Some(t) => s@.len() >= p@.len() && s@.subrange(0, p@.len() as int) == p@ && t@
                == s@.subrange(p@.len() as int, s@.len() as int),
            None => !(s@.len() >= p@.len() && s@.subrange(0, p@.len() as int) == p@),
        },
{
    let n = s.unicode_len();
    let np = p.unicode_len();
    if np > n {
        return None;
    }
    let head = s.substring_char(0, np);
    if str_eq(head, p) {
        Some(s.substring_char(np, n).to_owned())
    } else {
        None
    }
}

/// The front of `s` before a final `sep` character, when `s` ends with it.
pub fn strip_suffix_char(s: &str, sep: char) -> (r: Option<String>)
    ensures
        match r {
            Some(t) => s@.len() > 0 && s@[s@.len() - 1] == sep && t@ == s@.subrange(
                0,
                s@.len() - 1,
            ),
            None => !(s@.len() > 0 && s@[s@.len() - 1] == sep),
        },
{
    let n = s.unicode_len();
    if n == 0 {
        return None;
    }
    if s.get_char(n - 1) == sep {
        Some(s.substring_char(0, n - 1).to_owned())
    } else {
        None
    }
}

} // verus!
