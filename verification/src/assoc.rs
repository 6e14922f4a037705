//! Association vectors keyed by integers or strings: the registry's
//! maps are kept as `Vec` of key-value pairs with unique keys.
use vstd::prelude::*;

verus! {

/// No two entries share a key.
pub open spec fn keys_unique<V>(s: Seq<(u64, V)>) -> bool {
    forall|i: int, j: int| 0 <= i < j < s.len() ==> (#[trigger] s[i]).0 != (#[trigger] s[j]).0
}

/// Some entry carries this key.
pub open spec fn has_key<V>(s: Seq<(u64, V)>, k: u64) -> bool {
    exists|i: int| 0 <= i < s.len() && (#[trigger] s[i]).0 == k
}

/// Index of the entry carrying this key.
pub open spec fn key_idx<V>(s: Seq<(u64, V)>, k: u64) -> int {
    choose|i: int| 0 <= i < s.len() && (#[trigger] s[i]).0 == k
}

/// The value stored under this key, if any.
pub open spec fn spec_get<V>(s: Seq<(u64, V)>, k: u64) -> Option<V> {
    if has_key(s, k) {
        Some(s[key_idx(s, k)].1)
    } else {
        None
    }
}

/// With unique keys, the entry at a known index is the one every
/// lookup of its key finds.
pub proof fn lemma_get_at<V>(s: Seq<(u64, V)>, i: int)
    requires
        keys_unique(s),
        0 <= i < s.len(),
    ensures
        has_key(s, s[i].0),
        key_idx(s, s[i].0) == i,
        spec_get(s, s[i].0) == Some(s[i].1),
{
    assert(has_key(s, s[i].0));
    let j = key_idx(s, s[i].0);
    if j != i {
        if j < i {
            assert(s[j].0 != s[i].0);
        } else {
            assert(s[i].0 != s[j].0);
        }
    }
}

/// Updating the value at one index leaves every other key's lookup
/// unchanged.
pub proof fn lemma_update<V>(s: Seq<(u64, V)>, i: int, v: V)
    requires
        keys_unique(s),
        0 <= i < s.len(),
    ensures
        keys_unique(s.update(i, (s[i].0, v))),
        spec_get(s.update(i, (s[i].0, v)), s[i].0) == Some(v),
        forall|k: u64| k != s[i].0 ==> spec_get(s.update(i, (s[i].0, v)), k) == spec_get(s, k),
        forall|k: u64| has_key(s.update(i, (s[i].0, v)), k) == has_key(s, k),
{
    let s2 = s.update(i, (s[i].0, v));
    assert(keys_unique(s2));
    lemma_get_at(s2, i);
    assert forall|k: u64| has_key(s2, k) == has_key(s, k) by {
        if has_key(s, k) {
            let j = key_idx(s, k);
            assert(s2[j].0 == k);
        }
        if has_key(s2, k) {
            let j = key_idx(s2, k);
            assert(s[j].0 == k);
        }
    }
    assert forall|k: u64| k != s[i].0 implies spec_get(s2, k) == spec_get(s, k) by {
        if has_key(s, k) {
            let j = key_idx(s, k);
            assert(s[j].0 == k);
            assert(j != i);
            assert(s2[j].0 == k);
            lemma_get_at(s, j);
            lemma_get_at(s2, j);
        }
    }
}

/// Appending a fresh key adds its binding and changes no other.
pub proof fn lemma_push<V>(s: Seq<(u64, V)>, k: u64, v: V)
    requires
        keys_unique(s),
        !has_key(s, k),
    ensures
        keys_unique(s.push((k, v))),
        spec_get(s.push((k, v)), k) == Some(v),
        forall|k2: u64| k2 != k ==> spec_get(s.push((k, v)), k2) == spec_get(s, k2),
        forall|k2: u64| k2 != k ==> has_key(s.push((k, v)), k2) == has_key(s, k2),
        has_key(s.push((k, v)), k),
{
    let s2 = s.push((k, v));
    assert forall|i: int, j: int| 0 <= i < j < s2.len() implies (#[trigger] s2[i]).0 != (
    #[trigger] s2[j]).0 by {
        if j < s.len() {
        } else {
            assert(s2[j] == (k, v));
            assert(s2[i] == s[i]);
            if s[i].0 == k {
                assert(has_key(s, k));
            }
        }
    }
    lemma_get_at(s2, s.len() as int);
    assert forall|k2: u64| k2 != k implies spec_get(s2, k2) == spec_get(s, k2) && has_key(s2, k2)
        == has_key(s, k2) by {
        if has_key(s, k2) {
            let j = key_idx(s, k2);
            assert(s2[j].0 == k2);
            lemma_get_at(s, j);
            lemma_get_at(s2, j);
        } else {
            if has_key(s2, k2) {
                let j = key_idx(s2, k2);
                assert(0 <= j < s2.len() && s2[j].0 == k2);
                assert(j < s.len());
                assert(s[j].0 == k2);
            }
        }
    }
}

/// Removing the entry at one index drops its key and keeps every
/// other binding.
pub proof fn lemma_remove<V>(s: Seq<(u64, V)>, i: int)
    requires
        keys_unique(s),
        0 <= i < s.len(),
    ensures
        keys_unique(s.remove(i)),
        !has_key(s.remove(i), s[i].0),
        forall|k: u64| k != s[i].0 ==> spec_get(s.remove(i), k) == spec_get(s, k),
        forall|k: u64| k != s[i].0 ==> has_key(s.remove(i), k) == has_key(s, k),
{
    let s2 = s.remove(i);
    assert forall|a: int, b: int| 0 <= a < b < s2.len() implies (#[trigger] s2[a]).0 != (
    #[trigger] s2[b]).0 by {
        let a0 = if a < i {
            a
        } else {
            a + 1
        };
        let b0 = if b < i {
            b
        } else {
            b + 1
        };
        assert(s2[a] == s[a0] && s2[b] == s[b0]);
    }
    if has_key(s2, s[i].0) {
        let j = key_idx(s2, s[i].0);
        let j0 = if j < i {
            j
        } else {
            j + 1
        };
        assert(s2[j] == s[j0]);
        assert(s[j0].0 == s[i].0 && j0 != i);
        assert(false);
    }
    assert forall|k: u64| k != s[i].0 implies spec_get(s2, k) == spec_get(s, k) && has_key(s2, k)
        == has_key(s, k) by {
        if has_key(s, k) {
            let j = key_idx(s, k);
            let j2 = if j < i {
                j
            } else {
                j - 1
            };
            assert(j != i);
            assert(s2[j2] == s[j]);
            lemma_get_at(s, j);
            lemma_get_at(s2, j2);
        } else {
            if has_key(s2, k) {
                let j = key_idx(s2, k);
                let j0 = if j < i {
                    j
                } else {
                    j + 1
                };
                assert(s2[j] == s[j0]);
                assert(s[j0].0 == k);
            }
        }
    }
}

/// Finds the entry carrying the key, scanning from the front.
pub fn find_key<V>(v: &Vec<(u64, V)>, k: u64) -> (r: Option<usize>)
    ensures
        r matches Some(i) ==> i < v@.len() && v@[i as int].0 == k,
        r is None ==> !has_key(v@, k),
{
    let mut i: usize = 0;
    while i < v.len()
        invariant
            i <= v@.len(),
            forall|j: int| 0 <= j < i ==> (#[trigger] v@[j]).0 != k,
        decreases v@.len() - i,
    {
        if v[i].0 == k {
            return Some(i);
        }
        i = i + 1;
    }
    proof {
        if has_key(v@, k) {
            let j = key_idx(v@, k);
            assert(v@[j].0 != k);
        }
    }
    None
}

/// No two entries share a key, for string-keyed vectors.
pub open spec fn str_keys_unique<V>(s: Seq<(String, V)>) -> bool {
    forall|i: int, j: int| 0 <= i < j < s.len() ==> (#[trigger] s[i]).0@ != (#[trigger] s[j]).0@
}

/// Some entry carries this key, for string-keyed vectors.
pub open spec fn str_has_key<V>(s: Seq<(String, V)>, k: Seq<char>) -> bool {
    exists|i: int| 0 <= i < s.len() && (#[trigger] s[i]).0@ == k
}

/// Index of the entry carrying this key, for string-keyed vectors.
pub open spec fn str_key_idx<V>(s: Seq<(String, V)>, k: Seq<char>) -> int {
    choose|i: int| 0 <= i < s.len() && (#[trigger] s[i]).0@ == k
}

/// The value stored under this key, if any, for string-keyed vectors.
pub open spec fn str_spec_get<V>(s: Seq<(String, V)>, k: Seq<char>) -> Option<V> {
    if str_has_key(s, k) {
        Some(s[str_key_idx(s, k)].1)
    } else {
        None
    }
}

/// Appending a fresh string key adds its binding and changes no
/// other.
pub proof fn lemma_str_push<V>(s: Seq<(String, V)>, k: String, v: V)
    requires
        str_keys_unique(s),
        !str_has_key(s, k@),
    ensures
        str_keys_unique(s.push((k, v))),
        str_has_key(s.push((k, v)), k@),
        str_spec_get(s.push((k, v)), k@) == Some(v),
        forall|k2: Seq<char>|
            k2 != k@ ==> str_spec_get(s.push((k, v)), k2) == str_spec_get(s, k2),
        forall|k2: Seq<char>| k2 != k@ ==> str_has_key(s.push((k, v)), k2) == str_has_key(s, k2),
{
    let s2 = s.push((k, v));
    assert forall|i: int, j: int| 0 <= i < j < s2.len() implies (#[trigger] s2[i]).0@ != (
    #[trigger] s2[j]).0@ by {
        if j < s.len() {
        } else {
            assert(s2[j] == (k, v));
            assert(s2[i] == s[i]);
            if s[i].0@ == k@ {
                assert(str_has_key(s, k@));
            }
        }
    }
    assert(s2[s.len() as int].0@ == k@);
    let j = str_key_idx(s2, k@);
    if j != s.len() {
        assert(s2[j].0@ == k@);
        assert(s[j].0@ == k@);
        assert(str_has_key(s, k@));
    }
    assert forall|k2: Seq<char>| k2 != k@ implies str_spec_get(s2, k2) == str_spec_get(s, k2)
        && str_has_key(s2, k2) == str_has_key(s, k2) by {
        if str_has_key(s, k2) {
            let a = str_key_idx(s, k2);
            assert(s2[a].0@ == k2);
            let b = str_key_idx(s2, k2);
            if b < s.len() {
                assert(s[b].0@ == k2);
                if a != b {
                    if a < b {
                        assert(s[a].0@ != s[b].0@);
                    } else {
                        assert(s[b].0@ != s[a].0@);
                    }
                }
            } else {
                assert(s2[b].0@ == k@);
            }
        } else {
            if str_has_key(s2, k2) {
                let b = str_key_idx(s2, k2);
                assert(s2[b].0@ == k2);
                if b < s.len() {
                    assert(s[b].0@ == k2);
                } else {
                    assert(s2[b].0@ == k@);
                }
            }
        }
    }
}

/// Finds the entry carrying the string key, scanning from the front.
pub fn str_find_key<V>(v: &Vec<(String, V)>, k: &str) -> (r: Option<usize>)
    ensures
        r matches Some(i) ==> i < v@.len() && v@[i as int].0@ == k@,
        r is None ==> !str_has_key(v@, k@),
{
    let mut i: usize = 0;
    while i < v.len()
        invariant
            i <= v@.len(),
            forall|j: int| 0 <= j < i ==> (#[trigger] v@[j]).0@ != k@,
        decreases v@.len() - i,
    {
        if str_eq(v[i].0.as_str(), k) {
            return Some(i);
        }
        i = i + 1;
    }
    proof {
        if str_has_key(v@, k@) {
            let j = str_key_idx(v@, k@);
            assert(v@[j].0@ != k@);
        }
    }
    None
}

/// Whether two string slices hold the same characters.
pub fn str_eq(a: &str, b: &str) -> (r: bool)
    ensures
        r == (a@ == b@),
{
    let sa: String = a.to_owned();
    let sb: String = b.to_owned();
    sa == sb
}

} // verus!
