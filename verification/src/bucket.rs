//! The per-model token bucket: a small association list from normalized
//! model name to token count, viewed as a map. Token counts saturate at the
//! top of `u64`.

use crate::chars::str_eq;
use crate::sat64;
use vstd::prelude::*;

verus! {

/// The map an association list denotes; a later entry would win, though a
/// well-formed bucket never repeats a key.
pub open spec fn map_of(s: Seq<(String, u64)>) -> Map<Seq<char>, u64>
    decreases s.len(),
{
    if s.len() == 0 {
        Map::empty()
    } else {
        map_of(s.drop_last()).insert(s.last().0@, s.last().1)
    }
}

/// No two entries share a key.
pub open spec fn keys_unique(s: Seq<(String, u64)>) -> bool {
    forall|i: int, j: int| 0 <= i < j < s.len() ==> s[i].0@ != s[j].0@
}

/// The count under `k`, zero when the key is absent.
pub open spec fn bucket_get(m: Map<Seq<char>, u64>, k: Seq<char>) -> u64 {
    if m.dom().contains(k) {
        m[k]
    } else {
        0
    }
}

/// The map after crediting `toks` tokens to `k`, saturating.
pub open spec fn bucket_add(m: Map<Seq<char>, u64>, k: Seq<char>, toks: u64) -> Map<
    Seq<char>,
    u64,
> {
    m.insert(k, sat64(bucket_get(m, k) + toks) as u64)
}

proof fn lemma_unique_drop_last(s: Seq<(String, u64)>)
    requires
        keys_unique(s),
        s.len() > 0,
    ensures
        keys_unique(s.drop_last()),
{
}

/// An entry's key is in the map, bound to that entry's count.
proof fn lemma_map_of_found(s: Seq<(String, u64)>, i: int)
    requires
        keys_unique(s),
        0 <= i < s.len(),
    ensures
        map_of(s).dom().contains(s[i].0@),
        map_of(s)[s[i].0@] == s[i].1,
    decreases s.len(),
{
    if i < s.len() - 1 {
        lemma_unique_drop_last(s);
        lemma_map_of_found(s.drop_last(), i);
        assert(s[s.len() - 1].0@ != s[i].0@);
    }
}

/// A key no entry carries is not in the map.
proof fn lemma_map_of_absent(s: Seq<(String, u64)>, k: Seq<char>)
    requires
        forall|i: int| 0 <= i < s.len() ==> s[i].0@ != k,
    ensures
        !map_of(s).dom().contains(k),
    decreases s.len(),
{
    if s.len() > 0 {
        assert forall|i: int| 0 <= i < s.len() - 1 implies s.drop_last()[i].0@ != k by {
            assert(s.drop_last()[i] == s[i]);
        }
        lemma_map_of_absent(s.drop_last(), k);
    }
}

/// Replacing entry `i` by a pair with the same key re-binds just that key.
proof fn lemma_map_of_update(s: Seq<(String, u64)>, i: int, p: (String, u64))
    requires
        keys_unique(s),
        0 <= i < s.len(),
        p.0@ == s[i].0@,
    ensures
        map_of(s.update(i, p)) =~= map_of(s).insert(s[i].0@, p.1),
        keys_unique(s.update(i, p)),
    decreases s.len(),
{
    let s2 = s.update(i, p);
    assert forall|a: int, b: int| 0 <= a < b < s2.len() implies s2[a].0@ != s2[b].0@ by {
        assert(s2[a].0@ == s[a].0@ && s2[b].0@ == s[b].0@);
    }
    if i == s.len() - 1 {
        assert(s2.drop_last() =~= s.drop_last());
        assert(s2.last() == p);
    } else {
        lemma_unique_drop_last(s);
        lemma_map_of_update(s.drop_last(), i, p);
        assert(s2.drop_last() =~= s.drop_last().update(i, p));
        assert(s2.last() == s.last());
        assert(s.last().0@ != s[i].0@);
    }
}

/// Appending a fresh key binds it and keeps the rest.
proof fn lemma_map_of_push(s: Seq<(String, u64)>, p: (String, u64))
    requires
        keys_unique(s),
        forall|i: int| 0 <= i < s.len() ==> s[i].0@ != p.0@,
    ensures
        map_of(s.push(p)) == map_of(s).insert(p.0@, p.1),
        keys_unique(s.push(p)),
        !map_of(s).dom().contains(p.0@),
{
    lemma_map_of_absent(s, p.0@);
    assert(s.push(p).drop_last() =~= s);
    assert(s.push(p).last() == p);
    assert forall|a: int, b: int| 0 <= a < b < s.push(p).len() implies s.push(p)[a].0@ != s.push(
        p,
    )[b].0@ by {
        if b < s.len() {
            assert(s.push(p)[a] == s[a] && s.push(p)[b] == s[b]);
        } else {
            assert(s.push(p)[a] == s[a] && s.push(p)[b] == p);
        }
    }
}

/// Token counts attributed to normalized model names.
pub struct ModelTokenBucket {
    entries: Vec<(String, u64)>,
}

impl ModelTokenBucket {
    /// The bucket as a map from model name to token count.
    pub closed spec fn view(&self) -> Map<Seq<char>, u64> {
        map_of(self.entries@)
    }

    /// Internal shape: no model name occurs twice.
    pub closed spec fn wf(&self) -> bool {
        keys_unique(self.entries@)
    }

    /// An empty bucket.
    pub fn new() -> (r: Self)
        ensures
            r.wf(),
            r@ == Map::<Seq<char>, u64>::empty(),
    {
        ModelTokenBucket { entries: Vec::new() }
    }

    /// The token count recorded under `key`, zero when absent.
    pub fn get(&self, key: &str) -> (r: u64)
        requires
            self.wf(),
        ensures
            r == bucket_get(self@, key@),
    {
        let n: usize = self.entries.len();
        let mut i: usize = 0;
        while i < n
            invariant
                self.wf(),
                n == self.entries@.len(),
                0 <= i <= n,
                forall|j: int| 0 <= j < i ==> self.entries@[j].0@ != key@,
            decreases n - i,
        {
            if str_eq(self.entries[i].0.as_str(), key) {
                proof {
                    lemma_map_of_found(self.entries@, i as int);
                }
                return self.entries[i].1;
            }
            i = i + 1;
        }
        proof {
            lemma_map_of_absent(self.entries@, key@);
        }
        0
    }

    /// Credits `toks` tokens to `key`, saturating at the top of `u64`.
    pub fn add_tokens(&mut self, key: String, toks: u64)
        requires
            old(self).wf(),
        ensures
            final(self).wf(),
            final(self)@ == bucket_add(old(self)@, key@, toks),
    {
        let n: usize = self.entries.len();
        let mut i: usize = 0;
        while i < n
            invariant
                self.wf(),
                self@ == old(self)@,
                self.entries@ == old(self).entries@,
                n == self.entries@.len(),
                0 <= i <= n,
                forall|j: int| 0 <= j < i ==> self.entries@[j].0@ != key@,
            decreases n - i,
        {
            if str_eq(self.entries[i].0.as_str(), key.as_str()) {
                let cur = self.entries[i].1;
                proof {
                    lemma_map_of_found(self.entries@, i as int);
                    lemma_map_of_update(
                        self.entries@,
                        i as int,
                        (key, cur.saturating_add(toks)),
                    );
                }
                self.entries[i] = (key, cur.saturating_add(toks));
                return ;
            }
            i = i + 1;
        }
        proof {
            lemma_map_of_push(self.entries@, (key, toks));
        }
        self.entries.push((key, toks));
    }
}

} // verus!
