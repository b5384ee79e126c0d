//! The memory of recent previews: keyed by file identity, bounded in
//! count and bytes, the least recently used going first.

use vstd::prelude::*;
use vstd::string::StringExecFns;
use crate::path::{path_eq, same_path};
use crate::text::chars_of;

verus! {

/// Most previews kept.
pub const MAX_CACHE_ENTRIES: usize = 128;

/// Most bytes of preview pixels kept.
pub const MAX_CACHE_BYTES: usize = 33554432;

/// What identifies a preview: the file, its size and its modification
/// time (nanoseconds from the epoch), so that a changed file misses.
#[derive(Debug, Clone)]
pub struct CacheKey {
    pub path: String,
    pub size: u64,
    pub modified: Option<i128>,
}

/// The key's identity as values.
pub open spec fn key_view(k: CacheKey) -> (Seq<char>, u64, Option<i128>) {
    (k.path@, k.size, k.modified)
}

/// Two keys name the same preview: same path (as paths compare), size and time.
pub open spec fn same_key(a: (Seq<char>, u64, Option<i128>), b: (Seq<char>, u64, Option<i128>)) -> bool {
    same_path(a.0, b.0) && a.1 == b.1 && a.2 == b.2
}

/// The key of the file at `path` from what its metadata says, read
/// without following links: only regular files have one.
pub fn cache_key(path: &str, metadata: Option<(bool, u64, Option<i128>)>) -> (r: Option<CacheKey>)
    ensures
        match metadata {
            Some((is_file, len, modified)) => if is_file {
                r matches Some(k) && k.path@ == path@ && k.size == len && k.modified == modified
            } else {
                r is None
            },
            None => r is None,
        },
{
    match metadata {
        Some((is_file, len, modified)) => {
            if is_file {
                Some(CacheKey { path: String::from_str(path), size: len, modified })
            } else {
                None
            }
        },
        None => None,
    }
}

/// Sum of the sizes in `s`.
pub open spec fn total_of(s: Seq<usize>) -> nat
    decreases s.len(),
{
    if s.len() == 0 {
        0
    } else {
        (total_of(s.drop_last()) + s.last()) as nat
    }
}

/// A list of entries the cache may hold.
pub open spec fn fits(sizes: Seq<usize>) -> bool {
    sizes.len() <= MAX_CACHE_ENTRIES && total_of(sizes) <= MAX_CACHE_BYTES
}

/// The entries left once the oldest are dropped until the rest fits.
pub open spec fn evicted<K>(s: Seq<(K, usize)>) -> Seq<(K, usize)>
    decreases s.len(),
{
    if s.len() == 0 || fits(s.map_values(|e: (K, usize)| e.1)) {
        s
    } else {
        evicted(s.drop_first())
    }
}

/// Recent previews, oldest first.
#[derive(Debug)]
pub struct PreviewCache<T> {
    keys: Vec<CacheKey>,
    values: Vec<T>,
    sizes: Vec<usize>,
    total_bytes: usize,
}

impl<T> PreviewCache<T> {
    /// The keys held with their sizes, least recently used first.
    pub closed spec fn entries(&self) -> Seq<((Seq<char>, u64, Option<i128>), usize)> {
        Seq::new(self.keys@.len(), |i: int| (key_view(self.keys@[i]), self.sizes@[i]))
    }

    /// The value kept under the `i`-th entry.
    pub closed spec fn value_at(&self, i: int) -> T {
        self.values@[i]
    }

    /// Total bytes held.
    pub closed spec fn bytes(&self) -> nat {
        self.total_bytes as nat
    }

    /// Keys are distinct, counts agree, and the bounds hold.
    pub closed spec fn wf(&self) -> bool {
        &&& self.keys@.len() == self.values@.len() == self.sizes@.len()
        &&& self.total_bytes == total_of(self.sizes@)
        &&& fits(self.sizes@)
        &&& forall|i: int, j: int|
            0 <= i < j < self.keys@.len() ==> !same_key(
                key_view(#[trigger] self.keys@[i]),
                key_view(#[trigger] self.keys@[j]),
            )
    }

    /// An empty cache.
    pub fn new() -> (r: PreviewCache<T>)
        ensures
            r.wf(),
            r.entries().len() == 0,
            r.bytes() == 0,
    {
        PreviewCache { keys: Vec::new(), values: Vec::new(), sizes: Vec::new(), total_bytes: 0 }
    }

    /// Where `key` is held, if it is.
    fn position(&self, key: &CacheKey) -> (r: Option<usize>)
        requires
            self.wf(),
        ensures
            match r {
                Some(i) => i < self.keys@.len() && same_key(
                    key_view(self.keys@[i as int]),
                    key_view(*key),
                ),
                None => forall|i: int|
                    0 <= i < self.keys@.len() ==> !same_key(
                        key_view(#[trigger] self.keys@[i]),
                        key_view(*key),
                    ),
            },
    {
        let kp = chars_of(key.path.as_str());
        let mut i: usize = 0;
        while i < self.keys.len()
            invariant
                i <= self.keys@.len(),
                kp@ == key.path@,
                forall|j: int|
                    0 <= j < i ==> !same_key(key_view(#[trigger] self.keys@[j]), key_view(*key)),
            decreases self.keys@.len() - i,
        {
            let p = chars_of(self.keys[i].path.as_str());
            if self.keys[i].size == key.size && self.keys[i].modified == key.modified && path_eq(
                &p,
                &kp,
            ) {
                return Some(i);
            }
            i = i + 1;
        }
        None
    }
}

/// Sizes of a list of entries.
pub open spec fn sizes_of<K>(s: Seq<(K, usize)>) -> Seq<usize> {
    s.map_values(|e: (K, usize)| e.1)
}

/// Dropping the first size takes it off the total.
pub proof fn lemma_total_drop_first(s: Seq<usize>)
    requires
        s.len() > 0,
    ensures
        total_of(s) == s[0] + total_of(s.drop_first()),
    decreases s.len(),
{
    if s.len() > 1 {
        lemma_total_drop_first(s.drop_last());
        assert(s.drop_last().drop_first() =~= s.drop_first().drop_last());
    } else {
        assert(s.drop_first() =~= Seq::<usize>::empty());
        assert(s.drop_last() =~= Seq::<usize>::empty());
    }
}

/// Removing one size takes it off the total.
pub proof fn lemma_total_remove(s: Seq<usize>, i: int)
    requires
        0 <= i < s.len(),
    ensures
        total_of(s) == s[i] + total_of(s.remove(i)),
    decreases s.len(),
{
    if i == s.len() - 1 {
        assert(s.remove(i) =~= s.drop_last());
    } else {
        lemma_total_remove(s.drop_last(), i);
        assert(s.remove(i).drop_last() =~= s.drop_last().remove(i));
        assert(s.remove(i).last() == s.last());
    }
}

impl<T> PreviewCache<T> {
    fn remove_at(&mut self, i: usize) -> (r: (CacheKey, T, usize))
        requires
            old(self).keys@.len() == old(self).values@.len() == old(self).sizes@.len(),
            old(self).total_bytes == total_of(old(self).sizes@),
            i < old(self).keys@.len(),
        ensures
            final(self).keys@ == old(self).keys@.remove(i as int),
            final(self).values@ == old(self).values@.remove(i as int),
            final(self).sizes@ == old(self).sizes@.remove(i as int),
            final(self).total_bytes == total_of(final(self).sizes@),
            r.0 == old(self).keys@[i as int],
            r.1 == old(self).values@[i as int],
            r.2 == old(self).sizes@[i as int],
            total_of(old(self).sizes@) == r.2 + total_of(final(self).sizes@),
    {
        proof {
            lemma_total_remove(self.sizes@, i as int);
        }
        let k = self.keys.remove(i);
        let v = self.values.remove(i);
        let s = self.sizes.remove(i);
        self.total_bytes = self.total_bytes - s;
        (k, v, s)
    }

    /// The preview kept for `key`, which becomes the most recently used.
    pub fn get(&mut self, key: &CacheKey) -> (r: Option<T>)
        where
            T: Clone,
        requires
            old(self).wf(),
        ensures
            final(self).wf(),
            r is None ==> final(self).entries() == old(self).entries(),
            r is None ==> forall|i: int|
                0 <= i < old(self).entries().len() ==> !same_key(
                    (#[trigger] old(self).entries()[i]).0,
                    key_view(*key),
                ),
            r is Some ==> exists|i: int|
                0 <= i < old(self).entries().len() && same_key(
                    old(self).entries()[i].0,
                    key_view(*key),
                ) && final(self).entries() == old(self).entries().remove(i).push(
                    old(self).entries()[i],
                ) && final(self).value_at(final(self).entries().len() - 1) == old(
                    self,
                ).value_at(i) && (forall|j: int|
                    0 <= j < final(self).entries().len() - 1 ==> #[trigger] final(self).value_at(j)
                        == old(self).value_at(if j < i { j } else { j + 1 })) && (r matches Some(
                    v,
                ) && cloned::<T>(old(self).value_at(i), v)),
            r is None ==> forall|j: int|
                0 <= j < old(self).entries().len() ==> #[trigger] final(self).value_at(j) == old(
                    self,
                ).value_at(j),
    {
        let ghost e0 = self.entries();
        let ghost k0 = self.keys@;
        let ghost v0 = self.values@;
        let ghost s0 = self.sizes@;
        match self.position(key) {
            None => {
                assert forall|i: int| 0 <= i < e0.len() implies !same_key(
                    (#[trigger] e0[i]).0,
                    key_view(*key),
                ) by {
                    assert(e0[i].0 == key_view(k0[i]));
                }
                None
            },
            Some(i) => {
                let (k, v, s) = self.remove_at(i);
                let c = v.clone();
                self.keys.push(k);
                self.values.push(v);
                self.sizes.push(s);
                self.total_bytes = self.total_bytes + s;
                proof {
                    assert(self.sizes@ =~= s0.remove(i as int).push(s0[i as int]));
                    assert(self.sizes@.drop_last() =~= s0.remove(i as int));
                    assert(self.entries() =~= e0.remove(i as int).push(e0[i as int]));
                    assert forall|a: int, b: int|
                        0 <= a < b < self.keys@.len() implies !same_key(
                        key_view(#[trigger] self.keys@[a]),
                        key_view(#[trigger] self.keys@[b]),
                    ) by {
                        let oa = if a < i { a } else { a + 1 };
                        let ob = if b == self.keys@.len() - 1 {
                            i as int
                        } else if b < i {
                            b
                        } else {
                            b + 1
                        };
                        assert(self.keys@[a] == k0[oa]);
                        assert(self.keys@[b] == k0[ob]);
                        if oa < ob {
                            assert(!same_key(key_view(k0[oa]), key_view(k0[ob])));
                        } else {
                            assert(!same_key(key_view(k0[ob]), key_view(k0[oa])));
                        }
                    }
                    assert(e0[i as int].0 == key_view(k0[i as int]));
                    assert(self.value_at(self.entries().len() - 1) == v0[i as int]);
                    assert(0 <= i < e0.len() && same_key(e0[i as int].0, key_view(*key))
                        && self.entries() == e0.remove(i as int).push(e0[i as int])
                        && self.value_at(self.entries().len() - 1) == v0[i as int]);
                    assert(old(self).value_at(i as int) == v0[i as int]);
                    assert(old(self).entries() == e0);
                    assert(same_key(old(self).entries()[i as int].0, key_view(*key)));
                    assert(cloned::<T>(v0[i as int], c));
                    assert forall|j: int| 0 <= j < self.entries().len() - 1 implies #[trigger] self.value_at(j)
                        == v0[if j < i { j } else { j + 1 }] by {
                        assert(self.values@[j] == v0.remove(i as int)[j]);
                    }
                }
                Some(c)
            },
        }
    }

    /// Keeps `value` (of `bytes` bytes) under `key` as the most recently
    /// used, replacing what the key held; then drops the least recently
    /// used until at most `MAX_CACHE_ENTRIES` previews of at most
    /// `MAX_CACHE_BYTES` bytes remain. A preview larger than the whole
    /// budget is not kept.
    pub fn insert(&mut self, key: CacheKey, value: T, bytes: usize)
        requires
            old(self).wf(),
        ensures
            final(self).wf(),
            bytes > MAX_CACHE_BYTES ==> final(self).entries() == old(self).entries() && forall|j: int|
                0 <= j < old(self).entries().len() ==> #[trigger] final(self).value_at(j) == old(
                    self,
                ).value_at(j),
            bytes <= MAX_CACHE_BYTES ==> {
                let s = old(self).entries();
                let kept = Seq::new(
                    s.len(),
                    |i: int| s[i],
                ).filter(|e: ((Seq<char>, u64, Option<i128>), usize)| !same_key(e.0, key_view(key)));
                &&& final(self).entries() == evicted(kept.push((key_view(key), bytes)))
                &&& final(self).entries().len() > 0
                &&& final(self).entries().last() == (key_view(key), bytes)
                &&& final(self).value_at(final(self).entries().len() - 1) == value
                &&& forall|i: int, j: int|
                    0 <= i < old(self).entries().len() && 0 <= j < final(self).entries().len() - 1
                        && #[trigger] old(self).entries()[i] == #[trigger] final(self).entries()[j]
                        ==> final(self).value_at(j) == old(self).value_at(i)
            },
    {
        if bytes > MAX_CACHE_BYTES {
            return;
        }
        let ghost e0 = self.entries();
        let ghost v0 = self.values@;
        let ghost kv = key_view(key);
        let ghost mut src: Seq<int> = Seq::empty();
        let ghost kept = Seq::new(e0.len(), |i: int| e0[i]).filter(
            |e: ((Seq<char>, u64, Option<i128>), usize)| !same_key(e.0, kv),
        );
        match self.position(&key) {
            None => {
                proof {
                    assert(Seq::new(e0.len(), |i: int| e0[i]) =~= e0);
                    assert(e0.filter(|e: ((Seq<char>, u64, Option<i128>), usize)| !same_key(e.0, kv))
                        =~= e0) by {
                        lemma_filter_all(e0, kv);
                    }
                    src = Seq::new(e0.len(), |j: int| j);
                    assert(carried(e0, v0, self.entries(), self.values@, self.keys@.len() as int, src));
                }
            },
            Some(i) => {
                let ghost k0 = self.keys@;
                self.remove_at(i);
                proof {
                    assert(Seq::new(e0.len(), |j: int| e0[j]) =~= e0);
                    lemma_filter_one(e0, i as int, kv);
                    assert(self.entries() =~= e0.remove(i as int));
                    assert forall|a: int, b: int|
                        0 <= a < b < self.keys@.len() implies !same_key(
                        key_view(#[trigger] self.keys@[a]),
                        key_view(#[trigger] self.keys@[b]),
                    ) by {
                        let oa = if a < i { a } else { a + 1 };
                        let ob = if b < i { b } else { b + 1 };
                        assert(self.keys@[a] == k0[oa]);
                        assert(self.keys@[b] == k0[ob]);
                    }
                    src = Seq::new((e0.len() - 1) as nat, |j: int| if j < i { j } else { j + 1 });
                    assert(carried(e0, v0, self.entries(), self.values@, self.keys@.len() as int, src));
                }
            },
        }
        assert(self.entries() == kept);
        assert(forall|j: int| 0 <= j < self.keys@.len() ==> !same_key(key_view(#[trigger] self.keys@[j]), kv)) by {
            assert forall|j: int| 0 <= j < self.keys@.len() implies !same_key(key_view(#[trigger] self.keys@[j]), kv) by {
                assert(kept[j] == self.entries()[j]);
                lemma_filter_none(e0, kv, j);
            }
        }
        let ghost s1 = self.sizes@;
        let ghost e1 = self.entries();
        let ghost vals1 = self.values@;
        assert(carried(e0, v0, e1, vals1, e1.len() as int, src));
        self.keys.push(key);
        self.values.push(value);
        self.sizes.push(bytes);
        self.total_bytes = self.total_bytes + bytes;
        let ghost pushed = self.entries();
        assert(pushed =~= kept.push((kv, bytes)));
        assert(self.sizes@.drop_last() =~= s1);
        assert(carried(e0, v0, self.entries(), self.values@, self.keys@.len() - 1, src)) by {
            assert forall|j: int| 0 <= j < self.keys@.len() - 1 implies 0 <= #[trigger] src[j] < e0.len()
                && e0[src[j]] == self.entries()[j] && v0[src[j]] == self.values@[j] by {
                assert(self.entries()[j] == e1[j] && self.values@[j] == vals1[j]);
            }
        }
        loop
            invariant_except_break
                self.keys@.len() == self.values@.len() == self.sizes@.len(),
                self.keys@.len() >= 1,
                self.total_bytes == total_of(self.sizes@),
                self.total_bytes <= 2 * MAX_CACHE_BYTES,
                self.keys@.len() <= MAX_CACHE_ENTRIES + 1,
                evicted(self.entries()) == evicted(pushed),
                self.entries().last() == (kv, bytes),
                self.values@.last() == value,
                carried(e0, v0, self.entries(), self.values@, self.keys@.len() - 1, src),
                bytes <= MAX_CACHE_BYTES,
                forall|a: int, b: int|
                    0 <= a < b < self.keys@.len() ==> !same_key(
                        key_view(#[trigger] self.keys@[a]),
                        key_view(#[trigger] self.keys@[b]),
                    ),
            ensures
                self.wf(),
                self.entries() == evicted(pushed),
                self.entries().len() > 0,
                self.entries().last() == (kv, bytes),
                self.values@.last() == value,
                carried(e0, v0, self.entries(), self.values@, self.keys@.len() - 1, src),
            decreases self.keys@.len(),
        {
            proof {
                assert(sizes_of(self.entries()) =~= self.sizes@);
            }
            if self.keys.len() <= MAX_CACHE_ENTRIES && self.total_bytes <= MAX_CACHE_BYTES {
                break;
            }
            proof {
                if self.keys@.len() == 1 {
                    assert(self.sizes@.drop_last() =~= Seq::<usize>::empty());
                    assert(self.sizes@[0] == bytes);
                }
            }
            let ghost before = self.entries();
            let ghost kb = self.keys@;
            let ghost vb = self.values@;
            let ghost sb = src;
            proof {
                lemma_total_drop_first(self.sizes@);
            }
            self.remove_at(0);
            proof {
                assert(self.entries() =~= before.drop_first());
                assert(sizes_of(before) =~= before.map_values(|e: ((Seq<char>, u64, Option<i128>), usize)| e.1));
                assert forall|a: int, b: int|
                    0 <= a < b < self.keys@.len() implies !same_key(
                    key_view(#[trigger] self.keys@[a]),
                    key_view(#[trigger] self.keys@[b]),
                ) by {
                    assert(self.keys@[a] == kb[a + 1]);
                    assert(self.keys@[b] == kb[b + 1]);
                }
                src = sb.drop_first();
                assert(carried(e0, v0, self.entries(), self.values@, self.keys@.len() - 1, src)) by {
                    assert forall|j: int| 0 <= j < self.keys@.len() - 1 implies 0 <= #[trigger] src[j]
                        < e0.len() && e0[src[j]] == self.entries()[j] && v0[src[j]] == self.values@[j] by {
                        assert(self.entries()[j] == before[j + 1] && self.values@[j] == vb[j + 1]);
                        assert(src[j] == sb[j + 1]);
                    }
                }
            }
        }
        proof {
            assert(old(self).entries() == e0);
            assert(self.values@.len() == self.entries().len());
            assert(self.value_at(self.entries().len() - 1) == value);
            assert forall|i: int, j: int|
                0 <= i < old(self).entries().len() && 0 <= j < self.entries().len() - 1
                    && #[trigger] old(self).entries()[i] == #[trigger] self.entries()[j]
                    implies self.value_at(j) == old(self).value_at(i) by {
                let w = src[j];
                assert(old(self).value_at(w) == v0[w]);
                assert(e0[w] == self.entries()[j]);
                if i != w {
                    assert(e0[i].0 == key_view(old(self).keys@[i]));
                    assert(e0[w].0 == key_view(old(self).keys@[w]));
                    assert(same_key(e0[i].0, e0[w].0));
                    if i < w {
                        assert(!same_key(key_view(old(self).keys@[i]), key_view(old(self).keys@[w])));
                    } else {
                        assert(!same_key(key_view(old(self).keys@[w]), key_view(old(self).keys@[i])));
                    }
                }
            }
        }
    }
}

/// Each of the first `upto` entries of `e`, with its value in `v`, is the
/// entry `src[j]` of `e0` with the same value in `v0`.
pub open spec fn carried<T>(
    e0: Seq<((Seq<char>, u64, Option<i128>), usize)>,
    v0: Seq<T>,
    e: Seq<((Seq<char>, u64, Option<i128>), usize)>,
    v: Seq<T>,
    upto: int,
    src: Seq<int>,
) -> bool {
    &&& upto <= src.len()
    &&& forall|j: int|
        0 <= j < upto ==> 0 <= #[trigger] src[j] < e0.len() && e0[src[j]] == e[j] && v0[src[j]] == v[j]
}

/// Reading a key back gives the preview last written under it: once
/// `insert` has kept `value` under `key` (its last entry, as `insert`
/// ensures), the only entry `get` can find for `key` is that one, so what
/// `get` returns is a clone of `value`.
pub proof fn law_read_after_write<T>(c: PreviewCache<T>, key: CacheKey, value: T)
    requires
        c.wf(),
        c.entries().len() > 0,
        c.entries().last().0 == key_view(key),
        c.value_at(c.entries().len() - 1) == value,
    ensures
        same_key(c.entries()[c.entries().len() - 1].0, key_view(key)),
        forall|i: int|
            0 <= i < c.entries().len() && same_key(#[trigger] c.entries()[i].0, key_view(key))
                ==> i == c.entries().len() - 1 && c.value_at(i) == value,
{
    let n = c.entries().len() - 1;
    assert forall|i: int|
        0 <= i < c.entries().len() && same_key(#[trigger] c.entries()[i].0, key_view(key))
            implies i == n && c.value_at(i) == value by {
        if i != n {
            assert(c.entries()[i].0 == key_view(c.keys@[i]));
            assert(c.entries()[n].0 == key_view(c.keys@[n]));
            assert(!same_key(key_view(c.keys@[i]), key_view(c.keys@[n])));
        }
    }
}

/// Filtering out a key no entry has keeps everything.
proof fn lemma_filter_all(
    s: Seq<((Seq<char>, u64, Option<i128>), usize)>,
    kv: (Seq<char>, u64, Option<i128>),
)
    requires
        forall|i: int| 0 <= i < s.len() ==> !same_key(#[trigger] s[i].0, kv),
    ensures
        s.filter(|e: ((Seq<char>, u64, Option<i128>), usize)| !same_key(e.0, kv)) == s,
    decreases s.len(),
{
    reveal_with_fuel(Seq::filter, 1);
    if s.len() > 0 {
        lemma_filter_all(s.drop_last(), kv);
        assert(s.drop_last().push(s.last()) =~= s);
    }
}

/// Filtering out the key of the one entry that has it removes just that entry.
proof fn lemma_filter_one(
    s: Seq<((Seq<char>, u64, Option<i128>), usize)>,
    i: int,
    kv: (Seq<char>, u64, Option<i128>),
)
    requires
        0 <= i < s.len(),
        same_key(s[i].0, kv),
        forall|a: int, b: int| 0 <= a < b < s.len() ==> !same_key(#[trigger] s[a].0, #[trigger] s[b].0),
    ensures
        s.filter(|e: ((Seq<char>, u64, Option<i128>), usize)| !same_key(e.0, kv)) == s.remove(i),
    decreases s.len(),
{
    reveal_with_fuel(Seq::filter, 1);
    if i == s.len() - 1 {
        assert forall|j: int| 0 <= j < s.drop_last().len() implies !same_key(
            #[trigger] s.drop_last()[j].0,
            kv,
        ) by {
            assert(!same_key(s[j].0, s[i].0));
        }
        lemma_filter_all(s.drop_last(), kv);
        assert(s.remove(i) =~= s.drop_last());
    } else {
        assert forall|a: int, b: int| 0 <= a < b < s.drop_last().len() implies !same_key(
            #[trigger] s.drop_last()[a].0,
            #[trigger] s.drop_last()[b].0,
        ) by {
            assert(!same_key(s[a].0, s[b].0));
        }
        lemma_filter_one(s.drop_last(), i, kv);
        assert(!same_key(s.last().0, kv)) by {
            assert(!same_key(s[i].0, s[s.len() - 1].0));
        }
        assert(s.remove(i) =~= s.drop_last().remove(i).push(s.last()));
    }
}

/// What is left after filtering out a key does not have it.
proof fn lemma_filter_none(
    s: Seq<((Seq<char>, u64, Option<i128>), usize)>,
    kv: (Seq<char>, u64, Option<i128>),
    j: int,
)
    requires
        0 <= j < s.filter(|e: ((Seq<char>, u64, Option<i128>), usize)| !same_key(e.0, kv)).len(),
    ensures
        !same_key(s.filter(|e: ((Seq<char>, u64, Option<i128>), usize)| !same_key(e.0, kv))[j].0, kv),
{
    s.lemma_filter_pred(|e: ((Seq<char>, u64, Option<i128>), usize)| !same_key(e.0, kv), j);
}

} // verus!
