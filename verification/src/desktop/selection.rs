//! Row selection of the listing: plain click, Ctrl-click toggling,
//! Shift-click ranges anchored at the last clicked row, select-all.

use vstd::prelude::*;
use vstd::string::StringExecFns;

verus! {

/// Views of a list of keys.
pub open spec fn key_views(v: Seq<String>) -> Seq<Seq<char>> {
    v.map_values(|s: String| s@)
}

/// First index of `k` in `s`, or `-1`.
pub open spec fn position_of(s: Seq<Seq<char>>, k: Seq<char>) -> int
    decreases s.len(),
{
    if s.len() == 0 {
        -1
    } else if s.last() == k && position_of(s.drop_last(), k) < 0 {
        s.len() - 1
    } else {
        position_of(s.drop_last(), k)
    }
}

/// The keys at positions `lo..=hi` of `s`.
pub open spec fn span_keys(s: Seq<Seq<char>>, lo: int, hi: int) -> Set<Seq<char>> {
    Set::new(|x: Seq<char>| exists|j: int| lo <= j <= hi && 0 <= j < s.len() && s[j] == x)
}

/// The selection after a click on `key` among the visible keys `vis`.
pub open spec fn clicked(
    old: Set<Seq<char>>,
    anchor: Option<Seq<char>>,
    key: Seq<char>,
    vis: Seq<Seq<char>>,
    control: bool,
    shift: bool,
) -> Set<Seq<char>> {
    if shift {
        let ai = match anchor {
            Some(a) => position_of(vis, a),
            None => -1,
        };
        let ci = position_of(vis, key);
        if ai >= 0 && ci >= 0 {
            let lo = if ai <= ci { ai } else { ci };
            let hi = if ai <= ci { ci } else { ai };
            let base = if control { old } else { Set::empty() };
            base.union(span_keys(vis, lo, hi))
        } else {
            set![key]
        }
    } else if control {
        if old.contains(key) {
            old.remove(key)
        } else {
            old.insert(key)
        }
    } else {
        set![key]
    }
}

/// A plain Shift-click (without Ctrl), with the anchor and the clicked
/// key both shown, selects exactly the shown keys from the anchor to the
/// clicked key, both included, whatever was selected before; with Ctrl
/// held, that range is added to the earlier selection instead.
pub proof fn law_shift_click_range(
    old: Set<Seq<char>>,
    anchor: Seq<char>,
    key: Seq<char>,
    vis: Seq<Seq<char>>,
    ia: int,
    ik: int,
)
    requires
        0 <= ia < vis.len(),
        vis[ia] == anchor,
        forall|j: int| 0 <= j < ia ==> vis[j] != anchor,
        0 <= ik < vis.len(),
        vis[ik] == key,
        forall|j: int| 0 <= j < ik ==> vis[j] != key,
    ensures
        forall|x: Seq<char>|
            #[trigger] clicked(old, Some(anchor), key, vis, false, true).contains(x) <==> exists|j: int|
                (ia <= j <= ik || ik <= j <= ia) && vis[j] == x,
        forall|x: Seq<char>|
            #[trigger] clicked(old, Some(anchor), key, vis, true, true).contains(x) <==> (old.contains(x)
                || exists|j: int| (ia <= j <= ik || ik <= j <= ia) && vis[j] == x),
{
    lemma_position_of(vis, anchor);
    lemma_position_of(vis, key);
    assert(position_of(vis, anchor) == ia);
    assert(position_of(vis, key) == ik);
}

pub proof fn lemma_position_of(s: Seq<Seq<char>>, k: Seq<char>)
    ensures
        -1 <= position_of(s, k) < s.len(),
        position_of(s, k) >= 0 ==> s[position_of(s, k)] == k,
        position_of(s, k) >= 0 ==> forall|j: int| 0 <= j < position_of(s, k) ==> s[j] != k,
        position_of(s, k) < 0 ==> forall|j: int| 0 <= j < s.len() ==> s[j] != k,
    decreases s.len(),
{
    if s.len() > 0 {
        let t = s.drop_last();
        lemma_position_of(t, k);
        assert forall|j: int| 0 <= j < t.len() implies s[j] == t[j] by {}
    }
}

pub proof fn lemma_singleton_set(x: Seq<char>)
    ensures
        seq![x].to_set() == set![x],
{
    lemma_push_to_set(Seq::empty(), x);
    assert(Seq::<Seq<char>>::empty().push(x) =~= seq![x]);
    assert(Seq::<Seq<char>>::empty().to_set() =~= Set::<Seq<char>>::empty());
    assert(Set::<Seq<char>>::empty().insert(x) =~= set![x]);
}

/// Which rows are selected, and the anchor of Shift ranges.
#[derive(Debug)]
pub struct SelectionState {
    selected: Vec<String>,
    anchor: Option<String>,
}

impl SelectionState {
    /// The selected keys.
    pub closed spec fn keys(&self) -> Set<Seq<char>> {
        key_views(self.selected@).to_set()
    }

    /// The anchor of Shift ranges.
    pub closed spec fn anchor_key(&self) -> Option<Seq<char>> {
        match self.anchor {
            Some(a) => Some(a@),
            None => None,
        }
    }

    #[verifier::type_invariant]
    closed spec fn no_repeats(&self) -> bool {
        key_views(self.selected@).no_duplicates()
    }

    /// An empty selection with no anchor.
    pub fn new() -> (r: Self)
        ensures
            r.keys() == Set::<Seq<char>>::empty(),
            r.anchor_key().is_none(),
    {
        let r = SelectionState { selected: Vec::new(), anchor: None };
        assert(key_views(r.selected@).to_set() =~= Set::<Seq<char>>::empty());
        r
    }

    /// Deselects everything and forgets the anchor.
    pub fn clear(&mut self)
        ensures
            final(self).keys() == Set::<Seq<char>>::empty(),
            final(self).anchor_key().is_none(),
    {
        self.selected = Vec::new();
        self.anchor = None;
        assert(key_views(self.selected@).to_set() =~= Set::<Seq<char>>::empty());
    }

    /// Selects exactly the given keys and forgets the anchor.
    pub fn select_all(&mut self, keys: Vec<String>)
        ensures
            final(self).keys() == key_views(keys@).to_set(),
            final(self).anchor_key().is_none(),
    {
        let mut chosen: Vec<String> = Vec::new();
        let mut i: usize = 0;
        while i < keys.len()
            invariant
                i <= keys@.len(),
                key_views(chosen@).no_duplicates(),
                key_views(chosen@).to_set() == key_views(keys@.subrange(0, i as int)).to_set(),
            decreases keys@.len() - i,
        {
            let k = keys[i].clone();
            insert_key(&mut chosen, k);
            proof {
                assert(key_views(keys@.subrange(0, i + 1)) =~= key_views(keys@.subrange(0, i as int)).push(
                    keys@[i as int]@,
                ));
                lemma_push_to_set(key_views(keys@.subrange(0, i as int)), keys@[i as int]@);
            }
            i = i + 1;
        }
        assert(keys@.subrange(0, keys@.len() as int) =~= keys@);
        self.selected = chosen;
        self.anchor = None;
    }

    /// Applies a click on `key`; `visible_keys` are the keys in display order.
    pub fn click(&mut self, key: &str, visible_keys: &[String], control: bool, shift: bool)
        ensures
            final(self).keys() == clicked(
                old(self).keys(),
                old(self).anchor_key(),
                key@,
                key_views(visible_keys@),
                control,
                shift,
            ),
            final(self).anchor_key() == Some(key@),
    {
        proof {
            use_type_invariant(&*self);
        }
        let key_s = String::from_str(key);
        let ghost vis = key_views(visible_keys@);
        let ghost old_keys = self.keys();
        if shift {
            let anchor_index = match &self.anchor {
                Some(a) => find_key(visible_keys, a),
                None => None,
            };
            let current_index = find_key(visible_keys, &key_s);
            proof {
                lemma_position_of(vis, key@);
                if self.anchor.is_some() {
                    lemma_position_of(vis, self.anchor.unwrap()@);
                }
            }
            match (anchor_index, current_index) {
                (Some(ai), Some(ci)) => {
                    let mut chosen: Vec<String> = if control {
                        clone_keys(&self.selected)
                    } else {
                        Vec::new()
                    };
                    let lo = if ai <= ci {
                        ai
                    } else {
                        ci
                    };
                    let hi = if ai <= ci {
                        ci
                    } else {
                        ai
                    };
                    let ghost base = key_views(chosen@).to_set();
                    assert(base == (if control { old_keys } else { Set::<Seq<char>>::empty() }))
                        by {
                        if !control {
                            assert(key_views(chosen@).to_set() =~= Set::<Seq<char>>::empty());
                        }
                    }
                    let mut j: usize = lo;
                    while j <= hi
                        invariant
                            lo <= j <= hi + 1,
                            hi < visible_keys@.len(),
                            vis == key_views(visible_keys@),
                            key_views(chosen@).no_duplicates(),
                            key_views(chosen@).to_set() == base.union(
                                span_keys(vis, lo as int, j - 1),
                            ),
                        decreases hi + 1 - j,
                    {
                        let k = visible_keys[j].clone();
                        insert_key(&mut chosen, k);
                        proof {
                            assert(span_keys(vis, lo as int, j as int) =~= span_keys(
                                vis,
                                lo as int,
                                j - 1,
                            ).insert(vis[j as int]));
                            assert(key_views(chosen@).to_set() =~= base.union(
                                span_keys(vis, lo as int, j as int),
                            ));
                        }
                        j = j + 1;
                    }
                    self.selected = chosen;
                },
                _ => {
                    let mut one: Vec<String> = Vec::new();
                    one.push(key_s.clone());
                    proof {
                        assert(key_views(one@) =~= seq![key@]);
                        lemma_singleton_set(key@);
                    }
                    self.selected = one;
                },
            }
        } else if control {
            let mut chosen = clone_keys(&self.selected);
            let present = find_key(&chosen, &key_s);
            proof {
                lemma_position_of(key_views(chosen@), key@);
            }
            match present {
                Some(_) => {
                    remove_key(&mut chosen, &key_s);
                },
                None => {
                    insert_key(&mut chosen, key_s.clone());
                },
            }
            self.selected = chosen;
        } else {
            let mut one: Vec<String> = Vec::new();
            one.push(key_s.clone());
            proof {
                assert(key_views(one@) =~= seq![key@]);
                lemma_singleton_set(key@);
            }
            self.selected = one;
        }
        self.anchor = Some(key_s);
    }

    /// Number of selected keys.
    pub fn count(&self) -> (r: usize)
        ensures
            r == self.keys().len(),
    {
        proof {
            use_type_invariant(self);
            key_views(self.selected@).unique_seq_to_set();
        }
        self.selected.len()
    }

    /// Whether `key` is selected.
    pub fn is_selected(&self, key: &str) -> (r: bool)
        ensures
            r == self.keys().contains(key@),
    {
        let key_s = String::from_str(key);
        let found = find_key(&self.selected, &key_s);
        proof {
            lemma_position_of(key_views(self.selected@), key@);
        }
        match found {
            Some(i) => {
                assert(key_views(self.selected@)[i as int] == key@);
                true
            },
            None => {
                assert(!key_views(self.selected@).contains(key@));
                false
            },
        }
    }

    /// The selected keys, in the order they were chosen.
    pub fn selected_keys(&self) -> (r: Vec<String>)
        ensures
            key_views(r@).to_set() == self.keys(),
            key_views(r@).no_duplicates(),
    {
        proof {
            use_type_invariant(self);
        }
        clone_keys(&self.selected)
    }
}

impl Default for SelectionState {
    fn default() -> (r: Self)
        ensures
            r.keys() == Set::<Seq<char>>::empty(),
            r.anchor_key().is_none(),
    {
        SelectionState::new()
    }
}

pub proof fn lemma_push_to_set(s: Seq<Seq<char>>, x: Seq<char>)
    ensures
        s.push(x).to_set() == s.to_set().insert(x),
{
    assert(s.push(x).to_set() =~= s.to_set().insert(x)) by {
        assert forall|y: Seq<char>| s.push(x).to_set().contains(y) implies s.to_set().insert(
            x,
        ).contains(y) by {
            let j = choose|j: int| 0 <= j < s.push(x).len() && s.push(x)[j] == y;
            if j < s.len() {
                assert(s[j] == y);
            }
        }
        assert forall|y: Seq<char>| s.to_set().insert(x).contains(y) implies s.push(x).to_set().contains(
            y,
        ) by {
            if y == x {
                assert(s.push(x)[s.len() as int] == x);
            } else {
                let j = choose|j: int| 0 <= j < s.len() && s[j] == y;
                assert(s.push(x)[j] == y);
            }
        }
    }
}

pub proof fn lemma_push_contains(s: Seq<Seq<char>>, x: Seq<char>, y: Seq<char>)
    ensures
        s.push(x).contains(y) <==> (s.contains(y) || y == x),
{
    if s.push(x).contains(y) {
        let j = choose|j: int| 0 <= j < s.push(x).len() && #[trigger] s.push(x)[j] == y;
        if j < s.len() {
            assert(s[j] == y);
        }
    }
    if s.contains(y) {
        let j = choose|j: int| 0 <= j < s.len() && #[trigger] s[j] == y;
        assert(s.push(x)[j] == y);
    }
    if y == x {
        assert(s.push(x)[s.len() as int] == y);
    }
}

/// First index of `k` in `keys`.
pub fn find_key(keys: &[String], k: &String) -> (r: Option<usize>)
    ensures
        match r {
            Some(i) => position_of(key_views(keys@), k@) == i as int,
            None => position_of(key_views(keys@), k@) < 0,
        },
{
    let mut i: usize = 0;
    while i < keys.len()
        invariant
            i <= keys@.len(),
            forall|j: int| 0 <= j < i ==> keys@[j]@ != k@,
        decreases keys@.len() - i,
    {
        if keys[i] == *k {
            proof {
                lemma_position_first(key_views(keys@), k@, i as int);
            }
            return Some(i);
        }
        i = i + 1;
    }
    proof {
        lemma_position_of(key_views(keys@), k@);
        if position_of(key_views(keys@), k@) >= 0 {
            let p = position_of(key_views(keys@), k@);
            assert(keys@[p]@ == k@);
        }
    }
    None
}

pub proof fn lemma_position_first(s: Seq<Seq<char>>, k: Seq<char>, i: int)
    requires
        0 <= i < s.len(),
        s[i] == k,
        forall|j: int| 0 <= j < i ==> s[j] != k,
    ensures
        position_of(s, k) == i,
    decreases s.len(),
{
    lemma_position_of(s, k);
    if i < s.len() - 1 {
        lemma_position_first(s.drop_last(), k, i);
    } else {
        lemma_position_of(s.drop_last(), k);
    }
}

/// A copy of the keys.
pub fn clone_keys(v: &Vec<String>) -> (r: Vec<String>)
    ensures
        r@ == v@,
{
    let mut out: Vec<String> = Vec::new();
    let mut i: usize = 0;
    while i < v.len()
        invariant
            i <= v@.len(),
            out@ == v@.subrange(0, i as int),
        decreases v@.len() - i,
    {
        out.push(v[i].clone());
        i = i + 1;
        assert(out@ =~= v@.subrange(0, i as int));
    }
    assert(v@.subrange(0, v@.len() as int) =~= v@);
    out
}

/// Adds `k` unless it is already there.
pub fn insert_key(v: &mut Vec<String>, k: String)
    requires
        key_views(old(v)@).no_duplicates(),
    ensures
        key_views(final(v)@).no_duplicates(),
        key_views(final(v)@).to_set() == key_views(old(v)@).to_set().insert(k@),
{
    let found = find_key(v, &k);
    proof {
        lemma_position_of(key_views(v@), k@);
    }
    match found {
        Some(i) => {
            assert(key_views(v@)[i as int] == k@);
            assert(key_views(v@).to_set().insert(k@) =~= key_views(v@).to_set());
        },
        None => {
            let ghost before = key_views(v@);
            v.push(k);
            proof {
                assert(key_views(v@) =~= before.push(k@));
                lemma_push_to_set(before, k@);
            }
        },
    }
}

/// Removes `k`.
pub fn remove_key(v: &mut Vec<String>, k: &String)
    requires
        key_views(old(v)@).no_duplicates(),
    ensures
        key_views(final(v)@).no_duplicates(),
        key_views(final(v)@).to_set() == key_views(old(v)@).to_set().remove(k@),
{
    let ghost before = key_views(v@);
    let mut out: Vec<String> = Vec::new();
    let mut i: usize = 0;
    while i < v.len()
        invariant
            i <= v@.len(),
            before == key_views(v@),
            before.no_duplicates(),
            key_views(out@).no_duplicates(),
            forall|y: Seq<char>|
                key_views(out@).contains(y) <==> (y != k@ && key_views(
                    v@.subrange(0, i as int),
                ).contains(y)),
        decreases v@.len() - i,
    {
        let ghost prefix = key_views(v@.subrange(0, i as int));
        let ghost old_out = out@;
        if !(v[i] == *k) {
            let ghost o = key_views(out@);
            proof {
                assert(!o.contains(v@[i as int]@)) by {
                    if o.contains(v@[i as int]@) {
                        let j = choose|j: int| 0 <= j < prefix.len() && prefix[j] == v@[i as int]@;
                        assert(before[j] == before[i as int]);
                    }
                }
            }
            out.push(v[i].clone());
            proof {
                assert(key_views(out@) =~= o.push(v@[i as int]@));
                assert forall|a: int, b: int|
                    0 <= a < key_views(out@).len() && 0 <= b < key_views(out@).len() && a != b
                        implies key_views(out@)[a] != key_views(out@)[b] by {
                    if a == o.len() as int {
                        assert(o.contains(key_views(out@)[b]));
                    } else if b == o.len() as int {
                        assert(o.contains(key_views(out@)[a]));
                    }
                }
            }
        }
        proof {
            let x = v@[i as int]@;
            assert(key_views(v@.subrange(0, i + 1)) =~= prefix.push(x));
            assert forall|y: Seq<char>|
                key_views(out@).contains(y) <==> (y != k@ && key_views(
                    v@.subrange(0, i + 1),
                ).contains(y)) by {
                lemma_push_contains(prefix, x, y);
                if x != k@ {
                    lemma_push_contains(key_views(old_out), x, y);
                }
            }
        }
        i = i + 1;
    }
    assert(v@.subrange(0, v@.len() as int) =~= v@);
    assert(key_views(out@).to_set() =~= before.to_set().remove(k@));
    *v = out;
}

} // verus!
