//! A model of Unix paths as character sequences, with the component rules
//! that `std::path` applies: `/` separates, empty and inner `.` pieces
//! vanish, a leading `.` of a relative path stays, `..` is kept.

use vstd::prelude::*;
use crate::text::{chars_eq, chars_of, eq_str, extend_chars};

verus! {

/// The kind of a path component after the root.
#[derive(Clone, Copy, PartialEq, Eq, Structural, Debug)]
pub enum Kind {
    Cur,
    Parent,
    Normal,
}

/// First `/` at or after `pos`, or the length when there is none.
pub open spec fn next_sep(s: Seq<char>, pos: int) -> int
    decreases s.len() - pos,
{
    if pos >= s.len() {
        s.len() as int
    } else if s[pos] == '/' {
        pos
    } else {
        next_sep(s, pos + 1)
    }
}

pub proof fn lemma_next_sep(s: Seq<char>, pos: int)
    requires
        0 <= pos <= s.len(),
    ensures
        pos <= next_sep(s, pos) <= s.len(),
        next_sep(s, pos) < s.len() ==> s[next_sep(s, pos)] == '/',
        forall|k: int| pos <= k < next_sep(s, pos) ==> s[k] != '/',
    decreases s.len() - pos,
{
    if pos < s.len() && s[pos] != '/' {
        lemma_next_sep(s, pos + 1);
    }
}

/// The pieces of `s` between separators, as `(start, end)` index pairs,
/// from `pos` on.
pub open spec fn spans_from(s: Seq<char>, pos: int) -> Seq<(int, int)>
    decreases s.len() - pos + 1,
{
    if pos < 0 || pos > s.len() {
        Seq::empty()
    } else {
        let e = next_sep(s, pos);
        proof {
            lemma_next_sep(s, pos);
        }
        if e < s.len() {
            seq![(pos, e)] + spans_from(s, e + 1)
        } else {
            seq![(pos, e)]
        }
    }
}

/// All pieces of `s` between separators.
pub open spec fn pieces(s: Seq<char>) -> Seq<(int, int)> {
    spans_from(s, 0)
}

/// What the piece at index `k` contributes to the components.
pub open spec fn piece_kind(t: Seq<char>, k: int) -> Option<Kind> {
    if t.len() == 0 {
        None
    } else if t == seq!['.'] {
        if k == 0 {
            Some(Kind::Cur)
        } else {
            None
        }
    } else if t == seq!['.', '.'] {
        Some(Kind::Parent)
    } else {
        Some(Kind::Normal)
    }
}

/// Components contributed by the first `n` pieces, with their spans.
pub open spec fn kept_upto(s: Seq<char>, n: int) -> Seq<(Kind, int, int)>
    decreases n,
{
    if n <= 0 {
        Seq::empty()
    } else {
        let p = pieces(s)[n - 1];
        let prev = kept_upto(s, n - 1);
        match piece_kind(s.subrange(p.0, p.1), n - 1) {
            Some(k) => prev.push((k, p.0, p.1)),
            None => prev,
        }
    }
}

/// The components of `s` after the root, with their spans.
pub open spec fn kept(s: Seq<char>) -> Seq<(Kind, int, int)> {
    kept_upto(s, pieces(s).len() as int)
}

/// `s` starts at the root.
pub open spec fn is_absolute(s: Seq<char>) -> bool {
    s.len() > 0 && s[0] == '/'
}

/// Components after the root, each with its text.
pub open spec fn comp_texts(s: Seq<char>) -> Seq<(Kind, Seq<char>)> {
    kept(s).map_values(|c: (Kind, int, int)| (c.0, s.subrange(c.1, c.2)))
}

/// `Path` equality: same root and same components.
pub open spec fn same_path(a: Seq<char>, b: Seq<char>) -> bool {
    is_absolute(a) == is_absolute(b) && comp_texts(a) == comp_texts(b)
}

/// `Path::file_name`.
pub open spec fn file_name(s: Seq<char>) -> Option<Seq<char>> {
    let k = kept(s);
    if k.len() > 0 && k.last().0 == Kind::Normal {
        Some(s.subrange(k.last().1, k.last().2))
    } else {
        None
    }
}

/// `Path::parent`.
pub open spec fn parent(s: Seq<char>) -> Option<Seq<char>> {
    let k = kept(s);
    if k.len() == 0 {
        None
    } else if k.len() >= 2 {
        Some(s.subrange(0, k[k.len() - 2].2))
    } else if is_absolute(s) {
        Some(seq!['/'])
    } else {
        Some(Seq::empty())
    }
}

/// Index of the last `.` in `t`, or `-1`.
pub open spec fn last_dot(t: Seq<char>) -> int
    decreases t.len(),
{
    if t.len() == 0 {
        -1
    } else if t.last() == '.' {
        t.len() - 1
    } else {
        last_dot(t.drop_last())
    }
}

/// Length of the stem of a file name: up to its last `.`, unless the name
/// has no `.` or only a leading one.
pub open spec fn stem_len(t: Seq<char>) -> int {
    if t == seq!['.', '.'] || last_dot(t) <= 0 {
        t.len() as int
    } else {
        last_dot(t)
    }
}

/// `Path::file_stem` applied to a file name.
pub open spec fn name_stem(t: Seq<char>) -> Seq<char> {
    t.subrange(0, stem_len(t))
}

/// `Path::extension` applied to a file name.
pub open spec fn name_extension(t: Seq<char>) -> Option<Seq<char>> {
    if stem_len(t) == t.len() {
        None
    } else {
        Some(t.subrange(stem_len(t) + 1, t.len() as int))
    }
}

/// `Path::extension`.
pub open spec fn extension(s: Seq<char>) -> Option<Seq<char>> {
    match file_name(s) {
        Some(t) => name_extension(t),
        None => None,
    }
}

/// `Path::file_stem`.
pub open spec fn file_stem(s: Seq<char>) -> Option<Seq<char>> {
    match file_name(s) {
        Some(t) => Some(name_stem(t)),
        None => None,
    }
}

/// `Path::join`: an absolute `b` replaces `a`; otherwise a separator is
/// put between them unless `a` is empty or already ends with one.
pub open spec fn join(a: Seq<char>, b: Seq<char>) -> Seq<char> {
    if is_absolute(b) {
        b
    } else if a.len() == 0 || a.last() == '/' {
        a + b
    } else {
        a.push('/') + b
    }
}

/// `Path::with_extension`.
pub open spec fn with_extension(s: Seq<char>, ext: Seq<char>) -> Seq<char> {
    match file_name(s) {
        None => s,
        Some(t) => {
            let end = kept(s).last().1 + stem_len(t);
            if ext.len() == 0 {
                s.subrange(0, end)
            } else {
                s.subrange(0, end).push('.') + ext
            }
        },
    }
}

/// `s` has a `..` component.
pub open spec fn has_parent_component(s: Seq<char>) -> bool {
    exists|i: int| 0 <= i < kept(s).len() && (#[trigger] kept(s)[i]).0 == Kind::Parent
}

pub proof fn lemma_spans_from_bounds(s: Seq<char>, pos: int)
    requires
        0 <= pos <= s.len(),
    ensures
        spans_from(s, pos).len() >= 1,
        forall|i: int|
            0 <= i < spans_from(s, pos).len() ==> pos <= (#[trigger] spans_from(s, pos)[i]).0 <= spans_from(
                s,
                pos,
            )[i].1 <= s.len(),
    decreases s.len() - pos + 1,
{
    lemma_next_sep(s, pos);
    let e = next_sep(s, pos);
    if e < s.len() {
        lemma_spans_from_bounds(s, e + 1);
    }
}

pub proof fn lemma_pieces_bounds(s: Seq<char>)
    ensures
        pieces(s).len() >= 1,
        forall|i: int|
            0 <= i < pieces(s).len() ==> 0 <= (#[trigger] pieces(s)[i]).0 <= pieces(s)[i].1 <= s.len(),
{
    lemma_spans_from_bounds(s, 0);
}

pub proof fn lemma_kept_upto_bounds(s: Seq<char>, n: int)
    requires
        0 <= n <= pieces(s).len(),
    ensures
        kept_upto(s, n).len() <= n,
        forall|i: int|
            0 <= i < kept_upto(s, n).len() ==> 0 <= (#[trigger] kept_upto(s, n)[i]).1 <= kept_upto(
                s,
                n,
            )[i].2 <= s.len(),
    decreases n,
{
    lemma_pieces_bounds(s);
    if n > 0 {
        lemma_kept_upto_bounds(s, n - 1);
    }
}

pub proof fn lemma_kept_bounds(s: Seq<char>)
    ensures
        forall|i: int|
            0 <= i < kept(s).len() ==> 0 <= (#[trigger] kept(s)[i]).1 <= kept(s)[i].2 <= s.len(),
{
    lemma_pieces_bounds(s);
    lemma_kept_upto_bounds(s, pieces(s).len() as int);
}

/// No piece holds a separator.
pub proof fn lemma_spans_no_sep(s: Seq<char>, pos: int)
    requires
        0 <= pos <= s.len(),
    ensures
        forall|i: int, k: int|
            #![trigger spans_from(s, pos)[i], s[k]]
            0 <= i < spans_from(s, pos).len() && spans_from(s, pos)[i].0 <= k
                < spans_from(s, pos)[i].1 ==> s[k] != '/',
    decreases s.len() - pos + 1,
{
    lemma_next_sep(s, pos);
    let e = next_sep(s, pos);
    if e < s.len() {
        lemma_spans_no_sep(s, e + 1);
        assert forall|i: int, k: int|
            #![trigger spans_from(s, pos)[i], s[k]]
            0 <= i < spans_from(s, pos).len() && spans_from(s, pos)[i].0 <= k
                < spans_from(s, pos)[i].1 implies s[k] != '/' by {
            if i > 0 {
                assert(spans_from(s, pos)[i] == spans_from(s, e + 1)[i - 1]);
            }
        }
    }
}

/// No component holds a separator.
pub proof fn lemma_kept_no_sep(s: Seq<char>, n: int)
    requires
        0 <= n <= pieces(s).len(),
    ensures
        forall|i: int, k: int|
            #![trigger kept_upto(s, n)[i], s[k]]
            0 <= i < kept_upto(s, n).len() && kept_upto(s, n)[i].1 <= k
                < kept_upto(s, n)[i].2 ==> s[k] != '/',
    decreases n,
{
    lemma_spans_no_sep(s, 0);
    if n > 0 {
        lemma_kept_no_sep(s, n - 1);
        let p = pieces(s)[n - 1];
        let prev = kept_upto(s, n - 1);
        assert forall|i: int, k: int|
            #![trigger kept_upto(s, n)[i], s[k]]
            0 <= i < kept_upto(s, n).len() && kept_upto(s, n)[i].1 <= k < kept_upto(s, n)[i].2
                implies s[k] != '/' by {
            if i < prev.len() {
                assert(kept_upto(s, n)[i] == prev[i]);
            } else {
                assert(kept_upto(s, n)[i].1 == p.0 && kept_upto(s, n)[i].2 == p.1);
                assert(spans_from(s, 0)[n - 1] == p);
            }
        }
    }
}

/// The last piece starts after the last separator.
pub proof fn lemma_spans_last(s: Seq<char>, pos: int, j: int)
    requires
        0 <= pos <= j <= s.len(),
        j == pos || s[j - 1] == '/',
        forall|k: int| j <= k < s.len() ==> s[k] != '/',
    ensures
        spans_from(s, pos).len() >= 1,
        spans_from(s, pos).last() == (j, s.len() as int),
    decreases s.len() - pos + 1,
{
    lemma_next_sep(s, pos);
    let e = next_sep(s, pos);
    if e < s.len() {
        if j <= e {
            assert(s[e] != '/');
        }
        if j > e + 1 {
            lemma_spans_last(s, e + 1, j);
        } else {
            lemma_spans_last(s, e + 1, j);
        }
    } else {
        if j > pos {
            assert(s[j - 1] != '/');
        }
    }
}

/// A name without separators joined to a folder is the last component,
/// unless it is `.` or `..`.
pub proof fn lemma_file_name_of_join(d: Seq<char>, t: Seq<char>)
    requires
        t.len() > 0,
        forall|k: int| 0 <= k < t.len() ==> t[k] != '/',
        t != seq!['.'],
        t != seq!['.', '.'],
    ensures
        file_name(join(d, t)) == Some(t),
        kept(join(d, t)).len() >= 1,
        kept(join(d, t)).last().0 == Kind::Normal,
{
    let s = join(d, t);
    assert(!is_absolute(t));
    let j: int = if d.len() == 0 || d.last() == '/' {
        d.len() as int
    } else {
        (d.len() + 1) as int
    };
    if d.len() == 0 || d.last() == '/' {
        assert(s =~= d + t);
    } else {
        assert(s =~= d.push('/') + t);
    }
    assert(s.subrange(j, s.len() as int) =~= t);
    assert forall|k: int| j <= k < s.len() implies s[k] != '/' by {
        assert(s[k] == t[k - j]);
    }
    lemma_spans_last(s, 0, j);
    let n = pieces(s).len() as int;
    assert(pieces(s)[n - 1] == (j, s.len() as int));
    assert(piece_kind(s.subrange(j, s.len() as int), n - 1) == Some(Kind::Normal));
}

/// Paths that compare equal end in the same name.
pub proof fn lemma_same_path_same_name(a: Seq<char>, b: Seq<char>)
    requires
        same_path(a, b),
        file_name(a) is Some,
        file_name(b) is Some,
    ensures
        file_name(a) == file_name(b),
{
    let ka = kept(a);
    let kb = kept(b);
    assert(comp_texts(a).len() == ka.len());
    assert(comp_texts(b).len() == kb.len());
    assert(comp_texts(a)[ka.len() - 1] == comp_texts(b)[kb.len() - 1]);
}

/// The pieces of `s`, in order.
pub fn piece_spans(s: &[char]) -> (r: Vec<(usize, usize)>)
    ensures
        r@.len() == pieces(s@).len(),
        forall|i: int|
            0 <= i < r@.len() ==> (#[trigger] r@[i]).0 == pieces(s@)[i].0 && r@[i].1 == pieces(
                s@,
            )[i].1,
{
    let n = s.len();
    let mut out: Vec<(usize, usize)> = Vec::new();
    let mut pos: usize = 0;
    loop
        invariant_except_break
            out@.len() + spans_from(s@, pos as int).len() == pieces(s@).len(),
            forall|i: int|
                0 <= i < spans_from(s@, pos as int).len() ==> pieces(s@)[out@.len() + i]
                    == #[trigger] spans_from(s@, pos as int)[i],
        invariant
            n == s.len(),
            pos <= n,
            forall|i: int|
                0 <= i < out@.len() ==> (#[trigger] out@[i]).0 == pieces(s@)[i].0 && out@[i].1
                    == pieces(s@)[i].1,
        ensures
            out@.len() == pieces(s@).len(),
            forall|i: int|
                0 <= i < out@.len() ==> (#[trigger] out@[i]).0 == pieces(s@)[i].0 && out@[i].1
                    == pieces(s@)[i].1,
        decreases n - pos,
    {
        let mut e: usize = pos;
        while e < n && s[e] != '/'
            invariant
                pos <= e <= n,
                n == s.len(),
                next_sep(s@, pos as int) == next_sep(s@, e as int),
            decreases n - e,
        {
            e = e + 1;
        }
        proof {
            lemma_next_sep(s@, pos as int);
        }
        let ghost old_len = out@.len();
        let ghost rest = spans_from(s@, pos as int);
        out.push((pos, e));
        proof {
            assert(rest[0] == (pos as int, e as int));
            assert(pieces(s@)[old_len as int + 0] == rest[0]);
        }
        if e == n {
            proof {
                assert(rest.len() == 1);
            }
            break;
        }
        proof {
            let tail = spans_from(s@, e + 1);
            assert(rest == seq![(pos as int, e as int)] + tail);
            assert forall|i: int| 0 <= i < tail.len() implies pieces(s@)[out@.len() + i]
                == #[trigger] tail[i] by {
                assert(rest[i + 1] == tail[i]);
            }
        }
        pos = e + 1;
    }
    out
}

/// Whether the run `s[a..b]` spells `t`.
pub fn span_is(s: &[char], a: usize, b: usize, t: &str) -> (r: bool)
    requires
        a <= b <= s@.len(),
    ensures
        r == (s@.subrange(a as int, b as int) == t@),
{
    let tc = chars_of(t);
    if b - a != tc.len() {
        return false;
    }
    let mut i: usize = 0;
    while i < tc.len()
        invariant
            a <= b <= s@.len(),
            b - a == tc@.len(),
            tc@ == t@,
            i <= tc@.len(),
            s@.subrange(a as int, a + i) == tc@.subrange(0, i as int),
        decreases tc.len() - i,
    {
        if s[a + i] != tc[i] {
            assert(s@.subrange(a as int, b as int)[i as int] != tc@[i as int]);
            return false;
        }
        assert(s@.subrange(a as int, a + i + 1) =~= s@.subrange(a as int, a + i).push(s@[a + i]));
        assert(tc@.subrange(0, i + 1) =~= tc@.subrange(0, i as int).push(tc@[i as int]));
        i = i + 1;
    }
    assert(tc@.subrange(0, tc@.len() as int) =~= tc@);
    assert(s@.subrange(a as int, b as int) =~= tc@);
    true
}

/// What piece number `k`, spanning `s[a..b]`, contributes.
pub fn kind_of_piece(s: &[char], a: usize, b: usize, k: usize) -> (r: Option<Kind>)
    requires
        a <= b <= s@.len(),
    ensures
        r == piece_kind(s@.subrange(a as int, b as int), k as int),
{
    proof {
        reveal_strlit(".");
        reveal_strlit("..");
    }
    if a == b {
        None
    } else if span_is(s, a, b, ".") {
        assert(s@.subrange(a as int, b as int) == seq!['.']);
        if k == 0 {
            Some(Kind::Cur)
        } else {
            None
        }
    } else if span_is(s, a, b, "..") {
        assert(s@.subrange(a as int, b as int) == seq!['.', '.']);
        Some(Kind::Parent)
    } else {
        assert(".."@ =~= seq!['.', '.']);
        assert("."@ =~= seq!['.']);
        Some(Kind::Normal)
    }
}

/// The components of `s` after the root, with their spans.
pub fn kept_spans(s: &[char]) -> (r: Vec<(Kind, usize, usize)>)
    ensures
        r@.len() == kept(s@).len(),
        forall|i: int|
            0 <= i < r@.len() ==> (#[trigger] r@[i]).0 == kept(s@)[i].0 && r@[i].1 == kept(s@)[i].1
                && r@[i].2 == kept(s@)[i].2,
{
    let spans = piece_spans(s);
    proof {
        lemma_pieces_bounds(s@);
    }
    let mut out: Vec<(Kind, usize, usize)> = Vec::new();
    let mut k: usize = 0;
    while k < spans.len()
        invariant
            k <= spans@.len(),
            spans@.len() == pieces(s@).len(),
            forall|i: int|
                0 <= i < spans@.len() ==> (#[trigger] spans@[i]).0 == pieces(s@)[i].0 && spans@[i].1
                    == pieces(s@)[i].1,
            forall|i: int|
                0 <= i < pieces(s@).len() ==> 0 <= (#[trigger] pieces(s@)[i]).0 <= pieces(s@)[i].1
                    <= s@.len(),
            out@.len() == kept_upto(s@, k as int).len(),
            forall|i: int|
                0 <= i < out@.len() ==> (#[trigger] out@[i]).0 == kept_upto(s@, k as int)[i].0
                    && out@[i].1 == kept_upto(s@, k as int)[i].1 && out@[i].2 == kept_upto(
                    s@,
                    k as int,
                )[i].2,
        decreases spans@.len() - k,
    {
        let (a, b) = spans[k];
        assert(spans@[k as int].0 == pieces(s@)[k as int].0);
        let kind = kind_of_piece(s, a, b, k);
        match kind {
            Some(kd) => {
                out.push((kd, a, b));
            },
            None => {},
        }
        k = k + 1;
        assert(kept_upto(s@, k as int) == match piece_kind(
            s@.subrange(a as int, b as int),
            k - 1,
        ) {
            Some(kk) => kept_upto(s@, k - 1).push((kk, a as int, b as int)),
            None => kept_upto(s@, k - 1),
        });
    }
    out
}

/// `s` starts at the root.
pub fn path_is_absolute(s: &[char]) -> (r: bool)
    ensures
        r == is_absolute(s@),
{
    s.len() > 0 && s[0] == '/'
}

/// `Path::file_name`, as a character run.
pub fn path_file_name(s: &[char]) -> (r: Option<Vec<char>>)
    ensures
        match r {
            Some(v) => file_name(s@) == Some(v@),
            None => file_name(s@).is_none(),
        },
{
    let k = kept_spans(s);
    proof {
        lemma_kept_bounds(s@);
    }
    if k.len() == 0 {
        return None;
    }
    let (kind, a, b) = k[k.len() - 1];
    assert(k@[k@.len() - 1] == k@.last());
    if kind != Kind::Normal {
        return None;
    }
    let mut out: Vec<char> = Vec::new();
    let mut i: usize = a;
    while i < b
        invariant
            a <= i <= b <= s@.len(),
            out@ == s@.subrange(a as int, i as int),
        decreases b - i,
    {
        out.push(s[i]);
        i = i + 1;
        assert(out@ =~= s@.subrange(a as int, i as int));
    }
    Some(out)
}

/// The run `s[a..b]`.
pub fn slice_chars(s: &[char], a: usize, b: usize) -> (r: Vec<char>)
    requires
        a <= b <= s@.len(),
    ensures
        r@ == s@.subrange(a as int, b as int),
{
    let mut out: Vec<char> = Vec::new();
    let mut i: usize = a;
    while i < b
        invariant
            a <= i <= b <= s@.len(),
            out@ == s@.subrange(a as int, i as int),
        decreases b - i,
    {
        out.push(s[i]);
        i = i + 1;
        assert(out@ =~= s@.subrange(a as int, i as int));
    }
    out
}

/// `Path::parent`, as a character run.
pub fn path_parent(s: &[char]) -> (r: Option<Vec<char>>)
    ensures
        match r {
            Some(v) => parent(s@) == Some(v@),
            None => parent(s@).is_none(),
        },
{
    let k = kept_spans(s);
    proof {
        lemma_kept_bounds(s@);
    }
    if k.len() == 0 {
        None
    } else if k.len() >= 2 {
        let (_, _, end) = k[k.len() - 2];
        Some(slice_chars(s, 0, end))
    } else if path_is_absolute(s) {
        let mut v: Vec<char> = Vec::new();
        v.push('/');
        assert(v@ =~= seq!['/']);
        Some(v)
    } else {
        let v: Vec<char> = Vec::new();
        assert(v@ =~= Seq::<char>::empty());
        Some(v)
    }
}

/// Index of the last `.` in `t`, or `t.len()` when there is none.
fn last_dot_index(t: &[char]) -> (r: Option<usize>)
    ensures
        match r {
            Some(i) => last_dot(t@) == i as int,
            None => last_dot(t@) == -1,
        },
{
    let mut j: usize = t.len();
    assert(t@.subrange(0, t@.len() as int) =~= t@);
    while j > 0 && t[j - 1] != '.'
        invariant
            j <= t@.len(),
            last_dot(t@) == last_dot(t@.subrange(0, j as int)),
        decreases j,
    {
        proof {
            let u = t@.subrange(0, j as int);
            assert(u.drop_last() =~= t@.subrange(0, j - 1));
        }
        j = j - 1;
    }
    proof {
        assert(t@.subrange(0, t@.len() as int) =~= t@);
    }
    if j == 0 {
        assert(t@.subrange(0, 0).len() == 0);
        None
    } else {
        assert(t@.subrange(0, j as int).last() == t@[j - 1]);
        Some(j - 1)
    }
}

/// Stem length of a file name, as `stem_len` states.
pub fn name_stem_len(t: &[char]) -> (r: usize)
    ensures
        r as int == stem_len(t@),
{
    proof {
        reveal_strlit("..");
    }
    let dd = eq_str(t, "..");
    if dd {
        assert(t@ == seq!['.', '.']) by {
            assert(".."@ =~= seq!['.', '.']);
        }
        return t.len();
    }
    assert(t@ != seq!['.', '.']) by {
        assert(".."@ =~= seq!['.', '.']);
    }
    match last_dot_index(t) {
        None => t.len(),
        Some(i) => {
            if i == 0 {
                t.len()
            } else {
                proof {
                    lemma_last_dot_bound(t@);
                }
                i
            }
        },
    }
}

pub proof fn lemma_last_dot_bound(t: Seq<char>)
    ensures
        -1 <= last_dot(t) < t.len(),
        last_dot(t) >= 0 ==> t[last_dot(t)] == '.',
    decreases t.len(),
{
    if t.len() > 0 && t.last() != '.' {
        lemma_last_dot_bound(t.drop_last());
    }
}

/// `Path::extension`, as a character run.
pub fn path_extension(s: &[char]) -> (r: Option<Vec<char>>)
    ensures
        match r {
            Some(v) => extension(s@) == Some(v@),
            None => extension(s@).is_none(),
        },
{
    match path_file_name(s) {
        None => None,
        Some(name) => {
            let n = name_stem_len(&name);
            proof {
                lemma_last_dot_bound(name@);
            }
            if n == name.len() {
                None
            } else {
                Some(slice_chars(&name, n + 1, name.len()))
            }
        },
    }
}

/// `Path::file_stem`, as a character run.
pub fn path_file_stem(s: &[char]) -> (r: Option<Vec<char>>)
    ensures
        match r {
            Some(v) => file_stem(s@) == Some(v@),
            None => file_stem(s@).is_none(),
        },
{
    match path_file_name(s) {
        None => None,
        Some(name) => {
            let n = name_stem_len(&name);
            proof {
                lemma_last_dot_bound(name@);
            }
            Some(slice_chars(&name, 0, n))
        },
    }
}

/// `Path::join`.
pub fn path_join(a: &[char], b: &[char]) -> (r: Vec<char>)
    ensures
        r@ == join(a@, b@),
{
    let mut out: Vec<char> = Vec::new();
    if path_is_absolute(b) {
        extend_chars(&mut out, b);
        assert(out@ =~= b@);
        return out;
    }
    extend_chars(&mut out, a);
    if a.len() > 0 && a[a.len() - 1] != '/' {
        out.push('/');
    }
    extend_chars(&mut out, b);
    proof {
        if a@.len() > 0 {
            assert(a@.last() == a@[a@.len() - 1]);
        }
    }
    out
}

/// `Path::join` with a literal second part.
pub fn path_join_str(a: &[char], b: &str) -> (r: Vec<char>)
    ensures
        r@ == join(a@, b@),
{
    let bc = chars_of(b);
    path_join(a, &bc)
}

/// `Path::with_extension`.
pub fn path_with_extension(s: &[char], ext: &[char]) -> (r: Vec<char>)
    ensures
        r@ == with_extension(s@, ext@),
{
    let k = kept_spans(s);
    proof {
        lemma_kept_bounds(s@);
    }
    match path_file_name(s) {
        None => {
            let mut out: Vec<char> = Vec::new();
            extend_chars(&mut out, s);
            assert(out@ =~= s@);
            out
        },
        Some(name) => {
            let (_, a, b) = k[k.len() - 1];
            assert(k@[k@.len() - 1] == k@.last());
            let n = name_stem_len(&name);
            proof {
                lemma_last_dot_bound(name@);
                assert(name@ == s@.subrange(a as int, b as int));
            }
            let end = a + n;
            let mut out = slice_chars(s, 0, end);
            if ext.len() > 0 {
                out.push('.');
                extend_chars(&mut out, ext);
            }
            out
        },
    }
}

/// Whether `s` has a `..` component.
pub fn path_has_parent_component(s: &[char]) -> (r: bool)
    ensures
        r == has_parent_component(s@),
{
    let k = kept_spans(s);
    let mut i: usize = 0;
    while i < k.len()
        invariant
            i <= k@.len(),
            k@.len() == kept(s@).len(),
            forall|j: int|
                0 <= j < k@.len() ==> (#[trigger] k@[j]).0 == kept(s@)[j].0 && k@[j].1 == kept(
                    s@,
                )[j].1 && k@[j].2 == kept(s@)[j].2,
            forall|j: int| 0 <= j < i ==> kept(s@)[j].0 != Kind::Parent,
        decreases k@.len() - i,
    {
        let (kind, _, _) = k[i];
        if kind == Kind::Parent {
            assert(kept(s@)[i as int].0 == Kind::Parent);
            return true;
        }
        i = i + 1;
    }
    false
}

/// Whether `a` and `b` name the same path (`Path` equality).
pub fn path_eq(a: &[char], b: &[char]) -> (r: bool)
    ensures
        r == same_path(a@, b@),
{
    if path_is_absolute(a) != path_is_absolute(b) {
        return false;
    }
    let ka = kept_spans(a);
    let kb = kept_spans(b);
    proof {
        lemma_kept_bounds(a@);
        lemma_kept_bounds(b@);
    }
    if ka.len() != kb.len() {
        assert(comp_texts(a@).len() != comp_texts(b@).len());
        return false;
    }
    let mut i: usize = 0;
    while i < ka.len()
        invariant
            i <= ka@.len(),
            ka@.len() == kb@.len(),
            ka@.len() == kept(a@).len(),
            kb@.len() == kept(b@).len(),
            forall|j: int|
                0 <= j < ka@.len() ==> (#[trigger] ka@[j]).0 == kept(a@)[j].0 && ka@[j].1 == kept(
                    a@,
                )[j].1 && ka@[j].2 == kept(a@)[j].2,
            forall|j: int|
                0 <= j < kb@.len() ==> (#[trigger] kb@[j]).0 == kept(b@)[j].0 && kb@[j].1 == kept(
                    b@,
                )[j].1 && kb@[j].2 == kept(b@)[j].2,
            forall|j: int|
                0 <= j < kept(a@).len() ==> 0 <= (#[trigger] kept(a@)[j]).1 <= kept(a@)[j].2
                    <= a@.len(),
            forall|j: int|
                0 <= j < kept(b@).len() ==> 0 <= (#[trigger] kept(b@)[j]).1 <= kept(b@)[j].2
                    <= b@.len(),
            forall|j: int| 0 <= j < i ==> #[trigger] comp_texts(a@)[j] == comp_texts(b@)[j],
        decreases ka@.len() - i,
    {
        let (k1, s1, e1) = ka[i];
        let (k2, s2, e2) = kb[i];
        if k1 != k2 {
            assert(comp_texts(a@)[i as int] != comp_texts(b@)[i as int]);
            return false;
        }
        let t1 = slice_chars(a, s1, e1);
        let t2 = slice_chars(b, s2, e2);
        if !chars_eq(&t1, &t2) {
            assert(comp_texts(a@)[i as int] != comp_texts(b@)[i as int]);
            return false;
        }
        assert(comp_texts(a@)[i as int] == comp_texts(b@)[i as int]);
        i = i + 1;
    }
    assert(comp_texts(a@) =~= comp_texts(b@));
    true
}

} // verus!
