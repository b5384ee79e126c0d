//! The rules `std::path` applies to Windows paths, as far as opening a
//! file needs them: a drive prefix (`C:`) or a UNC prefix
//! (`\\server\share`), then components separated by `\` or `/`, which
//! follow the same rules as on Unix once the prefix is set aside.
//! Verbatim (`\\?\`) and device (`\\.\`) paths are not modelled: they
//! count as relative, so a file named that way is never accepted.

use vstd::prelude::*;
use crate::path::{has_parent_component, is_absolute, path_has_parent_component, path_is_absolute, slice_chars};
use crate::text::extend_chars;

verus! {

/// A Windows separator.
pub open spec fn win_sep(c: char) -> bool {
    c == '\\' || c == '/'
}

/// An ASCII letter, as a drive letter must be.
pub open spec fn is_letter(c: char) -> bool {
    ('a' <= c && c <= 'z') || ('A' <= c && c <= 'Z')
}

/// First Windows separator at or after `pos`, or the length.
pub open spec fn next_win_sep(s: Seq<char>, pos: int) -> int
    decreases s.len() - pos,
{
    if pos >= s.len() {
        s.len() as int
    } else if win_sep(s[pos]) {
        pos
    } else {
        next_win_sep(s, pos + 1)
    }
}

/// `s` starts with a UNC prefix: two backslashes and a server name, and
/// is neither a verbatim (`\\?\`) nor a device (`\\.\`) path.
pub open spec fn is_unc(s: Seq<char>) -> bool {
    &&& s.len() >= 3
    &&& s[0] == '\\'
    &&& s[1] == '\\'
    &&& !win_sep(s[2])
    &&& !((s[2] == '?' || s[2] == '.') && s.len() >= 4 && win_sep(s[3]))
}

/// Length of the prefix: `\\server\share` for a UNC path, `C:` for a
/// drive, nothing otherwise.
pub open spec fn win_prefix_len(s: Seq<char>) -> int {
    if is_unc(s) {
        let a = next_win_sep(s, 2);
        if a >= s.len() {
            s.len() as int
        } else {
            next_win_sep(s, a + 1)
        }
    } else if s.len() >= 2 && is_letter(s[0]) && s[1] == ':' {
        2
    } else {
        0
    }
}

/// `t` with each `\` turned into `/`.
pub open spec fn slashed(t: Seq<char>) -> Seq<char> {
    t.map_values(|c: char| if c == '\\' { '/' } else { c })
}

/// `t` with each `/` turned into `\`.
pub open spec fn backslashed(t: Seq<char>) -> Seq<char> {
    t.map_values(|c: char| if c == '/' { '\\' } else { c })
}

/// What follows the prefix, with `/` as its only separator.
pub open spec fn win_rest(s: Seq<char>) -> Seq<char> {
    slashed(s.skip(win_prefix_len(s)))
}

/// `Path::is_absolute` on Windows: a UNC prefix, or a drive followed by
/// a separator (`C:\x`; not `C:x`, not `\x`).
pub open spec fn win_absolute(s: Seq<char>) -> bool {
    is_unc(s) || (win_prefix_len(s) == 2 && is_absolute(win_rest(s)))
}

/// A Windows path has a `..` component.
pub open spec fn win_has_parent(s: Seq<char>) -> bool {
    has_parent_component(win_rest(s))
}

/// Absolute on the given platform.
pub open spec fn absolute_on(s: Seq<char>, windows: bool) -> bool {
    if windows {
        win_absolute(s)
    } else {
        is_absolute(s)
    }
}

/// Has a `..` component on the given platform.
pub open spec fn parent_on(s: Seq<char>, windows: bool) -> bool {
    if windows {
        win_has_parent(s)
    } else {
        has_parent_component(s)
    }
}

/// The first Windows separator at or after `pos`.
fn next_separator(s: &[char], pos: usize) -> (r: usize)
    requires
        pos <= s@.len(),
    ensures
        r == next_win_sep(s@, pos as int),
        pos <= r <= s@.len(),
{
    let mut i = pos;
    while i < s.len()
        invariant
            pos <= i <= s@.len(),
            next_win_sep(s@, pos as int) == next_win_sep(s@, i as int),
        decreases s@.len() - i,
    {
        if s[i] == '\\' || s[i] == '/' {
            return i;
        }
        i = i + 1;
    }
    i
}

/// Whether `s` starts with a UNC prefix.
pub fn unc(s: &[char]) -> (r: bool)
    ensures
        r == is_unc(s@),
{
    if s.len() < 3 || s[0] != '\\' || s[1] != '\\' || s[2] == '\\' || s[2] == '/' {
        return false;
    }
    !((s[2] == '?' || s[2] == '.') && s.len() >= 4 && (s[3] == '\\' || s[3] == '/'))
}

/// The length of the prefix of `s`.
pub fn prefix_len(s: &[char]) -> (r: usize)
    ensures
        r == win_prefix_len(s@),
        r <= s@.len(),
{
    if unc(s) {
        let a = next_separator(s, 2);
        if a >= s.len() {
            s.len()
        } else {
            next_separator(s, a + 1)
        }
    } else if s.len() >= 2 && (('a' <= s[0] && s[0] <= 'z') || ('A' <= s[0] && s[0] <= 'Z')) && s[1] == ':' {
        2
    } else {
        0
    }
}

/// What follows the prefix of `s`, with `/` as its only separator.
pub fn rest_of(s: &[char]) -> (r: Vec<char>)
    ensures
        r@ == win_rest(s@),
{
    let p = prefix_len(s);
    let mut out: Vec<char> = Vec::new();
    let mut i = p;
    while i < s.len()
        invariant
            p <= i <= s@.len(),
            p == win_prefix_len(s@),
            out@ == slashed(s@.subrange(p as int, i as int)),
        decreases s@.len() - i,
    {
        let c = s[i];
        out.push(if c == '\\' { '/' } else { c });
        i = i + 1;
        assert(out@ =~= slashed(s@.subrange(p as int, i as int)));
    }
    assert(s@.subrange(p as int, s@.len() as int) =~= s@.skip(p as int));
    out
}

/// `t` with each `/` turned into `\`.
pub fn to_backslashes(t: &[char]) -> (r: Vec<char>)
    ensures
        r@ == backslashed(t@),
{
    let mut out: Vec<char> = Vec::new();
    let mut i: usize = 0;
    while i < t.len()
        invariant
            i <= t@.len(),
            out@ == backslashed(t@.subrange(0, i as int)),
        decreases t@.len() - i,
    {
        let c = t[i];
        out.push(if c == '/' { '\\' } else { c });
        i = i + 1;
        assert(out@ =~= backslashed(t@.subrange(0, i as int)));
    }
    assert(t@.subrange(0, t@.len() as int) =~= t@);
    out
}

/// The prefix of `s` followed by `tail` written with backslashes.
pub fn with_prefix(s: &[char], tail: &[char]) -> (r: Vec<char>)
    ensures
        r@ == s@.take(win_prefix_len(s@)) + backslashed(tail@),
{
    let p = prefix_len(s);
    let mut out = slice_chars(s, 0, p);
    let b = to_backslashes(tail);
    extend_chars(&mut out, &b);
    assert(s@.subrange(0, p as int) =~= s@.take(p as int));
    out
}

/// Whether `s` is absolute on the given platform.
pub fn is_absolute_on(s: &[char], windows: bool) -> (r: bool)
    ensures
        r == absolute_on(s@, windows),
{
    if windows {
        if unc(s) {
            return true;
        }
        let p = prefix_len(s);
        let rest = rest_of(s);
        p == 2 && path_is_absolute(&rest)
    } else {
        path_is_absolute(s)
    }
}

/// Whether `s` has a `..` component on the given platform.
pub fn has_parent_on(s: &[char], windows: bool) -> (r: bool)
    ensures
        r == parent_on(s@, windows),
{
    if windows {
        let rest = rest_of(s);
        path_has_parent_component(&rest)
    } else {
        path_has_parent_component(s)
    }
}

} // verus!
