//! Opening a file with its default application: which targets are
//! accepted, and what the shell's answers mean.

use vstd::prelude::*;
use vstd::string::StringExecFns;
use crate::converters::backend::views;
use crate::path::{is_absolute, join, kept, kept_spans, path_is_absolute, path_join, slice_chars, Kind};
use crate::winpath::{
    absolute_on, backslashed, has_parent_on, is_absolute_on, parent_on, rest_of, win_prefix_len,
    win_rest, with_prefix,
};
use crate::text::{chars_of, decimal, extend_str, push_decimal, string_of};

verus! {

/// How the shell is asked to show the opened window.
pub const SW_SHOWNORMAL: i32 = 1;

/// `S_OK`: the shell library was initialised by this call.
pub const S_OK: i32 = 0;

/// `S_FALSE`: the shell library was already initialised on this thread.
pub const S_FALSE: i32 = 1;

/// `RPC_E_CHANGED_MODE` (`0x80010106` read as `i32`): the thread runs
/// another concurrency model.
pub const RPC_E_CHANGED_MODE: i32 = -2147417850;

/// Why a file could not be opened.
#[derive(Debug)]
pub enum ActivationError {
    InvalidTarget(String),
    Unsupported,
    ComInitialization(i32),
    ShellExecuteFailed(u32),
}

/// Upper-case hexadecimal digit of `d < 16`.
pub open spec fn hex_digit(d: nat) -> char {
    if d < 10 {
        crate::text::digit_char(d)
    } else if d == 10 {
        'A'
    } else if d == 11 {
        'B'
    } else if d == 12 {
        'C'
    } else if d == 13 {
        'D'
    } else if d == 14 {
        'E'
    } else {
        'F'
    }
}

/// `v` in eight upper-case hexadecimal digits, as `{:08X}` prints a `u32`.
pub open spec fn hex8(v: nat) -> Seq<char> {
    Seq::new(8, |i: int| hex_digit(((v / pow16((7 - i) as nat)) % 16) as nat))
}

pub open spec fn pow16(k: nat) -> nat
    decreases k,
{
    if k == 0 {
        1
    } else {
        16 * pow16((k - 1) as nat)
    }
}

proof fn lemma_pow16_pos(k: nat)
    ensures
        pow16(k) >= 1,
    decreases k,
{
    if k > 0 {
        lemma_pow16_pos((k - 1) as nat);
    }
}

/// Appends `v` in eight upper-case hexadecimal digits.
pub fn push_hex8(out: &mut Vec<char>, v: u32)
    ensures
        final(out)@ == old(out)@ + hex8(v as nat),
{
    let ghost start = out@;
    let mut i: usize = 0;
    let mut div: u32 = 0x1000_0000;
    assert(pow16(7) == 0x1000_0000) by {
        reveal_with_fuel(pow16, 8);
    }
    while i < 8
        invariant
            i <= 8,
            i < 8 ==> div as nat == pow16((7 - i) as nat),
            out@.len() == start.len() + i,
            forall|k: int| 0 <= k < i ==> out@[start.len() + k] == hex8(v as nat)[k],
            forall|k: int| 0 <= k < start.len() ==> out@[k] == start[k],
        decreases 8 - i,
    {
        proof {
            lemma_pow16_pos((7 - i) as nat);
        }
        let d = (v / div) % 16;
        let c = if d < 10 {
            let mut one: Vec<char> = Vec::new();
            push_decimal(&mut one, d as u64);
            assert(one@ =~= seq![crate::text::digit_char(d as nat)]);
            one[0]
        } else if d == 10 {
            'A'
        } else if d == 11 {
            'B'
        } else if d == 12 {
            'C'
        } else if d == 13 {
            'D'
        } else if d == 14 {
            'E'
        } else {
            'F'
        };
        out.push(c);
        if i < 7 {
            assert(pow16((7 - i) as nat) == 16 * pow16((6 - i) as nat));
            proof {
                lemma_pow16_pos((6 - i) as nat);
            }
            div = div / 16;
        }
        i = i + 1;
    }
    assert(out@ =~= start + hex8(v as nat));
}

/// `hr` as `{:08X}` prints it: its bits read as unsigned.
pub open spec fn hresult_hex(hr: i32) -> Seq<char> {
    hex8((if hr < 0 {
        hr + 0x1_0000_0000
    } else {
        hr as int
    }) as nat)
}

pub(crate) fn push_hresult(out: &mut Vec<char>, hr: i32)
    ensures
        final(out)@ == old(out)@ + hresult_hex(hr),
{
    let v: u32 = if hr < 0 {
        (hr as i64 + 0x1_0000_0000i64) as u32
    } else {
        hr as u32
    };
    push_hex8(out, v);
}

impl ActivationError {
    pub open spec fn text_of(&self) -> Seq<char> {
        match self {
            ActivationError::InvalidTarget(p) =>
                "Abrir exige um arquivo regular sem redirecionamento especial: "@ + p@,
            ActivationError::Unsupported => "abrir arquivo não está disponível nesta plataforma"@,
            ActivationError::ComInitialization(hr) =>
                "não foi possível inicializar o Shell do Windows (HRESULT 0x"@ + hresult_hex(*hr)
                + ")"@,
            ActivationError::ShellExecuteFailed(e) =>
                "o aplicativo padrão não pôde abrir o arquivo (erro Win32 "@ + decimal(*e as nat)
                + ")"@,
        }
    }

    /// The message shown for this error.
    pub fn message(&self) -> (r: String)
        ensures
            r@ == self.text_of(),
    {
        let mut out: Vec<char> = Vec::new();
        match self {
            ActivationError::InvalidTarget(p) => {
                extend_str(&mut out, "Abrir exige um arquivo regular sem redirecionamento especial: ");
                extend_str(&mut out, p.as_str());
            },
            ActivationError::Unsupported => {
                extend_str(&mut out, "abrir arquivo não está disponível nesta plataforma");
            },
            ActivationError::ComInitialization(hr) => {
                extend_str(&mut out, "não foi possível inicializar o Shell do Windows (HRESULT 0x");
                push_hresult(&mut out, *hr);
                extend_str(&mut out, ")");
            },
            ActivationError::ShellExecuteFailed(e) => {
                extend_str(&mut out, "o aplicativo padrão não pôde abrir o arquivo (erro Win32 ");
                push_decimal(&mut out, *e as u64);
                extend_str(&mut out, ")");
            },
        }
        assert(out@ =~= self.text_of());
        string_of(&out)
    }
}

/// Reads `std::path::MAIN_SEPARATOR`: `\` where paths are Windows paths,
/// `/` elsewhere. Nothing is stated of it: it depends on the platform the
/// library was built for.
#[verifier::external_body]
pub(crate) fn main_separator() -> (r: char) {
    std::path::MAIN_SEPARATOR
}

/// Whether files can be opened on a platform whose path separator is
/// `separator`: only where it is `\`, that is on Windows.
pub fn supported_for(separator: char) -> (r: bool)
    ensures
        r == (separator == '\\'),
{
    separator == '\\'
}

/// Whether files can be opened here: only on Windows. What is returned
/// is `supported_for` of this platform's separator.
pub fn is_supported() -> (r: bool) {
    supported_for(main_separator())
}

/// The paths `Path::push` builds component by component over `s`, one
/// after each normal component: the places where a link could redirect.
pub open spec fn probe_paths_upto(s: Seq<char>, n: int) -> (Seq<char>, Seq<Seq<char>>)
    decreases n,
{
    if n <= 0 {
        (if is_absolute(s) {
            seq!['/']
        } else {
            Seq::empty()
        }, Seq::empty())
    } else {
        let prev = probe_paths_upto(s, n - 1);
        let c = kept(s)[n - 1];
        let current = join(prev.0, s.subrange(c.1, c.2));
        (current, if c.0 == Kind::Normal {
            prev.1.push(current)
        } else {
            prev.1
        })
    }
}

/// The places to look at for links, in order.
pub open spec fn probe_paths(s: Seq<char>) -> Seq<Seq<char>> {
    probe_paths_upto(s, kept(s).len() as int).1
}

/// The Unix places to look at for links in `path`.
fn unix_probes(path: &str) -> (r: Vec<String>)
    ensures
        views(r@) == probe_paths(path@),
{
    let s = chars_of(path);
    let k = kept_spans(&s);
    proof {
        crate::path::lemma_kept_bounds(s@);
    }
    let mut current: Vec<char> = Vec::new();
    if path_is_absolute(&s) {
        current.push('/');
    }
    let mut r: Vec<String> = Vec::new();
    let mut i: usize = 0;
    assert(current@ =~= probe_paths_upto(s@, 0).0);
    while i < k.len()
        invariant
            i <= k@.len(),
            k@.len() == kept(s@).len(),
            forall|j: int|
                0 <= j < k@.len() ==> (#[trigger] k@[j]).0 == kept(s@)[j].0 && k@[j].1
                    == kept(s@)[j].1 && k@[j].2 == kept(s@)[j].2,
            forall|j: int| 0 <= j < kept(s@).len() ==> 0 <= (#[trigger] kept(s@)[j]).1 <= kept(s@)[j].2 <= s@.len(),
            current@ == probe_paths_upto(s@, i as int).0,
            views(r@) == probe_paths_upto(s@, i as int).1,
        decreases k@.len() - i,
    {
        let (kind, a, b) = k[i];
        let text = slice_chars(&s, a, b);
        let next = path_join(&current, &text);
        current = next;
        if kind == Kind::Normal {
            let ghost before = r@;
            r.push(string_of(&current));
            assert(views(r@) =~= views(
                before,
            ).push(current@));
        }
        i = i + 1;
    }
    r
}

/// The places to look at for links in a Windows path: its prefix, then
/// the path built up to each normal component, written with `\\`.
pub open spec fn win_probe_paths(s: Seq<char>) -> Seq<Seq<char>> {
    probe_paths(win_rest(s)).map_values(|p: Seq<char>| s.take(win_prefix_len(s)) + backslashed(p))
}

/// The places to look at for links on the given platform.
pub open spec fn probes_on(s: Seq<char>, windows: bool) -> Seq<Seq<char>> {
    if windows {
        win_probe_paths(s)
    } else {
        probe_paths(s)
    }
}

/// The places to look at for links in `path` on the given platform: the
/// path built up to each of its normal components.
pub fn reparse_probes_on(path: &str, windows: bool) -> (r: Vec<String>)
    ensures
        views(r@) == probes_on(path@, windows),
{
    if !windows {
        return unix_probes(path);
    }
    let s = chars_of(path);
    let rest = rest_of(&s);
    let unix = unix_probes(string_of(&rest).as_str());
    let mut r: Vec<String> = Vec::new();
    let mut i: usize = 0;
    while i < unix.len()
        invariant
            i <= unix@.len(),
            views(unix@) == probe_paths(win_rest(path@)),
            s@ == path@,
            views(r@) == probe_paths(win_rest(path@)).take(i as int).map_values(
                |p: Seq<char>| path@.take(win_prefix_len(path@)) + backslashed(p),
            ),
        decreases unix@.len() - i,
    {
        let u = chars_of(unix[i].as_str());
        let w = with_prefix(&s, &u);
        let ghost before = r@;
        r.push(string_of(&w));
        proof {
            assert(u@ == views(unix@)[i as int]);
            assert(views(r@) =~= views(before).push(w@));
            assert(probe_paths(win_rest(path@)).take(i + 1) =~= probe_paths(win_rest(path@)).take(
                i as int,
            ).push(u@));
        }
        assert(views(r@) =~= probe_paths(win_rest(path@)).take(i + 1).map_values(
            |p: Seq<char>| path@.take(win_prefix_len(path@)) + backslashed(p),
        ));
        i = i + 1;
    }
    assert(probe_paths(win_rest(path@)).take(unix@.len() as int) =~= probe_paths(win_rest(path@)));
    r
}

/// The places to look at for links before opening `path`, on this
/// platform: one of the two lists of `probes_on`, as `is_supported`
/// answers. The caller tells, for each, whether it is a link (or cannot
/// be read).
pub fn reparse_probes(path: &str) -> (r: Vec<String>)
    ensures
        views(r@) == probes_on(path@, false) || views(r@) == probes_on(path@, true),
{
    let windows = is_supported();
    reparse_probes_on(path, windows)
}

/// An accepted target on the given platform: absolute, a regular file,
/// no `..` component, and no link anywhere along it.
pub open spec fn accepted_target(
    path: Seq<char>,
    is_file: bool,
    is_link: Seq<bool>,
    windows: bool,
) -> bool {
    absolute_on(path, windows) && is_file && !parent_on(path, windows) && forall|i: int|
        0 <= i < is_link.len() ==> !#[trigger] is_link[i]
}

/// `r` is what checking `path` gives on the given platform: the path
/// itself when it is accepted, `InvalidTarget` naming it otherwise.
pub open spec fn validated(
    r: Result<String, ActivationError>,
    path: Seq<char>,
    is_file: bool,
    is_link: Seq<bool>,
    windows: bool,
) -> bool {
    if accepted_target(path, is_file, is_link, windows) {
        r matches Ok(p) && p@ == path
    } else {
        r matches Err(ActivationError::InvalidTarget(p)) && p@ == path
    }
}

/// Checks a file before it is opened, with the path rules of Windows
/// (`windows`) or of Unix. `is_file` tells whether it is a regular file
/// (links followed); `is_link[i]` whether the `i`-th path of
/// `reparse_probes_on(path, windows)` is a link or could not be read.
pub fn validate_file_on(path: &str, is_file: bool, is_link: &[bool], windows: bool) -> (r: Result<
    String,
    ActivationError,
>)
    ensures
        validated(r, path@, is_file, is_link@, windows),
{
    let s = chars_of(path);
    let mut linked = false;
    let mut i: usize = 0;
    while i < is_link.len()
        invariant
            i <= is_link@.len(),
            linked == exists|j: int| 0 <= j < i && #[trigger] is_link@[j],
        decreases is_link@.len() - i,
    {
        if is_link[i] {
            linked = true;
        }
        i = i + 1;
    }
    if !is_absolute_on(&s, windows) || !is_file || has_parent_on(&s, windows) || linked {
        return Err(ActivationError::InvalidTarget(String::from_str(path)));
    }
    Ok(String::from_str(path))
}

/// Checks a file before it is opened, with this platform's path rules:
/// what `validate_file_on` gives for the platform `is_supported` names.
pub fn validate_file(path: &str, is_file: bool, is_link: &[bool]) -> (r: Result<String, ActivationError>)
    ensures
        validated(r, path@, is_file, is_link@, false) || validated(r, path@, is_file, is_link@, true),
{
    let windows = is_supported();
    validate_file_on(path, is_file, is_link, windows)
}

/// `r` is what deciding to open `path` gives: a refused target is
/// refused; an accepted one is handed to the shell where opening is
/// `supported` (Windows), and is `Unsupported` elsewhere.
pub open spec fn activation_decided(
    r: Result<String, ActivationError>,
    path: Seq<char>,
    is_file: bool,
    is_link: Seq<bool>,
    supported: bool,
) -> bool {
    if !accepted_target(path, is_file, is_link, supported) {
        r matches Err(ActivationError::InvalidTarget(p)) && p@ == path
    } else if supported {
        r matches Ok(p) && p@ == path
    } else {
        r matches Err(ActivationError::Unsupported)
    }
}

/// Decides whether to hand `path` to the shell, given whether opening is
/// supported here (which also selects the Windows path rules).
pub fn activation_outcome(path: &str, is_file: bool, is_link: &[bool], supported: bool) -> (r: Result<
    String,
    ActivationError,
>)
    ensures
        activation_decided(r, path@, is_file, is_link@, supported),
{
    let target = validate_file_on(path, is_file, is_link, supported)?;
    if supported {
        Ok(target)
    } else {
        Err(ActivationError::Unsupported)
    }
}

/// Decides whether to hand `path` to the shell on this platform: what
/// `activation_outcome` gives for the answer of `is_supported`.
pub fn activate_file(path: &str, is_file: bool, is_link: &[bool]) -> (r: Result<String, ActivationError>)
    ensures
        activation_decided(r, path@, is_file, is_link@, false) || activation_decided(
            r,
            path@,
            is_file,
            is_link@,
            true,
        ),
{
    let supported = is_supported();
    activation_outcome(path, is_file, is_link, supported)
}

/// What the shell library's initialisation answered: the calling thread
/// in another mode, or any failure, stops; otherwise whether it must be
/// released afterwards.
pub fn com_outcome(com_result: i32) -> (r: Result<bool, ActivationError>)
    ensures
        (com_result == -2147417850i32 || com_result < 0) ==> (r matches Err(
            ActivationError::ComInitialization(hr),
        ) && hr == com_result),
        !(com_result == -2147417850i32 || com_result < 0) ==> r == Ok::<bool, ActivationError>(
            com_result == 0 || com_result == 1,
        ),
{
    if com_result == RPC_E_CHANGED_MODE || com_result < 0 {
        return Err(ActivationError::ComInitialization(com_result));
    }
    Ok(com_result == S_OK || com_result
        == S_FALSE)
}

/// What the shell's attempt to open answered.
pub fn shell_outcome(succeeded: bool, last_error: u32) -> (r: Result<(), ActivationError>)
    ensures
        succeeded ==> r is Ok,
        !succeeded ==> (r matches Err(ActivationError::ShellExecuteFailed(e)) && e == last_error),
{
    if succeeded {
        Ok(())
    } else {
        Err(ActivationError::ShellExecuteFailed(last_error))
    }
}

} // verus!
