//! Turning directory entries into the rows, texts and icons the window
//! shows.

use vstd::prelude::*;
use vstd::arithmetic::power2::{pow2, lemma2_to64, lemma_pow2_pos, lemma_pow2_unfold};
use vstd::string::StringExecFns;
use crate::filesystem::{DirectoryEntry, EntryKind, FileSystemError};
use crate::desktop::rows::LoadedRow;
use crate::converters::backend::views;
use crate::path::{extension, parent, path_extension, path_parent};
use crate::text::{
    chars_of, decimal, digit_char, eq_str, extend_chars, extend_str, lower_ascii, push_decimal,
    push_decimal_wide, string_of, to_lower_ascii, zero_pad,
};

verus! {

/// Icon of a file with lower-cased extension `e`.
pub open spec fn file_icon(e: Option<Seq<char>>) -> Seq<char> {
    match e {
        None => "●"@,
        Some(x) => if x == "html"@ || x == "htm"@ {
            "<>"@
        } else if x == "css"@ {
            "#"@
        } else if x == "rs"@ {
            "Rs"@
        } else if x == "py"@ {
            "Py"@
        } else if x == "ts"@ || x == "tsx"@ {
            "TS"@
        } else if x == "js"@ || x == "jsx"@ {
            "JS"@
        } else if x == "java"@ {
            "Jv"@
        } else if x == "json"@ || x == "toml"@ || x == "yaml"@ || x == "yml"@ {
            "{}"@
        } else if x == "png"@ || x == "jpg"@ || x == "jpeg"@ || x == "gif"@ || x == "webp"@ || x
            == "jxl"@ {
            "◉"@
        } else if x == "mp3"@ || x == "wav"@ || x == "flac"@ || x == "opus"@ || x == "oga"@ {
            "♫"@
        } else if x == "mp4"@ || x == "mkv"@ || x == "webm"@ || x == "mov"@ {
            "▶"@
        } else {
            "●"@
        },
    }
}

/// The lower-cased extension of a name, if any.
pub open spec fn lowered_extension(name: Seq<char>) -> Option<Seq<char>> {
    match extension(name) {
        Some(e) => Some(lower_ascii(e)),
        None => None,
    }
}

/// Icon, kind text and folder flag of an entry.
pub open spec fn icon_of(name: Seq<char>, kind: EntryKind) -> (Seq<char>, Seq<char>, bool) {
    match kind {
        EntryKind::Directory => ("▰"@, "Pasta"@, true),
        EntryKind::Symlink => ("↗"@, "Link simbólico"@, false),
        EntryKind::Other => ("◇"@, "Outro tipo"@, false),
        EntryKind::File => (file_icon(lowered_extension(name)), "Arquivo"@, false),
    }
}

fn icon_for_extension(x: &[char]) -> (r: &'static str)
    ensures
        r@ == file_icon(Some(x@)),
{
    if eq_str(x, "html") || eq_str(x, "htm") {
        "<>"
    } else if eq_str(x, "css") {
        "#"
    } else if eq_str(x, "rs") {
        "Rs"
    } else if eq_str(x, "py") {
        "Py"
    } else if eq_str(x, "ts") || eq_str(x, "tsx") {
        "TS"
    } else if eq_str(x, "js") || eq_str(x, "jsx") {
        "JS"
    } else if eq_str(x, "java") {
        "Jv"
    } else if eq_str(x, "json") || eq_str(x, "toml") || eq_str(x, "yaml") || eq_str(x, "yml") {
        "{}"
    } else if eq_str(x, "png") || eq_str(x, "jpg") || eq_str(x, "jpeg") || eq_str(x, "gif")
        || eq_str(x, "webp") || eq_str(x, "jxl") {
        "◉"
    } else if eq_str(x, "mp3") || eq_str(x, "wav") || eq_str(x, "flac") || eq_str(x, "opus")
        || eq_str(x, "oga") {
        "♫"
    } else if eq_str(x, "mp4") || eq_str(x, "mkv") || eq_str(x, "webm") || eq_str(x, "mov") {
        "▶"
    } else {
        "●"
    }
}

/// Icon, kind text and folder flag of an entry: folders, links and other
/// entries by kind; files by extension, ignoring ASCII case.
pub fn row_icon(name: &str, kind: EntryKind) -> (r: (&'static str, &'static str, bool))
    ensures
        (r.0@, r.1@, r.2) == icon_of(name@, kind),
{
    match kind {
        EntryKind::Directory => ("▰", "Pasta", true),
        EntryKind::Symlink => ("↗", "Link simbólico", false),
        EntryKind::Other => ("◇", "Outro tipo", false),
        EntryKind::File => {
            let n = chars_of(name);
            let icon = match path_extension(&n) {
                Some(e) => {
                    let lowered = to_lower_ascii(&e);
                    icon_for_extension(&lowered)
                },
                None => "●",
            };
            (icon, "Arquivo", false)
        },
    }
}

/// `a / b` rounded to the nearest integer, ties to the even one.
pub open spec fn half_even_div(a: nat, b: nat) -> nat
    recommends
        b > 0,
{
    let q = a / b;
    let r = a % b;
    if 2 * r > b || (2 * r == b && q % 2 == 1) {
        q + 1
    } else {
        q
    }
}

/// Number of binary digits of `n`.
pub open spec fn bit_len(n: nat) -> nat
    decreases n,
{
    if n == 0 {
        0
    } else {
        1 + bit_len(n / 2)
    }
}

/// The value of the double nearest to `n` (ties to an even mantissa):
/// `n` itself when it fits in 53 bits.
pub open spec fn nearest_double(n: nat) -> nat {
    if bit_len(n) <= 53 {
        n
    } else {
        let s = (bit_len(n) - 53) as nat;
        half_even_div(n, pow2(s)) * pow2(s)
    }
}

/// `1024` to the power `k`.
pub open spec fn pow1024(k: nat) -> nat
    decreases k,
{
    if k == 0 {
        1
    } else {
        1024 * pow1024((k - 1) as nat)
    }
}

/// The unit a size is shown in: the largest of B, KB, MB, GB it reaches.
pub open spec fn size_unit(bytes: nat) -> nat {
    if bytes < 1024 {
        0
    } else if bytes < pow1024(2) {
        1
    } else if bytes < pow1024(3) {
        2
    } else {
        3
    }
}

pub open spec fn unit_name(k: nat) -> Seq<char> {
    if k == 0 {
        "B"@
    } else if k == 1 {
        "KB"@
    } else if k == 2 {
        "MB"@
    } else {
        "GB"@
    }
}

/// A size as shown: bytes as a whole number, larger units with one
/// decimal of the size's double value divided by the unit, rounded to
/// nearest with ties to even, as `{:.1}` prints it.
pub open spec fn size_text(bytes: nat) -> Seq<char> {
    let k = size_unit(bytes);
    if k == 0 {
        decimal(bytes) + " B"@
    } else {
        let t = half_even_div(10 * nearest_double(bytes), pow1024(k));
        decimal(t / 10) + seq!['.', digit_char(t % 10)] + " "@ + unit_name(k)
    }
}

fn half_even_div_exec(a: u128, b: u128) -> (r: u128)
    requires
        b > 0,
        a < 0x1_0000_0000_0000_0000_0000,
        b < 0x1_0000_0000_0000_0000,
    ensures
        r == half_even_div(a as nat, b as nat),
{
    let q = a / b;
    let r = a % b;
    if 2 * r > b || (2 * r == b && q % 2 == 1) {
        q + 1
    } else {
        q
    }
}

fn bit_length(n: u64) -> (r: u64)
    ensures
        r == bit_len(n as nat),
        r <= 64,
{
    proof {
        lemma_bit_len_bound(n as nat);
    }
    let mut m: u64 = n;
    let mut len: u64 = 0;
    while m > 0
        invariant
            bit_len(n as nat) == len + bit_len(m as nat),
            bit_len(n as nat) <= 64,
        decreases m,
    {
        m = m / 2;
        len = len + 1;
    }
    len
}

proof fn lemma_bit_len_bound(n: nat)
    requires
        n < 0x1_0000_0000_0000_0000,
    ensures
        bit_len(n) <= 64,
        bit_len(n) <= 53 <==> n < 0x20_0000_0000_0000,
{
    lemma2_to64();
    vstd::arithmetic::power2::lemma2_to64_rest();
    lemma_bit_len_pow(n);
    assert(pow2(64) > n);
    assert(pow2(53) > n <==> bit_len(n) <= 53);
}

/// `bit_len(n) <= e` exactly when `n < 2^e`.
proof fn lemma_bit_len_pow(n: nat)
    ensures
        forall|e: nat| #[trigger] pow2(e) > n <==> bit_len(n) <= e,
    decreases n,
{
    if n > 0 {
        lemma_bit_len_pow(n / 2);
        assert forall|e: nat| #[trigger] pow2(e) > n <==> bit_len(n) <= e by {
            if e > 0 {
                lemma_pow2_unfold(e);
                assert(pow2((e - 1) as nat) > n / 2 <==> bit_len(n / 2) <= (e - 1) as nat);
            } else {
                assert(pow2(0) == 1) by {
                    lemma2_to64();
                }
            }
        }
    } else {
        assert forall|e: nat| #[trigger] pow2(e) > n <==> bit_len(n) <= e by {
            lemma_pow2_pos(e);
        }
    }
}

fn pow2_exec(e: u64) -> (r: u128)
    requires
        e <= 64,
    ensures
        r == pow2(e as nat),
{
    let mut p: u128 = 1;
    let mut i: u64 = 0;
    proof {
        lemma2_to64();
    }
    while i < e
        invariant
            i <= e <= 64,
            p == pow2(i as nat),
            pow2(64) == 0x1_0000_0000_0000_0000,
        decreases e - i,
    {
        proof {
            lemma_pow2_unfold((i + 1) as nat);
            vstd::arithmetic::power2::lemma_pow2_strictly_increases(i as nat, 64);
        }
        p = p * 2;
        i = i + 1;
    }
    p
}

fn nearest_double_exec(n: u64) -> (r: u128)
    ensures
        r == nearest_double(n as nat),
        r <= 0x2_0000_0000_0000_0000,
{
    let len = bit_length(n);
    if len <= 53 {
        return n as u128;
    }
    let s = len - 53;
    let d = pow2_exec(s);
    proof {
        lemma2_to64();
        lemma_pow2_pos(s as nat);
        vstd::arithmetic::power2::lemma_pow2_strictly_increases(s as nat, 64);
    }
    let q = half_even_div_exec(n as u128, d);
    proof {
        let nn = n as nat;
        let dd = d as nat;
        vstd::arithmetic::div_mod::lemma_fundamental_div_mod(nn as int, dd as int);
        assert(q <= nn / dd + 1);
        assert((nn / dd) * dd <= nn);
        assert(q * dd <= (nn / dd + 1) * dd) by (nonlinear_arith)
            requires
                q <= nn / dd + 1,
        ;
        assert((nn / dd + 1) * dd == (nn / dd) * dd + dd) by (nonlinear_arith);
    }
    q * d
}

/// A size as shown in the listing.
pub fn format_size(bytes: u64) -> (r: String)
    ensures
        r@ == size_text(bytes as nat),
{
    let mut out: Vec<char> = Vec::new();
    assert(pow1024(2) == 1048576 && pow1024(3) == 1073741824) by {
        reveal_with_fuel(pow1024, 4);
    }
    if bytes < 1024 {
        push_decimal(&mut out, bytes);
        extend_str(&mut out, " B");
        return string_of(&out);
    }
    let (divisor, unit): (u128, &str) = if bytes < 1048576 {
        (1024, "KB")
    } else if bytes < 1073741824 {
        (1048576, "MB")
    } else {
        (1073741824, "GB")
    };
    let f = nearest_double_exec(bytes);
    let t = half_even_div_exec(10 * f, divisor);
    push_decimal_wide(&mut out, t / 10);
    out.push('.');
    let mut digit: Vec<char> = Vec::new();
    push_decimal(&mut digit, (t % 10) as u64);
    assert(digit@ =~= seq![digit_char((t % 10) as nat)]);
    out.push(digit[0]);
    extend_str(&mut out, " ");
    extend_str(&mut out, unit);
    proof {
        let k = size_unit(bytes as nat);
        assert(divisor == pow1024(k));
        assert(unit@ == unit_name(k));
        assert(out@ =~= size_text(bytes as nat));
    }
    string_of(&out)
}

/// The folder above `path`, unless there is none or it is empty.
pub open spec fn parent_folder(path: Seq<char>) -> Option<Seq<char>> {
    match parent(path) {
        Some(p) => if p.len() > 0 {
            Some(p)
        } else {
            None
        },
        None => None,
    }
}

/// The folder above `path`: none for a root or a bare name.
pub fn parent_directory(path: &str) -> (r: Option<String>)
    ensures
        match parent_folder(path@) {
            Some(p) => r matches Some(s) && s@ == p,
            None => r is None,
        },
{
    let p = chars_of(path);
    match path_parent(&p) {
        Some(q) => {
            if q.len() > 0 {
                Some(string_of(&q))
            } else {
                None
            }
        },
        None => None,
    }
}

/// The civil date (year, month, day) of a day counted from 1970-01-01,
/// by the era arithmetic of the proleptic Gregorian calendar (floor
/// division by eras of 400 years).
pub open spec fn civil_of(days: int) -> (int, int, int) {
    let shifted = days + 719468;
    let era = shifted / 146097;
    let doe = shifted - era * 146097;
    let yoe = (doe - doe / 1460 + doe / 36524 - doe / 146096) / 365;
    let doy = doe - (365 * yoe + yoe / 4 - yoe / 100);
    let mp = (5 * doy + 2) / 153;
    let d = doy - (153 * mp + 2) / 5 + 1;
    let m = if mp < 10 {
        mp + 3
    } else {
        mp - 9
    };
    let y = yoe + era * 400 + (if m <= 2 {
        1int
    } else {
        0
    });
    (y, m, d)
}

/// The civil date of a day counted from 1970-01-01.
#[verifier::rlimit(50)]
pub fn civil_date(days_since_epoch: i64) -> (r: (i64, i64, i64))
    requires
        days_since_epoch <= i64::MAX - 719468,
        days_since_epoch + 719468 >= i64::MIN + 146096,
    ensures
        (r.0 as int, r.1 as int, r.2 as int) == civil_of(days_since_epoch as int),
{
    let shifted: i64 = days_since_epoch + 719468;
    let era: i64 = if shifted >= 0 {
        (shifted as u64 / 146097) as i64
    } else {
        let a: u64 = (146096i128 - shifted as i128) as u64;
        let q: u64 = a / 146097;
        proof {
            let s = shifted as int;
            assert(q == (146096 - s) / 146097);
            assert(-(q as int) == s / 146097) by (nonlinear_arith)
                requires
                    s < 0,
                    q == (146096 - s) / 146097,
            {
                vstd::arithmetic::div_mod::lemma_fundamental_div_mod(146096 - s, 146097);
                vstd::arithmetic::div_mod::lemma_fundamental_div_mod(s, 146097);
            }
        }
        -(q as i64)
    };
    proof {
        vstd::arithmetic::div_mod::lemma_fundamental_div_mod(shifted as int, 146097);
    }
    assert(era as int == (shifted as int) / 146097);
    let doe_i: i128 = shifted as i128 - era as i128 * 146097;
    assert(0 <= doe_i < 146097);
    let doe: u64 = doe_i as u64;
    let yoe: u64 = (doe - doe / 1460 + doe / 36524 - doe / 146096) / 365;
    assert(yoe <= 400) by (nonlinear_arith)
        requires
            yoe == (doe - doe / 1460 + doe / 36524 - doe / 146096) / 365,
            doe < 146097,
    ;
    let doy: u64 = doe - (365 * yoe + yoe / 4 - yoe / 100);
    let mp: u64 = (5 * doy + 2) / 153;
    let d: u64 = doy - (153 * mp + 2) / 5 + 1;
    let m: i64 = if mp < 10 {
        mp as i64 + 3
    } else {
        mp as i64 - 9
    };
    let y: i64 = yoe as i64 + era * 400 + if m <= 2 {
        1
    } else {
        0
    };
    (y, m, d as i64)
}

/// Nanoseconds the clock type can hold: seconds within `i64`.
pub open spec fn clock_limit() -> int {
    9_223_372_036_854_775_808int * 1_000_000_000int
}

/// A time as shown: `YYYY-MM-DD HH:MM` in UTC, or `—` when unknown,
/// before the epoch, or past what the clock type holds.
pub open spec fn timestamp_text(time: Option<i128>) -> Seq<char> {
    match time {
        None => "—"@,
        Some(t) => if t < 0 || t >= clock_limit() {
            "—"@
        } else {
            let secs = t / 1_000_000_000;
            let total_minutes = secs / 60;
            let minute = total_minutes % 60;
            let total_hours = total_minutes / 60;
            let hour = total_hours % 24;
            let days = total_hours / 24;
            let c = civil_of(days);
            zero_pad(decimal(c.0 as nat), 4) + "-"@ + zero_pad(decimal(c.1 as nat), 2) + "-"@
                + zero_pad(decimal(c.2 as nat), 2) + " "@ + zero_pad(decimal(hour as nat), 2)
                + ":"@ + zero_pad(decimal(minute as nat), 2)
        },
    }
}

proof fn lemma_civil_positive(days: int)
    requires
        0 <= days <= 0xffff_ffff_ffff,
    ensures
        civil_of(days).0 >= 1600,
        1 <= civil_of(days).1 <= 12,
        1 <= civil_of(days).2 <= 31,
{
    let shifted = days + 719468;
    let era = shifted / 146097;
    assert(era >= 4) by (nonlinear_arith)
        requires
            shifted >= 719468,
            era == shifted / 146097,
    ;
    let doe = shifted - era * 146097;
    vstd::arithmetic::div_mod::lemma_fundamental_div_mod(shifted, 146097);
    let yoe = (doe - doe / 1460 + doe / 36524 - doe / 146096) / 365;
    assert(0 <= yoe <= 399) by (nonlinear_arith)
        requires
            0 <= doe < 146097,
            yoe == (doe - doe / 1460 + doe / 36524 - doe / 146096) / 365,
    ;
    let doy = doe - (365 * yoe + yoe / 4 - yoe / 100);
    assert(0 <= doy <= 365) by (nonlinear_arith)
        requires
            0 <= doe < 146097,
            yoe == (doe - doe / 1460 + doe / 36524 - doe / 146096) / 365,
            doy == doe - (365 * yoe + yoe / 4 - yoe / 100),
    ;
    let mp = (5 * doy + 2) / 153;
    assert(0 <= mp <= 11) by (nonlinear_arith)
        requires
            0 <= doy <= 365,
            mp == (5 * doy + 2) / 153,
    ;
    let d = doy - (153 * mp + 2) / 5 + 1;
    assert(1 <= d <= 31) by (nonlinear_arith)
        requires
            0 <= doy <= 365,
            mp == (5 * doy + 2) / 153,
            d == doy - (153 * mp + 2) / 5 + 1,
    ;
}

/// A time as shown in the listing and in the properties.
pub fn format_timestamp(time: Option<i128>) -> (r: String)
    ensures
        r@ == timestamp_text(time),
{
    let t = match time {
        None => {
            return String::from_str("—");
        },
        Some(t) => t,
    };
    if t < 0 || t >= 9_223_372_036_854_775_808i128 * 1_000_000_000i128 {
        return String::from_str("—");
    }
    let secs: u64 = (t / 1_000_000_000) as u64;
    let total_minutes = secs / 60;
    let minute = total_minutes % 60;
    let total_hours = total_minutes / 60;
    let hour = total_hours % 24;
    let days = total_hours / 24;
    assert(days <= 0xffff_ffff_ffff) by (nonlinear_arith)
        requires
            days == secs / 60 / 60 / 24,
            secs < 0x1_0000_0000_0000_0000,
    ;
    proof {
        lemma_civil_positive(days as int);
    }
    let (year, month, day) = civil_date(days as i64);
    let mut out: Vec<char> = Vec::new();
    crate::text::push_decimal_padded(&mut out, year as u64, 4);
    out.push('-');
    crate::text::push_decimal_padded(&mut out, month as u64, 2);
    out.push('-');
    crate::text::push_decimal_padded(&mut out, day as u64, 2);
    out.push(' ');
    crate::text::push_decimal_padded(&mut out, hour, 2);
    out.push(':');
    crate::text::push_decimal_padded(&mut out, minute, 2);
    proof {
        reveal_strlit("-");
        reveal_strlit(" ");
        reveal_strlit(":");
        assert(out@ =~= timestamp_text(time));
    }
    string_of(&out)
}

/// The kind text of an entry's row: the platform's marks first, then
/// what the icon says.
pub open spec fn row_kind_text(entry: DirectoryEntry) -> Seq<char> {
    let i = icon_of(entry.name@, entry.kind);
    if entry.is_system {
        "Item do sistema"@
    } else if entry.is_hidden {
        if i.2 {
            "Pasta oculta"@
        } else {
            "Arquivo oculto"@
        }
    } else {
        i.1
    }
}

/// The row shown for `entry`, the `index`-th of its listing.
pub open spec fn row_of(row: LoadedRow, entry: DirectoryEntry, index: nat) -> bool {
    let i = icon_of(entry.name@, entry.kind);
    &&& row.key@ == entry.path@ + "#"@ + decimal(index)
    &&& row.path@ == entry.path@
    &&& row.name@ == entry.name@
    &&& row.kind@ == row_kind_text(entry)
    &&& row.icon@ == i.0
    &&& row.details@ == (match entry.size {
        Some(b) => size_text(b as nat),
        None => "—"@,
    })
    &&& row.size == entry.size
    &&& row.modified == entry.modified
    &&& row.created == entry.created
    &&& row.accessed == entry.accessed
    &&& row.is_directory == i.2
}

/// The row shown for `entry`, the `index`-th of its listing; its key is
/// unique in the listing.
pub fn row_from_entry(entry: &DirectoryEntry, index: usize) -> (r: LoadedRow)
    ensures
        row_of(r, *entry, index as nat),
{
    let name = entry.display_name();
    let (icon, default_kind, is_directory) = row_icon(name.as_str(), entry.kind);
    let kind = if entry.is_system {
        "Item do sistema"
    } else if entry.is_hidden {
        if is_directory {
            "Pasta oculta"
        } else {
            "Arquivo oculto"
        }
    } else {
        default_kind
    };
    let details = match entry.size {
        Some(b) => format_size(b),
        None => String::from_str("—"),
    };
    let mut key: Vec<char> = Vec::new();
    extend_str(&mut key, entry.path.as_str());
    key.push('#');
    push_decimal(&mut key, index as u64);
    proof {
        reveal_strlit("#");
        assert(key@ =~= entry.path@ + "#"@ + decimal(index as nat));
    }
    LoadedRow {
        key: string_of(&key),
        path: entry.path.clone(),
        name,
        kind: String::from_str(kind),
        icon: String::from_str(icon),
        details,
        size: entry.size,
        modified: entry.modified,
        created: entry.created,
        accessed: entry.accessed,
        is_directory,
    }
}

/// A folder as loaded for the window.
#[derive(Debug)]
pub struct LoadedDirectory {
    pub path: String,
    pub rows: Vec<LoadedRow>,
    pub status: String,
    pub is_error: bool,
}

/// The folder at `path` as loaded from the result of listing it: one row
/// per entry and a count, or no rows and the reason.
pub fn load_directory(path: &str, listing: Result<Vec<DirectoryEntry>, FileSystemError>) -> (r:
    LoadedDirectory)
    ensures
        r.path@ == path@,
        match listing {
            Ok(entries) => r.rows@.len() == entries@.len() && (forall|i: int|
                0 <= i < entries@.len() ==> row_of(#[trigger] r.rows@[i], entries@[i], i as nat))
                && r.status@ == decimal(entries@.len()) + " itens"@ && !r.is_error,
            Err(e) => r.rows@.len() == 0 && r.status@ == "Não foi possível listar a pasta: "@
                + e.text_of() && r.is_error,
        },
{
    match listing {
        Ok(entries) => {
            let mut rows: Vec<LoadedRow> = Vec::new();
            let mut i: usize = 0;
            while i < entries.len()
                invariant
                    i <= entries@.len(),
                    rows@.len() == i,
                    forall|k: int| 0 <= k < i ==> row_of(#[trigger] rows@[k], entries@[k], k as nat),
                decreases entries@.len() - i,
            {
                let row = row_from_entry(&entries[i], i);
                rows.push(row);
                i = i + 1;
            }
            let mut status: Vec<char> = Vec::new();
            push_decimal(&mut status, entries.len() as u64);
            extend_str(&mut status, " itens");
            LoadedDirectory {
                path: String::from_str(path),
                rows,
                status: string_of(&status),
                is_error: false,
            }
        },
        Err(e) => {
            let mut status: Vec<char> = Vec::new();
            extend_str(&mut status, "Não foi possível listar a pasta: ");
            let m = e.message();
            extend_str(&mut status, m.as_str());
            LoadedDirectory {
                path: String::from_str(path),
                rows: Vec::new(),
                status: string_of(&status),
                is_error: true,
            }
        },
    }
}

/// How the properties dialog names an entry's attributes.
pub open spec fn attributes_of(kind: Seq<char>) -> Seq<char> {
    if kind == "Item do sistema"@ {
        "Sistema"@
    } else if kind == "Pasta oculta"@ || kind == "Arquivo oculto"@ {
        "Oculto"@
    } else if kind == "Link simbólico"@ {
        "Link simbólico"@
    } else {
        "Normal"@
    }
}

/// The lines of the properties dialog for a row.
pub open spec fn property_texts(row: LoadedRow) -> Seq<Seq<char>> {
    let location = match parent(row.path@) {
        Some(p) => p,
        None => "—"@,
    };
    seq![
        "General"@,
        "Nome: "@ + row.name@,
        "Tipo: "@ + row.kind@,
        "Localização: "@ + location,
        "Tamanho: "@ + row.details@,
        "Criado: "@ + timestamp_text(row.created),
        "Modificado: "@ + timestamp_text(row.modified),
        "Acessado: "@ + timestamp_text(row.accessed),
        "Atributos: "@ + attributes_of(row.kind@),
        "Security"@,
        "Este diálogo somente lê metadata; nenhuma permissão é alterada."@,
        "Links e reparse points não são seguidos para exibir estas informações."@,
        "Details"@,
        "Chave interna: "@ + row.key@,
        "Diretório: "@ + (if row.is_directory {
            "sim"@
        } else {
            "não"@
        }),
    ]
}

fn labelled(label: &str, value: &str) -> (r: String)
    ensures
        r@ == label@ + value@,
{
    let mut out: Vec<char> = Vec::new();
    extend_str(&mut out, label);
    extend_str(&mut out, value);
    string_of(&out)
}

/// The lines of the properties dialog for a row; nothing is read from
/// disk and no link is followed.
pub fn property_lines(row: &LoadedRow) -> (r: Vec<String>)
    ensures
        views(r@) == property_texts(*row),
{
    let p = chars_of(row.path.as_str());
    let location = match path_parent(&p) {
        Some(q) => string_of(&q),
        None => String::from_str("—"),
    };
    let k = chars_of(row.kind.as_str());
    let attributes = if eq_str(&k, "Item do sistema") {
        "Sistema"
    } else if eq_str(&k, "Pasta oculta") || eq_str(&k, "Arquivo oculto") {
        "Oculto"
    } else if eq_str(&k, "Link simbólico") {
        "Link simbólico"
    } else {
        "Normal"
    };
    let created = format_timestamp(row.created);
    let modified = format_timestamp(row.modified);
    let accessed = format_timestamp(row.accessed);
    let mut r: Vec<String> = Vec::new();
    r.push(String::from_str("General"));
    r.push(labelled("Nome: ", row.name.as_str()));
    r.push(labelled("Tipo: ", row.kind.as_str()));
    r.push(labelled("Localização: ", location.as_str()));
    r.push(labelled("Tamanho: ", row.details.as_str()));
    r.push(labelled("Criado: ", created.as_str()));
    r.push(labelled("Modificado: ", modified.as_str()));
    r.push(labelled("Acessado: ", accessed.as_str()));
    r.push(labelled("Atributos: ", attributes));
    r.push(String::from_str("Security"));
    r.push(String::from_str("Este diálogo somente lê metadata; nenhuma permissão é alterada."));
    r.push(
        String::from_str("Links e reparse points não são seguidos para exibir estas informações."),
    );
    r.push(String::from_str("Details"));
    r.push(labelled("Chave interna: ", row.key.as_str()));
    r.push(labelled("Diretório: ", if row.is_directory { "sim" } else { "não" }));
    assert(views(r@) =~= property_texts(*row));
    r
}

} // verus!
