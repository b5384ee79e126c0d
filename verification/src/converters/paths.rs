//! Where a conversion reads from and writes to.

use vstd::prelude::*;
use vstd::string::StringExecFns;
use crate::converters::types::{ConversionError, ConversionKind};
use crate::operations::{reserved_name, reserved_path};
use crate::path::{
    file_name, file_stem, is_absolute, join, kept, parent, path_eq, path_file_name, path_file_stem,
    path_is_absolute, path_join, path_parent, pieces, same_path,
};
use crate::text::{chars_of, extend_chars, extend_str, string_of};

verus! {

/// The source as an absolute path: kept when absolute, else joined to the
/// current directory `cwd` (`None` when it could not be read).
pub open spec fn absolute_of(source: Seq<char>, cwd: Option<Seq<char>>) -> Option<Seq<char>> {
    if is_absolute(source) {
        Some(source)
    } else {
        match cwd {
            Some(d) => Some(join(d, source)),
            None => None,
        }
    }
}

/// Makes `source` absolute against the current directory `cwd`.
pub fn absolute_source(source: &str, cwd: Option<&str>) -> (r: Result<String, ConversionError>)
    ensures
        absolute_of(source@, view_opt(cwd)) matches Some(a) ==> (r matches Ok(s) && s@
            == a),
        absolute_of(source@, view_opt(cwd)) is None ==> (r matches Err(
            ConversionError::InvalidInput { path: p, reason },
        ) && p@ == source@ && reason@ == "não foi possível determinar o diretório atual"@),
{
    let s = chars_of(source);
    if path_is_absolute(&s) {
        return Ok(String::from_str(source));
    }
    match cwd {
        Some(d) => {
            let dc = chars_of(d);
            let joined = path_join(&dc, &s);
            Ok(string_of(&joined))
        },
        None => Err(
            ConversionError::InvalidInput {
                path: String::from_str(source),
                reason: "não foi possível determinar o diretório atual",
            },
        ),
    }
}

/// The text of an optional string.
pub open spec fn view_opt(o: Option<&str>) -> Option<Seq<char>> {
    match o {
        Some(d) => Some(d@),
        None => None,
    }
}

/// `stem.ext` as a file name.
pub open spec fn dotted(stem: Seq<char>, ext: Seq<char>) -> Seq<char> {
    stem + seq!['.'] + ext
}

/// The output next to an absolute source `a`: `stem.ext` in the same
/// folder, or `stem.converted.ext` when that would be the source itself.
pub open spec fn sibling_output(a: Seq<char>, kind: ConversionKind) -> Seq<char>
    recommends
        parent(a) is Some,
        file_stem(a) is Some,
{
    sibling_output_on_disk(a, kind, false)
}

/// The output next to `a`, where `same_on_disk` tells whether the file
/// `stem.ext` already exists and is `a` itself under another spelling (as
/// on Windows, where names ignore case): then `stem.converted.ext` is used
/// too.
pub open spec fn sibling_output_on_disk(a: Seq<char>, kind: ConversionKind, same_on_disk: bool) -> Seq<
    char,
>
    recommends
        parent(a) is Some,
        file_stem(a) is Some,
{
    let dir = parent(a)->0;
    let stem = file_stem(a)->0;
    let first = join(dir, dotted(stem, kind.extension_of()));
    if same_path(first, a) || same_on_disk {
        join(dir, dotted(stem + ".converted"@, kind.extension_of()))
    } else {
        first
    }
}

/// A file's stem holds no separator.
pub proof fn lemma_stem_no_sep(a: Seq<char>)
    requires
        file_stem(a) is Some,
    ensures
        forall|k: int| 0 <= k < file_stem(a)->0.len() ==> file_stem(a)->0[k] != '/',
{
    let ks = kept(a);
    crate::path::lemma_kept_bounds(a);
    crate::path::lemma_pieces_bounds(a);
    crate::path::lemma_kept_no_sep(a, pieces(a).len() as int);
    let last = ks.last();
    let t = a.subrange(last.1, last.2);
    crate::path::lemma_last_dot_bound(t);
    let stem = file_stem(a)->0;
    assert forall|k: int| 0 <= k < stem.len() implies stem[k] != '/' by {
        assert(stem[k] == t[k]);
        assert(t[k] == a[last.1 + k]);
        assert(ks[ks.len() - 1] == last);
    }
}

/// A conversion never writes over its source: when `stem.ext` would be
/// the source itself, `stem.converted.ext` is used, and that is another
/// path.
pub proof fn law_output_is_not_source(a: Seq<char>, kind: ConversionKind)
    requires
        parent(a) is Some,
        file_stem(a) is Some,
        file_stem(a)->0.len() > 0,
    ensures
        !same_path(sibling_output(a, kind), a),
{
    let dir = parent(a)->0;
    let stem = file_stem(a)->0;
    let ext = kind.extension_of();
    reveal_strlit("jxl");
    reveal_strlit("opus");
    reveal_strlit("png");
    reveal_strlit("flac");
    reveal_strlit(".converted");
    lemma_stem_no_sep(a);
    let x = dotted(stem, ext);
    let y = dotted(stem + ".converted"@, ext);
    assert(ext.len() >= 3);
    assert forall|k: int| 0 <= k < x.len() implies x[k] != '/' by {
        if k < stem.len() {
            assert(x[k] == stem[k]);
        }
    }
    assert forall|k: int| 0 <= k < y.len() implies y[k] != '/' by {
        if k < stem.len() {
            assert(y[k] == stem[k]);
        }
    }
    assert(x.len() >= 3 && y.len() >= 3);
    assert(x != seq!['.'] && x != seq!['.', '.']);
    assert(y != seq!['.'] && y != seq!['.', '.']);
    let first = join(dir, x);
    if same_path(first, a) {
        let second = join(dir, y);
        if same_path(second, a) {
            crate::path::lemma_file_name_of_join(dir, x);
            crate::path::lemma_file_name_of_join(dir, y);
            assert(same_path(first, second));
            crate::path::lemma_same_path_same_name(first, second);
            assert(x.len() != y.len());
        }
    }
}

/// Where the conversion of `source` to `kind` is written, when the disk
/// holds no other spelling of the source under the output's name.
pub fn output_path(source: &str, cwd: Option<&str>, kind: ConversionKind) -> (r: Result<
    String,
    ConversionError,
>)
    ensures
        match absolute_of(source@, view_opt(cwd)) {
            None => r matches Err(ConversionError::InvalidInput { path: p, reason }) && p@
                == source@ && reason@ == "não foi possível determinar o diretório atual"@,
            Some(a) => if parent(a) is None {
                r matches Err(ConversionError::InvalidInput { path: p, reason }) && p@ == a
                    && reason@ == "o arquivo não possui diretório pai"@
            } else if file_stem(a) is None || file_stem(a)->0.len() == 0 {
                r matches Err(ConversionError::InvalidInput { path: p, reason }) && p@ == a
                    && reason@ == "o arquivo não possui nome compatível"@
            } else {
                r matches Ok(d) && d@ == sibling_output(a, kind)
            },
        },
{
    output_path_on_disk(source, cwd, kind, false)
}

/// Where the conversion of `source` to `kind` is written. `same_on_disk`
/// tells whether the output `output_path` names already exists and is
/// the source itself (a probe of the disk, made on Windows).
pub fn output_path_on_disk(source: &str, cwd: Option<&str>, kind: ConversionKind, same_on_disk: bool) -> (r: Result<
    String,
    ConversionError,
>)
    ensures
        match absolute_of(source@, view_opt(cwd)) {
            None => r matches Err(ConversionError::InvalidInput { path: p, reason }) && p@
                == source@ && reason@ == "não foi possível determinar o diretório atual"@,
            Some(a) => if parent(a) is None {
                r matches Err(ConversionError::InvalidInput { path: p, reason }) && p@ == a
                    && reason@ == "o arquivo não possui diretório pai"@
            } else if file_stem(a) is None || file_stem(a)->0.len() == 0 {
                r matches Err(ConversionError::InvalidInput { path: p, reason }) && p@ == a
                    && reason@ == "o arquivo não possui nome compatível"@
            } else {
                r matches Ok(d) && d@ == sibling_output_on_disk(a, kind, same_on_disk)
            },
        },
{
    let a = absolute_source(source, cwd)?;
    let ac = chars_of(a.as_str());
    let dir = match path_parent(&ac) {
        Some(dir) => dir,
        None => {
            return Err(
                ConversionError::InvalidInput {
                    path: a,
                    reason: "o arquivo não possui diretório pai",
                },
            );
        },
    };
    let stem = match path_file_stem(&ac) {
        Some(stem) => stem,
        None => {
            return Err(
                ConversionError::InvalidInput {
                    path: a,
                    reason: "o arquivo não possui nome compatível",
                },
            );
        },
    };
    if stem.len() == 0 {
        return Err(
            ConversionError::InvalidInput { path: a, reason: "o arquivo não possui nome compatível" },
        );
    }
    let ext = kind.extension();
    let mut leaf: Vec<char> = Vec::new();
    extend_chars(&mut leaf, &stem);
    leaf.push('.');
    extend_str(&mut leaf, ext);
    assert(leaf@ =~= dotted(stem@, kind.extension_of()));
    let first = path_join(&dir, &leaf);
    if path_eq(&first, &ac) || same_on_disk {
        let mut other: Vec<char> = Vec::new();
        extend_chars(&mut other, &stem);
        extend_str(&mut other, ".converted");
        other.push('.');
        extend_str(&mut other, ext);
        assert(other@ =~= dotted(stem@ + ".converted"@, kind.extension_of()));
        let second = path_join(&dir, &other);
        Ok(string_of(&second))
    } else {
        Ok(string_of(&first))
    }
}

/// The hidden file name tried at `attempt` while encoding to `destination`.
pub fn temporary_path(destination: &str, pid: u32, timestamp: u128, attempt: u32) -> (r: Result<
    String,
    ConversionError,
>)
    requires
        timestamp + attempt <= u128::MAX,
    ensures
        parent(destination@) is None ==> (r matches Err(
            ConversionError::InvalidInput { path: p, reason },
        ) && p@ == destination@ && reason@ == "a saída não possui diretório pai"@),
        parent(destination@) is Some && file_name(destination@) is None ==> (r matches Err(
            ConversionError::InvalidInput { path: p, reason },
        ) && p@ == destination@ && reason@ == "a saída não possui nome válido"@),
        parent(destination@) is Some && file_name(destination@) is Some ==> (r matches Ok(t)
            && t@ == join(
            parent(destination@)->0,
            reserved_name(
                file_name(destination@)->0,
                "rovex-convert"@,
                pid,
                (timestamp + attempt) as nat,
            ),
        )),
{
    let d = chars_of(destination);
    let dir = match path_parent(&d) {
        Some(dir) => dir,
        None => {
            return Err(
                ConversionError::InvalidInput {
                    path: String::from_str(destination),
                    reason: "a saída não possui diretório pai",
                },
            );
        },
    };
    let name = match path_file_name(&d) {
        Some(name) => name,
        None => {
            return Err(
                ConversionError::InvalidInput {
                    path: String::from_str(destination),
                    reason: "a saída não possui nome válido",
                },
            );
        },
    };
    let p = reserved_path(&dir, &name, "rovex-convert", pid, timestamp + attempt as u128);
    Ok(string_of(&p))
}

/// The error once no temporary name near `destination` was free.
pub fn temporary_exhausted(destination: &str) -> (r: ConversionError)
    ensures
        r matches ConversionError::InvalidInput { path: p, reason } && p@ == destination@
            && reason@ == "não foi possível reservar um arquivo temporário"@,
{
    ConversionError::InvalidInput {
        path: String::from_str(destination),
        reason: "não foi possível reservar um arquivo temporário",
    }
}

/// How many names are tried when a temporary output is reserved.
pub const TEMPORARY_ATTEMPTS: u32 = 32;

/// What follows an attempt to create the placeholder of a temporary.
#[derive(Debug, Clone, Copy, PartialEq, Eq, Structural)]
pub enum ReserveStep {
    /// The placeholder was created: the name is reserved.
    Reserved,
    /// The name was taken: try this attempt number.
    Retry(u32),
    /// Every name tried was taken: `temporary_exhausted`.
    Exhausted,
    /// The placeholder could not be created for another reason: that
    /// failure ends the reservation.
    Failed,
}

/// Decides after attempt `attempt` whose placeholder was `created`, or
/// not because the name was already `taken` (or for another reason).
pub fn after_reservation(attempt: u32, created: bool, taken: bool) -> (r: ReserveStep)
    requires
        attempt < TEMPORARY_ATTEMPTS,
    ensures
        created ==> r == ReserveStep::Reserved,
        !created && taken && attempt + 1 < TEMPORARY_ATTEMPTS ==> r == ReserveStep::Retry(
            (attempt + 1) as u32,
        ),
        !created && taken && attempt + 1 == TEMPORARY_ATTEMPTS ==> r == ReserveStep::Exhausted,
        !created && !taken ==> r == ReserveStep::Failed,
{
    if created {
        ReserveStep::Reserved
    } else if !taken {
        ReserveStep::Failed
    } else if attempt + 1 < TEMPORARY_ATTEMPTS {
        ReserveStep::Retry(attempt + 1)
    } else {
        ReserveStep::Exhausted
    }
}

} // verus!
