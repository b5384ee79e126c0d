//! Directory entries, the errors of reading a folder, and the order in
//! which a listing presents its entries.

use vstd::prelude::*;
use crate::text::chars_of;
use vstd::string::StringExecFns;
use vstd::multiset::Multiset;
use crate::desktop::sorting::{bool_order, lex, lex_chars, Order};
use crate::text::{extend_str, lowercase_chars, string_of, unicode_lower};

verus! {

broadcast use vstd::seq_lib::group_to_multiset_ensures;

/// What an entry is, read without following links.
#[derive(Clone, Copy, PartialEq, Eq, Structural, Debug)]
pub enum EntryKind {
    File,
    Directory,
    Symlink,
    Other,
}

/// The kind of an operating-system error, as `std::io::ErrorKind` names
/// it; `Other` carries the name of any kind not listed.
#[derive(Debug)]
pub enum IoErrorKind {
    NotFound,
    PermissionDenied,
    AlreadyExists,
    InvalidInput,
    InvalidFilename,
    DirectoryNotEmpty,
    CrossesDevices,
    InvalidData,
    Other(String),
}

impl IoErrorKind {
    /// The name `Debug` prints for this kind.
    pub open spec fn name_of(&self) -> Seq<char> {
        match self {
            IoErrorKind::NotFound => "NotFound"@,
            IoErrorKind::PermissionDenied => "PermissionDenied"@,
            IoErrorKind::AlreadyExists => "AlreadyExists"@,
            IoErrorKind::InvalidInput => "InvalidInput"@,
            IoErrorKind::InvalidFilename => "InvalidFilename"@,
            IoErrorKind::DirectoryNotEmpty => "DirectoryNotEmpty"@,
            IoErrorKind::CrossesDevices => "CrossesDevices"@,
            IoErrorKind::InvalidData => "InvalidData"@,
            IoErrorKind::Other(name) => name@,
        }
    }

    /// The name `Debug` prints for this kind.
    pub fn debug_name(&self) -> (r: String)
        ensures
            r@ == self.name_of(),
    {
        match self {
            IoErrorKind::NotFound => String::from_str("NotFound"),
            IoErrorKind::PermissionDenied => String::from_str("PermissionDenied"),
            IoErrorKind::AlreadyExists => String::from_str("AlreadyExists"),
            IoErrorKind::InvalidInput => String::from_str("InvalidInput"),
            IoErrorKind::InvalidFilename => String::from_str("InvalidFilename"),
            IoErrorKind::DirectoryNotEmpty => String::from_str("DirectoryNotEmpty"),
            IoErrorKind::CrossesDevices => String::from_str("CrossesDevices"),
            IoErrorKind::InvalidData => String::from_str("InvalidData"),
            IoErrorKind::Other(name) => name.clone(),
        }
    }

    /// A copy of this kind.
    pub fn duplicate(&self) -> (r: IoErrorKind)
        ensures
            r == *self,
    {
        match self {
            IoErrorKind::NotFound => IoErrorKind::NotFound,
            IoErrorKind::PermissionDenied => IoErrorKind::PermissionDenied,
            IoErrorKind::AlreadyExists => IoErrorKind::AlreadyExists,
            IoErrorKind::InvalidInput => IoErrorKind::InvalidInput,
            IoErrorKind::InvalidFilename => IoErrorKind::InvalidFilename,
            IoErrorKind::DirectoryNotEmpty => IoErrorKind::DirectoryNotEmpty,
            IoErrorKind::CrossesDevices => IoErrorKind::CrossesDevices,
            IoErrorKind::InvalidData => IoErrorKind::InvalidData,
            IoErrorKind::Other(name) => IoErrorKind::Other(name.clone()),
        }
    }
}

/// One entry of a folder. Times are nanoseconds from the Unix epoch;
/// `is_hidden` and `is_system` are the marks the platform gives the entry.
#[derive(Debug)]
pub struct DirectoryEntry {
    pub path: String,
    pub name: String,
    pub kind: EntryKind,
    pub size: Option<u64>,
    pub modified: Option<i128>,
    pub created: Option<i128>,
    pub accessed: Option<i128>,
    pub is_hidden: bool,
    pub is_system: bool,
}

/// The kind of an entry from its file type, read without following links.
pub open spec fn kind_of(is_symlink: bool, is_dir: bool, is_file: bool) -> EntryKind {
    if is_symlink {
        EntryKind::Symlink
    } else if is_dir {
        EntryKind::Directory
    } else if is_file {
        EntryKind::File
    } else {
        EntryKind::Other
    }
}

/// The kind of an entry from its file type, read without following links.
pub fn entry_kind(is_symlink: bool, is_dir: bool, is_file: bool) -> (r: EntryKind)
    ensures
        r == kind_of(is_symlink, is_dir, is_file),
{
    if is_symlink {
        EntryKind::Symlink
    } else if is_dir {
        EntryKind::Directory
    } else if is_file {
        EntryKind::File
    } else {
        EntryKind::Other
    }
}

impl DirectoryEntry {
    /// The entry described by what the disk says of it: the size is kept
    /// for regular files only.
    pub fn from_metadata(
        path: String,
        name: String,
        is_symlink: bool,
        is_dir: bool,
        is_file: bool,
        len: u64,
        modified: Option<i128>,
        created: Option<i128>,
        accessed: Option<i128>,
        is_hidden: bool,
        is_system: bool,
    ) -> (r: DirectoryEntry)
        ensures
            r.path == path,
            r.name == name,
            r.kind == kind_of(is_symlink, is_dir, is_file),
            r.size == (if r.kind == EntryKind::File {
                Some(len)
            } else {
                None::<u64>
            }),
            r.modified == modified,
            r.created == created,
            r.accessed == accessed,
            r.is_hidden == is_hidden,
            r.is_system == is_system,
    {
        let kind = entry_kind(is_symlink, is_dir, is_file);
        let size = if kind == EntryKind::File {
            Some(len)
        } else {
            None
        };
        DirectoryEntry {
            path,
            name,
            kind,
            size,
            modified,
            created,
            accessed,
            is_hidden,
            is_system,
        }
    }

    /// The name as shown.
    pub fn display_name(&self) -> (r: String)
        ensures
            r@ == self.name@,
    {
        self.name.clone()
    }
}

/// Why a folder could not be read.
#[derive(Debug)]
pub enum FileSystemError {
    NotFound { path: String },
    NotDirectory { path: String },
    AccessDenied { path: String },
    InvalidPath { path: String, reason: &'static str },
    Io { operation: &'static str, path: String, kind: IoErrorKind, raw_os_error: Option<i32> },
}

impl FileSystemError {
    /// Classifies an operating-system error met while doing `operation` on
    /// `path`: missing and forbidden paths get their own variants.
    pub fn from_io(
        operation: &'static str,
        path: &str,
        kind: IoErrorKind,
        raw_os_error: Option<i32>,
    ) -> (r: FileSystemError)
        ensures
            r == (match kind {
                IoErrorKind::NotFound => FileSystemError::NotFound { path: r->NotFound_path },
                IoErrorKind::PermissionDenied => FileSystemError::AccessDenied {
                    path: r->AccessDenied_path,
                },
                _ => FileSystemError::Io {
                    operation,
                    path: r->Io_path,
                    kind,
                    raw_os_error,
                },
            }),
            r.path_of() == path@,
    {
        let path = String::from_str(path);
        match kind {
            IoErrorKind::NotFound => FileSystemError::NotFound { path },
            IoErrorKind::PermissionDenied => FileSystemError::AccessDenied { path },
            kind => FileSystemError::Io { operation, path, kind, raw_os_error },
        }
    }

    /// The path the error is about.
    pub open spec fn path_of(&self) -> Seq<char> {
        match self {
            FileSystemError::NotFound { path } => path@,
            FileSystemError::NotDirectory { path } => path@,
            FileSystemError::AccessDenied { path } => path@,
            FileSystemError::InvalidPath { path, .. } => path@,
            FileSystemError::Io { path, .. } => path@,
        }
    }

    /// The message shown for this error.
    pub open spec fn text_of(&self) -> Seq<char> {
        match self {
            FileSystemError::NotFound { path } => "caminho não encontrado: "@ + path@,
            FileSystemError::NotDirectory { path } => "não é um diretório: "@ + path@,
            FileSystemError::AccessDenied { path } => "acesso negado: "@ + path@,
            FileSystemError::InvalidPath { path, reason } => "caminho inválido ("@ + reason@
                + "): "@ + path@,
            FileSystemError::Io { operation, path, kind, .. } => "não foi possível "@
                + operation@ + " em "@ + path@ + ": "@ + reason_of(*kind),
        }
    }

    /// The message shown for this error.
    pub fn message(&self) -> (r: String)
        ensures
            r@ == self.text_of(),
    {
        let mut out: Vec<char> = Vec::new();
        match self {
            FileSystemError::NotFound { path } => {
                extend_str(&mut out, "caminho não encontrado: ");
                extend_str(&mut out, path.as_str());
            },
            FileSystemError::NotDirectory { path } => {
                extend_str(&mut out, "não é um diretório: ");
                extend_str(&mut out, path.as_str());
            },
            FileSystemError::AccessDenied { path } => {
                extend_str(&mut out, "acesso negado: ");
                extend_str(&mut out, path.as_str());
            },
            FileSystemError::InvalidPath { path, reason } => {
                extend_str(&mut out, "caminho inválido (");
                extend_str(&mut out, reason);
                extend_str(&mut out, "): ");
                extend_str(&mut out, path.as_str());
            },
            FileSystemError::Io { operation, path, kind, .. } => {
                extend_str(&mut out, "não foi possível ");
                extend_str(&mut out, operation);
                extend_str(&mut out, " em ");
                extend_str(&mut out, path.as_str());
                extend_str(&mut out, ": ");
                extend_str(&mut out, human_io_reason(kind));
            },
        }
        proof {
            assert(out@ =~= self.text_of());
        }
        string_of(&out)
    }
}

/// A short human reason for an error kind.
pub open spec fn reason_of(kind: IoErrorKind) -> Seq<char> {
    match kind {
        IoErrorKind::NotFound => "o caminho não foi encontrado"@,
        IoErrorKind::PermissionDenied => "o acesso foi negado"@,
        IoErrorKind::AlreadyExists => "o destino já existe"@,
        IoErrorKind::InvalidInput => "o caminho não é válido"@,
        IoErrorKind::InvalidFilename => "o caminho não é válido"@,
        IoErrorKind::DirectoryNotEmpty => "o diretório não está vazio"@,
        _ => "ocorreu um erro de sistema"@,
    }
}

/// A short human reason for an error kind.
pub fn human_io_reason(kind: &IoErrorKind) -> (r: &'static str)
    ensures
        r@ == reason_of(*kind),
{
    match kind {
        IoErrorKind::NotFound => "o caminho não foi encontrado",
        IoErrorKind::PermissionDenied => "o acesso foi negado",
        IoErrorKind::AlreadyExists => "o destino já existe",
        IoErrorKind::InvalidInput => "o caminho não é válido",
        IoErrorKind::InvalidFilename => "o caminho não é válido",
        IoErrorKind::DirectoryNotEmpty => "o diretório não está vazio",
        _ => "ocorreu um erro de sistema",
    }
}

/// Listing order of two entries: folders first, then by lower-cased name.
pub open spec fn entry_order(a: DirectoryEntry, b: DirectoryEntry) -> Order {
    let ad = a.kind == EntryKind::Directory;
    let bd = b.kind == EntryKind::Directory;
    if ad != bd {
        bool_order(bd, ad)
    } else {
        lex(unicode_lower(a.name@), unicode_lower(b.name@))
    }
}

/// Entries in listing order.
pub open spec fn entries_sorted(s: Seq<DirectoryEntry>) -> bool {
    forall|i: int, j: int|
        0 <= i < j < s.len() ==> entry_order(#[trigger] s[i], #[trigger] s[j]) != Order::Greater
}

/// A listing shows every folder before every other entry.
pub proof fn law_listing_folders_first(s: Seq<DirectoryEntry>, i: int, j: int)
    requires
        entries_sorted(s),
        0 <= i < j < s.len(),
        s[j].kind == EntryKind::Directory,
    ensures
        s[i].kind == EntryKind::Directory,
{
    assert(entry_order(s[i], s[j]) != Order::Greater);
}

/// Which marked entries a listing shows. By default neither hidden nor
/// system entries are shown.
#[derive(Debug, Clone, Copy, PartialEq, Eq, Structural)]
pub struct ListingOptions {
    pub show_hidden: bool,
    pub show_system: bool,
}

impl Default for ListingOptions {
    fn default() -> (r: Self)
        ensures
            !r.show_hidden && !r.show_system,
    {
        ListingOptions { show_hidden: false, show_system: false }
    }
}

/// A name hidden by convention on Unix: it starts with a dot.
pub open spec fn dot_name(name: Seq<char>) -> bool {
    name.len() > 0 && name[0] == '.'
}

/// Whether `name` starts with a dot.
pub fn is_dot_name(name: &str) -> (r: bool)
    ensures
        r == dot_name(name@),
{
    let c = chars_of(name);
    c.len() > 0 && c[0] == '.'
}

/// The entry is listed under `options`: hidden entries only when hidden
/// ones are shown, system entries only when system ones are.
pub open spec fn shown(e: DirectoryEntry, options: ListingOptions) -> bool {
    (!e.is_hidden || options.show_hidden) && (!e.is_system || options.show_system)
}

/// The entries of `s` that are listed, in order.
pub open spec fn shown_entries(s: Seq<DirectoryEntry>, options: ListingOptions) -> Seq<DirectoryEntry>
    decreases s.len(),
{
    if s.len() == 0 {
        Seq::empty()
    } else if shown(s.last(), options) {
        shown_entries(s.drop_last(), options).push(s.last())
    } else {
        shown_entries(s.drop_last(), options)
    }
}

/// The folder reader.
#[derive(Debug, Clone, Copy)]
pub struct FileSystem;

impl FileSystem {
    /// A listing needs a path: an empty one is refused before any call.
    pub fn check_listing_path(&self, path: &str) -> (r: Result<(), FileSystemError>)
        ensures
            path@.len() == 0 ==> (r matches Err(FileSystemError::InvalidPath { path: p, reason })
                && p@ == path@ && reason@ == "vazio"@),
            path@.len() > 0 ==> r is Ok,
    {
        if path.unicode_len() == 0 {
            Err(FileSystemError::InvalidPath { path: String::from_str(path), reason: "vazio" })
        } else {
            Ok(())
        }
    }

    /// A listing reads folders only, as the path's own metadata tells.
    pub fn check_is_directory(&self, path: &str, is_dir: bool) -> (r: Result<(), FileSystemError>)
        ensures
            !is_dir ==> (r matches Err(FileSystemError::NotDirectory { path: p }) && p@ == path@),
            is_dir ==> r is Ok,
    {
        if is_dir {
            Ok(())
        } else {
            Err(FileSystemError::NotDirectory { path: String::from_str(path) })
        }
    }

    /// Keeps the entries that `options` lists, in their order.
    pub fn filter_entries(&self, entries: Vec<DirectoryEntry>, options: ListingOptions) -> (r: Vec<
        DirectoryEntry,
    >)
        ensures
            r@ == shown_entries(entries@, options),
    {
        let mut input = entries;
        let ghost initial = input@;
        let mut out: Vec<DirectoryEntry> = Vec::new();
        assert(initial.take(0) =~= Seq::<DirectoryEntry>::empty());
        while input.len() > 0
            invariant
                input@.len() <= initial.len(),
                input@ == initial.skip(initial.len() - input@.len()),
                out@ == shown_entries(initial.take(initial.len() - input@.len()), options),
            decreases input@.len(),
        {
            let ghost before = input@;
            let ghost done = initial.len() - before.len();
            let e = input.remove(0);
            proof {
                assert(before == initial.skip(done));
                assert(e == initial[done]);
                assert(input@ =~= initial.skip(done + 1));
                assert(initial.take(done + 1).drop_last() =~= initial.take(done));
                assert(initial.take(done + 1).last() == e);
            }
            if e.is_hidden && !options.show_hidden || e.is_system && !options.show_system {
            } else {
                out.push(e);
            }
        }
        assert(initial.take(initial.len() as int) =~= initial);
        out
    }

    /// Puts the entries of a folder in listing order: folders before the
    /// rest, each group by name ignoring case.
    pub fn order_entries(&self, entries: Vec<DirectoryEntry>) -> (r: Vec<DirectoryEntry>)
        ensures
            r@.to_multiset() == entries@.to_multiset(),
            entries_sorted(r@),
            exists|origin: Seq<int>| kept_in_order(r@, entries@, origin),
    {
        let mut input = entries;
        let ghost initial = input@;
        let mut out: Vec<DirectoryEntry> = Vec::new();
        let mut names: Vec<Vec<char>> = Vec::new();
        let ghost mut origin: Seq<int> = Seq::empty();
        assert(initial.skip(0) =~= initial);
        while input.len() > 0
            invariant
                input@.len() <= initial.len(),
                input@ == initial.skip(initial.len() - input@.len()),
                kept_in_order(out@, initial, origin),
                forall|k: int| 0 <= k < origin.len() ==> #[trigger] origin[k] < initial.len() - input@.len(),
                out@.len() == names@.len(),
                forall|k: int|
                    0 <= k < names@.len() ==> (#[trigger] names@[k])@ == unicode_lower(out@[k].name@),
                out@.to_multiset().add(input@.to_multiset()) == initial.to_multiset(),
                entries_sorted(out@),
            decreases input@.len(),
        {
            let ghost before = input@;
            let ghost taken = initial.len() - before.len();
            let entry = input.remove(0);
            proof {
                assert(before == initial.skip(taken));
                assert(0 <= taken < initial.len());
                assert(initial[taken] == before[0]);
                assert(initial.skip(taken + 1) =~= before.drop_first());
                assert(before.drop_first() =~= input@);
                assert(before =~= seq![entry] + input@);
                assert(before.to_multiset() =~= input@.to_multiset().insert(entry)) by {
                    assert(before.remove(0) =~= input@);
                    assert(before.to_multiset().remove(entry) == input@.to_multiset());
                }
            }
            let name = lowercase_chars(entry.name.as_str());
            let is_dir = entry.kind == EntryKind::Directory;
            let mut lo: usize = 0;
            let mut hi: usize = out.len();
            while lo < hi
                invariant
                    lo <= hi <= out@.len(),
                    out@.len() == names@.len(),
                    forall|k: int|
                        0 <= k < names@.len() ==> (#[trigger] names@[k])@ == unicode_lower(
                            out@[k].name@,
                        ),
                    name@ == unicode_lower(entry.name@),
                    is_dir == (entry.kind == EntryKind::Directory),
                    entries_sorted(out@),
                    forall|k: int|
                        0 <= k < lo ==> entry_order(#[trigger] out@[k], entry) != Order::Greater,
                    forall|k: int|
                        hi <= k < out@.len() ==> entry_order(#[trigger] out@[k], entry)
                            == Order::Greater,
                decreases hi - lo,
            {
                let mid = lo + (hi - lo) / 2;
                let mid_dir = out[mid].kind == EntryKind::Directory;
                let c = if mid_dir != is_dir {
                    if mid_dir {
                        Order::Less
                    } else {
                        Order::Greater
                    }
                } else {
                    lex_chars(&names[mid], &name)
                };
                assert(c == entry_order(out@[mid as int], entry));
                if c == Order::Greater {
                    proof {
                        assert forall|k: int| mid <= k < out@.len() implies entry_order(
                            #[trigger] out@[k],
                            entry,
                        ) == Order::Greater by {
                            if k > mid {
                                lemma_entry_chain(out@[mid as int], out@[k], entry);
                                assert(entry_order(out@[mid as int], out@[k]) != Order::Greater);
                            }
                        }
                    }
                    hi = mid;
                } else {
                    proof {
                        assert forall|k: int| 0 <= k <= mid implies entry_order(
                            #[trigger] out@[k],
                            entry,
                        ) != Order::Greater by {
                            if k < mid {
                                lemma_entry_chain(out@[k], out@[mid as int], entry);
                                assert(entry_order(out@[k], out@[mid as int]) != Order::Greater);
                            }
                        }
                    }
                    lo = mid + 1;
                }
            }
            let ghost old_out = out@;
            let ghost old_names = names@;
            let ghost old_origin = origin;
            proof {
                lemma_insert_entry(old_out, lo as int, entry);
                lemma_insert_keeps_order(old_out, initial, old_origin, lo as int, entry, taken);
                origin = old_origin.insert(lo as int, taken);
            }
            out.insert(lo, entry);
            names.insert(lo, name);
            proof {
                assert(out@ == old_out.insert(lo as int, entry));
                assert(names@ == old_names.insert(lo as int, name));
                assert forall|k: int| 0 <= k < names@.len() implies (#[trigger] names@[k])@
                    == unicode_lower(out@[k].name@) by {
                    if k < lo {
                        assert(names@[k] == old_names[k]);
                    } else if k > lo {
                        assert(names@[k] == old_names[k - 1]);
                    }
                }
                assert(out@.to_multiset() == old_out.to_multiset().insert(entry));
                assert(out@.to_multiset().add(input@.to_multiset()) =~= old_out.to_multiset().add(
                    before.to_multiset(),
                ));
            }
        }
        proof {
            assert(input@.to_multiset() =~= Multiset::<DirectoryEntry>::empty());
            assert(out@.to_multiset().add(input@.to_multiset()) =~= out@.to_multiset());
            assert(kept_in_order(out@, initial, origin));
        }
        out
    }
}

/// `out` takes each of its entries from `input` at the index `origin`
/// gives, and entries that order equally keep their order in `input`.
pub open spec fn kept_in_order(out: Seq<DirectoryEntry>, input: Seq<DirectoryEntry>, origin: Seq<int>) -> bool {
    &&& origin.len() == out.len()
    &&& forall|k: int| 0 <= k < out.len() ==> 0 <= #[trigger] origin[k] < input.len() && out[k] == input[origin[k]]
    &&& forall|a: int, b: int|
        0 <= a < b < out.len() && entry_order(#[trigger] out[a], #[trigger] out[b]) == Order::Equal
            ==> origin[a] < origin[b]
}

/// Inserting an entry taken after all others, behind every entry that
/// does not order after it, keeps equal entries in order.
pub proof fn lemma_insert_keeps_order(
    out: Seq<DirectoryEntry>,
    input: Seq<DirectoryEntry>,
    origin: Seq<int>,
    lo: int,
    e: DirectoryEntry,
    taken: int,
)
    requires
        kept_in_order(out, input, origin),
        0 <= lo <= out.len(),
        0 <= taken < input.len(),
        input[taken] == e,
        forall|k: int| 0 <= k < origin.len() ==> #[trigger] origin[k] < taken,
        forall|k: int| lo <= k < out.len() ==> entry_order(#[trigger] out[k], e) == Order::Greater,
    ensures
        kept_in_order(out.insert(lo, e), input, origin.insert(lo, taken)),
        forall|k: int| 0 <= k < origin.insert(lo, taken).len() ==> #[trigger] origin.insert(lo, taken)[k] < taken + 1,
{
    let o2 = out.insert(lo, e);
    let g2 = origin.insert(lo, taken);
    assert forall|k: int| 0 <= k < o2.len() implies 0 <= #[trigger] g2[k] < input.len() && o2[k] == input[g2[k]] by {
        if k < lo {
            assert(g2[k] == origin[k] && o2[k] == out[k]);
        } else if k > lo {
            assert(g2[k] == origin[k - 1] && o2[k] == out[k - 1]);
        }
    }
    assert forall|a: int, b: int|
        0 <= a < b < o2.len() && entry_order(#[trigger] o2[a], #[trigger] o2[b]) == Order::Equal
            implies g2[a] < g2[b] by {
        if a == lo {
            assert(o2[b] == out[b - 1]);
            assert(entry_order(out[b - 1], e) == Order::Greater);
            lemma_entry_chain(e, out[b - 1], e);
        } else if b == lo {
            assert(g2[a] == origin[a]);
        } else {
            let oa = if a < lo { a } else { a - 1 };
            let ob = if b < lo { b } else { b - 1 };
            assert(o2[a] == out[oa] && o2[b] == out[ob]);
            assert(g2[a] == origin[oa] && g2[b] == origin[ob]);
        }
    }
    assert forall|k: int| 0 <= k < g2.len() implies #[trigger] g2[k] < taken + 1 by {
        if k < lo {
            assert(g2[k] == origin[k]);
        } else if k > lo {
            assert(g2[k] == origin[k - 1]);
        }
    }
}

pub proof fn lemma_entry_chain(a: DirectoryEntry, b: DirectoryEntry, c: DirectoryEntry)
    ensures
        entry_order(a, b) != Order::Greater && entry_order(b, c) != Order::Greater ==> entry_order(
            a,
            c,
        ) != Order::Greater,
        entry_order(a, b) == flip_of(entry_order(b, a)),
{
    crate::desktop::sorting::lemma_lex_chain(
        unicode_lower(a.name@),
        unicode_lower(b.name@),
        unicode_lower(c.name@),
    );
    crate::desktop::sorting::lemma_lex_flip(unicode_lower(a.name@), unicode_lower(b.name@));
}

pub open spec fn flip_of(o: Order) -> Order {
    crate::desktop::sorting::flip(o)
}

pub proof fn lemma_insert_entry(s: Seq<DirectoryEntry>, lo: int, e: DirectoryEntry)
    requires
        0 <= lo <= s.len(),
        entries_sorted(s),
        forall|k: int| 0 <= k < lo ==> entry_order(#[trigger] s[k], e) != Order::Greater,
        forall|k: int| lo <= k < s.len() ==> entry_order(#[trigger] s[k], e) == Order::Greater,
    ensures
        entries_sorted(s.insert(lo, e)),
{
    let out = s.insert(lo, e);
    assert forall|i: int, j: int| 0 <= i < j < out.len() implies entry_order(
        #[trigger] out[i],
        #[trigger] out[j],
    ) != Order::Greater by {
        if i == lo {
            lemma_entry_chain(e, s[j - 1], e);
        } else if j == lo {
        } else if i < lo && j < lo {
            assert(entry_order(s[i], s[j]) != Order::Greater);
        } else if i < lo && j > lo {
            assert(entry_order(s[i], s[j - 1]) != Order::Greater);
        } else {
            assert(entry_order(s[i - 1], s[j - 1]) != Order::Greater);
        }
    }
}

} // verus!
