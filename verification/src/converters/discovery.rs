//! Places where Windows records installed programs, turned into
//! candidates for the encoder: the `App Paths` registrations and the
//! folders of WinGet packages. The caller reads the registry and the
//! folders; what is offered, and in which order, is decided here.

use vstd::prelude::*;
use crate::converters::backend::{
    char_runs, dir_names, dirs_names, join_all, join_parts, lemma_offer_all_concat, offer_all,
    path_or_dir,
    push_directory_candidates, push_directory_list, push_path_or_directory_candidates, views,
};
use crate::path::{join, path_join_str, slice_chars};
use crate::text::{
    chars_of, contains_chars, extend_chars, has_infix, lower_ascii, string_of, to_lower_ascii,
};

verus! {

/// `v` without one pair of surrounding double quotes, when it has both.
pub open spec fn unquote(v: Seq<char>) -> Seq<char> {
    if v.len() >= 2 && v[0] == '"' && v[v.len() - 1] == '"' {
        v.subrange(1, v.len() - 1)
    } else {
        v
    }
}

/// Takes off one pair of surrounding double quotes, when there are both.
pub fn unquoted(v: &[char]) -> (r: Vec<char>)
    ensures
        r@ == unquote(v@),
{
    let n = v.len();
    if n >= 2 && v[0] == '"' && v[n - 1] == '"' {
        slice_chars(v, 1, n - 1)
    } else {
        let mut out: Vec<char> = Vec::new();
        extend_chars(&mut out, v);
        assert(out@ =~= v@);
        out
    }
}

/// What one `App Paths` key holds for the executable, under one registry
/// root and one view of it: its default value, the command, and its
/// `Path` value split into folders.
#[derive(Debug, Clone)]
pub struct AppPathRecord {
    pub command: Option<String>,
    pub search_path: Vec<String>,
}

/// Candidates from the command of a record.
pub open spec fn command_part(command: Option<String>, exe: Seq<char>) -> Seq<Seq<char>> {
    match command {
        Some(c) => path_or_dir(unquote(c@), exe),
        None => Seq::empty(),
    }
}

/// Candidates from one record: its command, unquoted, as the executable
/// or its folder, then the names inside each folder of its `Path`.
pub open spec fn record_part(r: AppPathRecord, exe: Seq<char>) -> Seq<Seq<char>> {
    command_part(r.command, exe) + dirs_names(views(r.search_path@), exe)
}

/// Candidates from the records, record by record.
pub open spec fn records_part(rs: Seq<AppPathRecord>, exe: Seq<char>) -> Seq<Seq<char>>
    decreases rs.len(),
{
    if rs.len() == 0 {
        Seq::empty()
    } else {
        records_part(rs.drop_last(), exe) + record_part(rs.last(), exe)
    }
}

/// The candidates that the `App Paths` records give for `executable`, in
/// order and without repeats.
pub fn app_path_entries(records: &Vec<AppPathRecord>, executable: &str) -> (r: Vec<String>)
    ensures
        views(r@) == offer_all(Seq::empty(), records_part(records@, executable@)),
{
    let ghost exe = executable@;
    let ghost empty = Seq::<Seq<char>>::empty();
    let mut candidates: Vec<String> = Vec::new();
    assert(views(candidates@) =~= empty);
    let mut i: usize = 0;
    while i < records.len()
        invariant
            exe == executable@,
            empty == Seq::<Seq<char>>::empty(),
            i <= records@.len(),
            views(candidates@) == offer_all(empty, records_part(records@.take(i as int), exe)),
        decreases records@.len() - i,
    {
        let ghost before = views(candidates@);
        let record = &records[i];
        let ghost a = command_part(record.command, exe);
        match &record.command {
            Some(c) => {
                let cc = chars_of(c.as_str());
                let u = unquoted(&cc);
                push_path_or_directory_candidates(&mut candidates, &u, executable);
            },
            None => {},
        }
        assert(views(candidates@) == offer_all(before, a));
        let dirs = char_runs(&record.search_path);
        push_directory_list(&mut candidates, &dirs, executable);
        proof {
            let b = dirs_names(views(record.search_path@), exe);
            lemma_offer_all_concat(before, a, b);
            let t = records@.take(i as int);
            let t1 = records@.take(i + 1);
            assert(t1.drop_last() =~= t);
            assert(t1.last() == records@[i as int]);
            lemma_offer_all_concat(empty, records_part(t, exe), a + b);
            assert(records_part(t1, exe) =~= records_part(t, exe) + (a + b));
        }
        i = i + 1;
    }
    assert(records@.take(records@.len() as int) =~= records@);
    candidates
}

/// How many entries of a WinGet packages folder are looked at.
pub const MAX_PACKAGES: usize = 64;

/// How many entries of one package folder are looked at.
pub const MAX_VERSIONS_PER_PACKAGE: usize = 16;

/// An entry inside a WinGet package folder.
#[derive(Debug, Clone)]
pub struct VersionFolder {
    pub path: String,
    pub is_directory: bool,
}

/// An entry of a WinGet packages folder: its path, its file name, whether
/// it is a folder, and the entries inside it in the order the folder was
/// read (none when it could not be read).
#[derive(Debug, Clone)]
pub struct PackageFolder {
    pub path: String,
    pub name: String,
    pub is_directory: bool,
    pub versions: Vec<VersionFolder>,
}

/// The first `n` items of `s`, or all of them when there are fewer.
pub open spec fn at_most<T>(s: Seq<T>, n: int) -> Seq<T> {
    if s.len() <= n {
        s
    } else {
        s.take(n)
    }
}

/// A package of the encoder: a folder whose name, in ASCII lower case,
/// holds `ffmpeg`.
pub open spec fn is_encoder_package(p: PackageFolder) -> bool {
    p.is_directory && has_infix(lower_ascii(p.name@), "ffmpeg"@)
}

/// Candidates in one version folder: in it and in its `bin`.
pub open spec fn version_part(v: VersionFolder, exe: Seq<char>) -> Seq<Seq<char>> {
    if v.is_directory {
        dir_names(v.path@, exe) + dir_names(join(v.path@, "bin"@), exe)
    } else {
        Seq::empty()
    }
}

/// Candidates in version folders, folder by folder.
pub open spec fn versions_part(vs: Seq<VersionFolder>, exe: Seq<char>) -> Seq<Seq<char>>
    decreases vs.len(),
{
    if vs.len() == 0 {
        Seq::empty()
    } else {
        versions_part(vs.drop_last(), exe) + version_part(vs.last(), exe)
    }
}

/// Candidates in one package: in the package folder, then in the first
/// version folders, when it is a package of the encoder.
pub open spec fn package_part(p: PackageFolder, exe: Seq<char>) -> Seq<Seq<char>> {
    if is_encoder_package(p) {
        dir_names(p.path@, exe) + versions_part(
            at_most(p.versions@, MAX_VERSIONS_PER_PACKAGE as int),
            exe,
        )
    } else {
        Seq::empty()
    }
}

/// Candidates in packages, package by package.
pub open spec fn packages_part(ps: Seq<PackageFolder>, exe: Seq<char>) -> Seq<Seq<char>>
    decreases ps.len(),
{
    if ps.len() == 0 {
        Seq::empty()
    } else {
        packages_part(ps.drop_last(), exe) + package_part(ps.last(), exe)
    }
}

/// Offers the names inside the first version folders of a package and
/// inside their `bin` folders.
fn push_version_candidates(
    candidates: &mut Vec<String>,
    versions: &Vec<VersionFolder>,
    executable: &str,
)
    ensures
        views(final(candidates)@) == offer_all(
            views(old(candidates)@),
            versions_part(at_most(versions@, MAX_VERSIONS_PER_PACKAGE as int), executable@),
        ),
{
    let ghost exe = executable@;
    let ghost start = views(candidates@);
    let n = if versions.len() < MAX_VERSIONS_PER_PACKAGE {
        versions.len()
    } else {
        MAX_VERSIONS_PER_PACKAGE
    };
    let ghost limited = at_most(versions@, MAX_VERSIONS_PER_PACKAGE as int);
    assert(limited =~= versions@.take(n as int));
    let mut i: usize = 0;
    while i < n
        invariant
            exe == executable@,
            n <= versions@.len(),
            i <= n,
            views(candidates@) == offer_all(start, versions_part(versions@.take(i as int), exe)),
        decreases n - i,
    {
        let ghost before = views(candidates@);
        let version = &versions[i];
        let ghost part = version_part(*version, exe);
        if version.is_directory {
            let vc = chars_of(version.path.as_str());
            push_directory_candidates(candidates, &vc, executable);
            let ghost mid = views(candidates@);
            let bin = path_join_str(&vc, "bin");
            push_directory_candidates(candidates, &bin, executable);
            proof {
                lemma_offer_all_concat(
                    before,
                    dir_names(version.path@, exe),
                    dir_names(join(version.path@, "bin"@), exe),
                );
            }
        }
        assert(views(candidates@) == offer_all(before, part));
        proof {
            let t = versions@.take(i as int);
            let t1 = versions@.take(i + 1);
            assert(t1.drop_last() =~= t);
            assert(t1.last() == versions@[i as int]);
            lemma_offer_all_concat(start, versions_part(t, exe), part);
        }
        i = i + 1;
    }
}

/// Whether a packages-folder entry is a package of the encoder.
pub fn encoder_package(package: &PackageFolder) -> (r: bool)
    ensures
        r == is_encoder_package(*package),
{
    if !package.is_directory {
        return false;
    }
    let name = chars_of(package.name.as_str());
    let lowered = to_lower_ascii(&name);
    let wanted = chars_of("ffmpeg");
    contains_chars(&lowered, &wanted)
}

/// Offers the candidates inside the packages of the encoder among the
/// first entries of a WinGet packages folder: the names in each package
/// folder, then in each of its first version folders and their `bin`.
pub fn push_winget_package_candidates(
    candidates: &mut Vec<String>,
    packages: &Vec<PackageFolder>,
    executable: &str,
)
    ensures
        views(final(candidates)@) == offer_all(
            views(old(candidates)@),
            packages_part(at_most(packages@, MAX_PACKAGES as int), executable@),
        ),
{
    let ghost exe = executable@;
    let ghost start = views(candidates@);
    let n = if packages.len() < MAX_PACKAGES {
        packages.len()
    } else {
        MAX_PACKAGES
    };
    assert(at_most(packages@, MAX_PACKAGES as int) =~= packages@.take(n as int));
    let mut i: usize = 0;
    while i < n
        invariant
            exe == executable@,
            n <= packages@.len(),
            i <= n,
            views(candidates@) == offer_all(start, packages_part(packages@.take(i as int), exe)),
        decreases n - i,
    {
        let ghost before = views(candidates@);
        let package = &packages[i];
        let ghost part = package_part(*package, exe);
        if encoder_package(package) {
            let pc = chars_of(package.path.as_str());
            push_directory_candidates(candidates, &pc, executable);
            push_version_candidates(candidates, &package.versions, executable);
            proof {
                lemma_offer_all_concat(
                    before,
                    dir_names(package.path@, exe),
                    versions_part(at_most(package.versions@, MAX_VERSIONS_PER_PACKAGE as int), exe),
                );
            }
        }
        assert(views(candidates@) == offer_all(before, part));
        proof {
            let t = packages@.take(i as int);
            let t1 = packages@.take(i + 1);
            assert(t1.drop_last() =~= t);
            assert(t1.last() == packages@[i as int]);
            lemma_offer_all_concat(start, packages_part(t, exe), part);
        }
        i = i + 1;
    }
}

/// The WinGet packages folder under the home directory.
pub open spec fn home_packages(h: Seq<char>) -> Seq<char> {
    join_all(h, seq!["AppData"@, "Local"@, "Microsoft"@, "WinGet"@, "Packages"@])
}

/// The WinGet packages folders under an installation root.
pub open spec fn root_packages(r: Seq<char>) -> Seq<Seq<char>> {
    seq![join_all(r, seq!["Microsoft"@, "WinGet"@, "Packages"@]), join_all(r, seq!["WinGet"@, "Packages"@])]
}

/// The WinGet packages folder under the home directory `home`.
pub fn home_packages_folder(home: &str) -> (r: String)
    ensures
        r@ == home_packages(home@),
{
    let h = chars_of(home);
    let parts = ["AppData", "Local", "Microsoft", "WinGet", "Packages"];
    let p = join_parts(&h, &parts);
    assert(parts@.map_values(|p: &str| p@) =~= seq![
        "AppData"@,
        "Local"@,
        "Microsoft"@,
        "WinGet"@,
        "Packages"@,
    ]);
    string_of(&p)
}

/// The WinGet packages folders under the installation root `root`, in
/// the order they are looked at.
pub fn root_packages_folders(root: &str) -> (r: Vec<String>)
    ensures
        views(r@) == root_packages(root@),
{
    let c = chars_of(root);
    let a = ["Microsoft", "WinGet", "Packages"];
    let b = ["WinGet", "Packages"];
    let mut r: Vec<String> = Vec::new();
    r.push(string_of(&join_parts(&c, &a)));
    r.push(string_of(&join_parts(&c, &b)));
    assert(a@.map_values(|p: &str| p@) =~= seq!["Microsoft"@, "WinGet"@, "Packages"@]);
    assert(b@.map_values(|p: &str| p@) =~= seq!["WinGet"@, "Packages"@]);
    assert(views(r@) =~= root_packages(root@));
    r
}

} // verus!
