//! Where the encoder and the prober are looked for, in which order, and
//! which of the places found can be used.

use vstd::prelude::*;
use vstd::string::StringExecFns;
use crate::converters::types::ConversionError;
use crate::path::{
    extension, is_absolute, join, parent, path_eq, path_extension, path_is_absolute, path_join,
    path_join_str, path_parent, path_with_extension, same_path, with_extension,
};
use crate::winpath::{absolute_on, is_absolute_on};
use crate::text::{chars_of, extend_chars, extend_str, string_of, to_upper_ascii, upper_ascii};

verus! {

/// The texts of a list of strings.
pub open spec fn views(v: Seq<String>) -> Seq<Seq<char>> {
    v.map_values(|s: String| s@)
}

/// The texts of a list of character runs.
pub open spec fn runs(v: Seq<Vec<char>>) -> Seq<Seq<char>> {
    v.map_values(|s: Vec<char>| s@)
}

/// `x` joins the list `c`: it is not empty and names no path already there.
pub open spec fn takes_new(c: Seq<Seq<char>>, x: Seq<char>) -> bool {
    x.len() > 0 && forall|i: int| 0 <= i < c.len() ==> !same_path(#[trigger] c[i], x)
}

/// `c` after offering it `x`.
pub open spec fn offer(c: Seq<Seq<char>>, x: Seq<char>) -> Seq<Seq<char>> {
    if takes_new(c, x) {
        c.push(x)
    } else {
        c
    }
}

/// `c` after offering it each of `xs` in turn.
pub open spec fn offer_all(c: Seq<Seq<char>>, xs: Seq<Seq<char>>) -> Seq<Seq<char>>
    decreases xs.len(),
{
    if xs.len() == 0 {
        c
    } else {
        offer(offer_all(c, xs.drop_last()), xs.last())
    }
}

/// Offering two lists in turn is offering their concatenation.
pub proof fn lemma_offer_all_concat(c: Seq<Seq<char>>, xs: Seq<Seq<char>>, ys: Seq<Seq<char>>)
    ensures
        offer_all(c, xs + ys) == offer_all(offer_all(c, xs), ys),
    decreases ys.len(),
{
    if ys.len() == 0 {
        assert(xs + ys =~= xs);
    } else {
        lemma_offer_all_concat(c, xs, ys.drop_last());
        assert((xs + ys).drop_last() =~= xs + ys.drop_last());
        assert((xs + ys).last() == ys.last());
    }
}

/// Every path kept is distinct from the others and not empty.
pub open spec fn distinct_paths(c: Seq<Seq<char>>) -> bool {
    &&& forall|i: int| 0 <= i < c.len() ==> (#[trigger] c[i]).len() > 0
    &&& forall|i: int, j: int|
        0 <= i < j < c.len() ==> !same_path(#[trigger] c[i], #[trigger] c[j])
}

/// Offering keeps the list free of repeats.
pub proof fn lemma_offer_all_distinct(c: Seq<Seq<char>>, xs: Seq<Seq<char>>)
    requires
        distinct_paths(c),
    ensures
        distinct_paths(offer_all(c, xs)),
    decreases xs.len(),
{
    if xs.len() > 0 {
        lemma_offer_all_distinct(c, xs.drop_last());
        let d = offer_all(c, xs.drop_last());
        let x = xs.last();
        if takes_new(d, x) {
            assert forall|i: int, j: int| 0 <= i < j < d.push(x).len() implies !same_path(
                #[trigger] d.push(x)[i],
                #[trigger] d.push(x)[j],
            ) by {
                if j == d.len() {
                    assert(!same_path(d[i], x));
                }
            }
        }
    }
}

/// The two names an executable may have in a folder.
pub open spec fn dir_names(dir: Seq<char>, exe: Seq<char>) -> Seq<Seq<char>> {
    seq![join(dir, exe), join(dir, exe + ".exe"@)]
}

/// The names of the executable in each folder of `ds`, folder by folder.
pub open spec fn dirs_names(ds: Seq<Seq<char>>, exe: Seq<char>) -> Seq<Seq<char>>
    decreases ds.len(),
{
    if ds.len() == 0 {
        Seq::empty()
    } else {
        dirs_names(ds.drop_last(), exe) + dir_names(ds.last(), exe)
    }
}

/// A path that may be the executable itself or its folder.
pub open spec fn path_or_dir(p: Seq<char>, exe: Seq<char>) -> Seq<Seq<char>> {
    seq![p] + (if extension(p) is None {
        seq![with_extension(p, "exe"@)]
    } else {
        Seq::empty()
    }) + dir_names(p, exe)
}

/// `base` joined with each of `parts` in turn.
pub open spec fn join_all(base: Seq<char>, parts: Seq<Seq<char>>) -> Seq<char>
    decreases parts.len(),
{
    if parts.len() == 0 {
        base
    } else {
        join(join_all(base, parts.drop_last()), parts.last())
    }
}

/// Folders under the home directory where users install the encoder.
pub open spec fn home_dirs(h: Seq<char>) -> Seq<Seq<char>> {
    seq![
        join_all(h, seq![".local"@, "bin"@]),
        join_all(h, seq!["bin"@]),
        join_all(h, seq!["scoop"@, "shims"@]),
        join_all(h, seq!["scoop"@, "apps"@, "ffmpeg"@, "current"@, "bin"@]),
        join_all(h, seq!["AppData"@, "Local"@, "Programs"@, "ffmpeg"@, "bin"@]),
    ]
}

/// Folders under an installation root where package managers put it.
pub open spec fn root_dirs(r: Seq<char>) -> Seq<Seq<char>> {
    seq![
        join_all(r, seq!["ffmpeg"@, "bin"@]),
        join_all(r, seq!["FFmpeg"@, "bin"@]),
        join_all(r, seq!["ffmpeg"@, "current"@, "bin"@]),
        join_all(r, seq!["bin"@]),
        join_all(r, seq!["lib"@, "ffmpeg"@, "tools"@, "ffmpeg"@, "bin"@]),
        join_all(r, seq!["Microsoft"@, "WinGet"@, "Links"@]),
        join_all(r, seq!["WinGet"@, "Links"@]),
    ]
}

/// System folders tried last.
pub open spec fn fixed_dirs() -> Seq<Seq<char>> {
    seq![
        "/usr/bin"@,
        "/usr/local/bin"@,
        "/opt/homebrew/bin"@,
        "/snap/bin"@,
        "/var/lib/flatpak/exports/bin"@,
        "C:\\ffmpeg\\bin"@,
        "C:\\ProgramData\\chocolatey\\bin"@,
    ]
}

/// An installation root named by an environment variable, with the
/// package folders found under it (on Windows; none elsewhere).
#[derive(Debug, Clone)]
pub struct InstallRoot {
    pub path: String,
    pub package_candidates: Vec<String>,
}

/// What the process environment says about where the encoder may be,
/// read by the caller: each field holds the value of a variable or the
/// entries of a list, in the order the search uses them.
#[derive(Debug, Clone)]
pub struct BackendEnvironment {
    /// `ROVEX_{EXECUTABLE}_PATH`.
    pub override_path: Option<String>,
    /// The entries of `PATH`.
    pub path_entries: Vec<String>,
    /// The entries of the persistent user and machine `Path` (Windows).
    pub registry_path_entries: Vec<String>,
    /// Candidates registered under `App Paths` (Windows).
    pub app_path_candidates: Vec<String>,
    /// The path of the running program.
    pub current_exe: Option<String>,
    /// `USERPROFILE`, else `HOME`.
    pub home: Option<String>,
    /// Package folders under the home's WinGet packages (Windows).
    pub home_package_candidates: Vec<String>,
    /// `ProgramFiles`, `ProgramFiles(x86)`, `LOCALAPPDATA`,
    /// `ChocolateyToolsLocation` and `ChocolateyInstall`, those that are set.
    pub install_roots: Vec<InstallRoot>,
    /// `FFMPEG_HOME`, `FFMPEG_ROOT`, `FFMPEG_DIR` and `FFMPEG_PATH`, those
    /// that are set.
    pub ffmpeg_locations: Vec<String>,
    /// Whether paths follow the Windows rules (which paths are absolute).
    pub windows: bool,
}

/// Candidates under each installation root, root by root.
pub open spec fn roots_part(roots: Seq<InstallRoot>, exe: Seq<char>) -> Seq<Seq<char>>
    decreases roots.len(),
{
    if roots.len() == 0 {
        Seq::empty()
    } else {
        roots_part(roots.drop_last(), exe) + dirs_names(root_dirs(roots.last().path@), exe)
            + views(roots.last().package_candidates@)
    }
}

/// Candidates from the encoder's own variables: absolute values only.
pub open spec fn locations_part(ls: Seq<Seq<char>>, exe: Seq<char>, windows: bool) -> Seq<Seq<char>>
    decreases ls.len(),
{
    if ls.len() == 0 {
        Seq::empty()
    } else {
        locations_part(ls.drop_last(), exe, windows) + (if absolute_on(ls.last(), windows) {
            path_or_dir(ls.last(), exe)
        } else {
            Seq::empty()
        })
    }
}

/// Candidates from the override variable: an absolute value only.
pub open spec fn override_part(env: BackendEnvironment, exe: Seq<char>) -> Seq<Seq<char>> {
    match env.override_path {
        Some(p) => if absolute_on(p@, env.windows) {
            path_or_dir(p@, exe)
        } else {
            Seq::empty()
        },
        None => Seq::empty(),
    }
}

/// Candidates in the running program's folder.
pub open spec fn exe_part(env: BackendEnvironment, exe: Seq<char>) -> Seq<Seq<char>> {
    match env.current_exe {
        Some(e) => match parent(e@) {
            Some(d) => dir_names(d, exe),
            None => Seq::empty(),
        },
        None => Seq::empty(),
    }
}

/// Candidates in a folder named by the caller.
pub open spec fn adjacent_part(adjacent: Option<Seq<char>>, exe: Seq<char>) -> Seq<Seq<char>> {
    match adjacent {
        Some(d) => dir_names(d, exe),
        None => Seq::empty(),
    }
}

/// Candidates under the home directory.
pub open spec fn home_part(env: BackendEnvironment, exe: Seq<char>) -> Seq<Seq<char>> {
    match env.home {
        Some(h) => dirs_names(home_dirs(h@), exe) + views(env.home_package_candidates@),
        None => Seq::empty(),
    }
}

/// Every place tried for `exe`, in order, repeats included.
pub open spec fn raw_candidates(
    env: BackendEnvironment,
    exe: Seq<char>,
    adjacent: Option<Seq<char>>,
) -> Seq<Seq<char>> {
    override_part(env, exe) + dirs_names(views(env.path_entries@), exe) + dirs_names(
        views(env.registry_path_entries@),
        exe,
    ) + views(env.app_path_candidates@) + exe_part(env, exe) + adjacent_part(adjacent, exe)
        + home_part(env, exe) + roots_part(env.install_roots@, exe) + locations_part(
        views(env.ffmpeg_locations@),
        exe,
        env.windows,
    ) + dirs_names(fixed_dirs(), exe)
}

/// Name of the variable that points at the executable directly.
pub fn backend_override_name(executable: &str) -> (r: String)
    ensures
        r@ == "ROVEX_"@ + upper_ascii(executable@) + "_PATH"@,
{
    let mut out: Vec<char> = Vec::new();
    extend_str(&mut out, "ROVEX_");
    let e = chars_of(executable);
    let u = to_upper_ascii(&e);
    extend_chars(&mut out, &u);
    extend_str(&mut out, "_PATH");
    string_of(&out)
}

/// The names the executable may have: bare and with `.exe`.
pub fn backend_names(executable: &str) -> (r: Vec<Vec<char>>)
    ensures
        runs(r@) == seq![executable@, executable@ + ".exe"@],
{
    let bare = chars_of(executable);
    let mut exe = chars_of(executable);
    extend_str(&mut exe, ".exe");
    let mut r: Vec<Vec<char>> = Vec::new();
    r.push(bare);
    r.push(exe);
    assert(runs(r@) =~= seq![executable@, executable@ + ".exe"@]);
    r
}

/// Offers `candidate` to the list: kept unless empty or already there.
pub fn push_candidate(candidates: &mut Vec<String>, candidate: &[char])
    ensures
        views(final(candidates)@) == offer(views(old(candidates)@), candidate@),
{
    if candidate.len() == 0 {
        return;
    }
    let mut i: usize = 0;
    while i < candidates.len()
        invariant
            i <= candidates@.len(),
            candidates@ == old(candidates)@,
            forall|k: int| 0 <= k < i ==> !same_path(#[trigger] views(candidates@)[k], candidate@),
        decreases candidates@.len() - i,
    {
        let c = chars_of(candidates[i].as_str());
        assert(views(candidates@)[i as int] == c@);
        if path_eq(&c, candidate) {
            assert(!takes_new(views(old(candidates)@), candidate@));
            return;
        }
        i = i + 1;
    }
    candidates.push(string_of(candidate));
    assert(views(candidates@) =~= views(old(candidates)@).push(candidate@));
}

/// Offers the executable's names inside `directory`.
pub fn push_directory_candidates(candidates: &mut Vec<String>, directory: &[char], executable: &str)
    ensures
        views(final(candidates)@) == offer_all(
            views(old(candidates)@),
            dir_names(directory@, executable@),
        ),
{
    let names = backend_names(executable);
    assert(names@.len() == runs(names@).len());
    let first = path_join(directory, &names[0]);
    push_candidate(candidates, &first);
    let second = path_join(directory, &names[1]);
    push_candidate(candidates, &second);
    proof {
        let xs = dir_names(directory@, executable@);
        assert(names@[0]@ == runs(names@)[0]);
        assert(names@[1]@ == runs(names@)[1]);
        assert(xs.drop_last().drop_last() =~= Seq::<Seq<char>>::empty());
        assert(xs.drop_last() =~= seq![xs[0]]);
        reveal_with_fuel(offer_all, 3);
    }
}

/// Offers a path that may be the executable or its folder: the path,
/// the path with `.exe` when it has no extension, and the names inside it.
pub fn push_path_or_directory_candidates(
    candidates: &mut Vec<String>,
    path: &[char],
    executable: &str,
)
    ensures
        views(final(candidates)@) == offer_all(
            views(old(candidates)@),
            path_or_dir(path@, executable@),
        ),
{
    let ghost c0 = views(candidates@);
    push_candidate(candidates, path);
    proof {
        assert(seq![path@].drop_last() =~= Seq::<Seq<char>>::empty());
        reveal_with_fuel(offer_all, 2);
    }
    let ghost c1 = views(candidates@);
    assert(c1 == offer_all(c0, seq![path@])) by {
        reveal_with_fuel(offer_all, 2);
    }
    let has_ext = path_extension(path).is_some();
    let ghost mid: Seq<Seq<char>> = if extension(path@) is None {
        seq![with_extension(path@, "exe"@)]
    } else {
        Seq::empty()
    };
    if !has_ext {
        let exe: Vec<char> = chars_of("exe");
        let other = path_with_extension(path, &exe);
        push_candidate(candidates, &other);
        proof {
            assert(mid.drop_last() =~= Seq::<Seq<char>>::empty());
            reveal_with_fuel(offer_all, 2);
        }
    }
    assert(views(candidates@) == offer_all(c1, mid)) by {
        reveal_with_fuel(offer_all, 2);
    }
    proof {
        lemma_offer_all_concat(c0, seq![path@], mid);
    }
    let ghost c2 = views(candidates@);
    push_directory_candidates(candidates, path, executable);
    proof {
        lemma_offer_all_concat(c0, seq![path@] + mid, dir_names(path@, executable@));
        assert(seq![path@] + mid + dir_names(path@, executable@) =~= path_or_dir(
            path@,
            executable@,
        ));
    }
}

/// Offers the executable's names inside each folder of `dirs`.
pub fn push_directory_list(candidates: &mut Vec<String>, dirs: &Vec<Vec<char>>, executable: &str)
    ensures
        views(final(candidates)@) == offer_all(
            views(old(candidates)@),
            dirs_names(runs(dirs@), executable@),
        ),
{
    let mut i: usize = 0;
    while i < dirs.len()
        invariant
            i <= dirs@.len(),
            views(candidates@) == offer_all(
                views(old(candidates)@),
                dirs_names(runs(dirs@).take(i as int), executable@),
            ),
        decreases dirs@.len() - i,
    {
        let ghost before = views(candidates@);
        push_directory_candidates(candidates, &dirs[i], executable);
        proof {
            let t = runs(dirs@).take(i as int);
            let t1 = runs(dirs@).take(i + 1);
            assert(t1.drop_last() =~= t);
            assert(t1.last() == dirs@[i as int]@);
            lemma_offer_all_concat(
                views(old(candidates)@),
                dirs_names(t, executable@),
                dir_names(dirs@[i as int]@, executable@),
            );
        }
        i = i + 1;
    }
    assert(runs(dirs@).take(dirs@.len() as int) =~= runs(dirs@));
}

/// Offers each of `list` as it is.
pub fn push_candidate_list(candidates: &mut Vec<String>, list: &Vec<String>)
    ensures
        views(final(candidates)@) == offer_all(views(old(candidates)@), views(list@)),
{
    let mut i: usize = 0;
    while i < list.len()
        invariant
            i <= list@.len(),
            views(candidates@) == offer_all(views(old(candidates)@), views(list@).take(i as int)),
        decreases list@.len() - i,
    {
        let c = chars_of(list[i].as_str());
        push_candidate(candidates, &c);
        proof {
            let t1 = views(list@).take(i + 1);
            assert(t1.drop_last() =~= views(list@).take(i as int));
        }
        i = i + 1;
    }
    assert(views(list@).take(list@.len() as int) =~= views(list@));
}

/// The characters of each string.
pub fn char_runs(list: &Vec<String>) -> (r: Vec<Vec<char>>)
    ensures
        runs(r@) == views(list@),
{
    let mut r: Vec<Vec<char>> = Vec::new();
    let mut i: usize = 0;
    while i < list.len()
        invariant
            i <= list@.len(),
            runs(r@) == views(list@).take(i as int),
        decreases list@.len() - i,
    {
        let c = chars_of(list[i].as_str());
        let ghost before = r@;
        r.push(c);
        proof {
            assert(r@ == before.push(c));
            assert(runs(r@) =~= runs(before).push(c@));
            assert(views(list@)[i as int] == c@);
            assert(views(list@).take(i + 1) =~= views(list@).take(i as int).push(
                views(list@)[i as int],
            ));
        }
        assert(runs(r@) =~= views(list@).take(i + 1));
        i = i + 1;
    }
    assert(views(list@).take(list@.len() as int) =~= views(list@));
    r
}

/// `base` joined with each of `parts` in turn.
pub fn join_parts(base: &[char], parts: &[&str]) -> (r: Vec<char>)
    ensures
        r@ == join_all(base@, parts@.map_values(|p: &str| p@)),
{
    let mut out: Vec<char> = Vec::new();
    extend_chars(&mut out, base);
    let mut i: usize = 0;
    while i < parts.len()
        invariant
            i <= parts@.len(),
            out@ == join_all(base@, parts@.map_values(|p: &str| p@).take(i as int)),
        decreases parts@.len() - i,
    {
        let next = path_join_str(&out, parts[i]);
        proof {
            let t1 = parts@.map_values(|p: &str| p@).take(i + 1);
            assert(t1.drop_last() =~= parts@.map_values(|p: &str| p@).take(i as int));
        }
        out = next;
        i = i + 1;
    }
    assert(parts@.map_values(|p: &str| p@).take(parts@.len() as int) =~= parts@.map_values(
        |p: &str| p@,
    ));
    out
}

/// The folders of `home_dirs`.
pub fn home_directories(h: &[char]) -> (r: Vec<Vec<char>>)
    ensures
        runs(r@) == home_dirs(h@),
{
    let mut r: Vec<Vec<char>> = Vec::new();
    let a = [".local", "bin"];
    r.push(join_parts(h, &a));
    let b = ["bin"];
    r.push(join_parts(h, &b));
    let c = ["scoop", "shims"];
    r.push(join_parts(h, &c));
    let d = ["scoop", "apps", "ffmpeg", "current", "bin"];
    r.push(join_parts(h, &d));
    let e = ["AppData", "Local", "Programs", "ffmpeg", "bin"];
    r.push(join_parts(h, &e));
    proof {
        assert(a@.map_values(|p: &str| p@) =~= seq![".local"@, "bin"@]);
        assert(b@.map_values(|p: &str| p@) =~= seq!["bin"@]);
        assert(c@.map_values(|p: &str| p@) =~= seq!["scoop"@, "shims"@]);
        assert(d@.map_values(|p: &str| p@) =~= seq![
            "scoop"@,
            "apps"@,
            "ffmpeg"@,
            "current"@,
            "bin"@,
        ]);
        assert(e@.map_values(|p: &str| p@) =~= seq![
            "AppData"@,
            "Local"@,
            "Programs"@,
            "ffmpeg"@,
            "bin"@,
        ]);
        assert(runs(r@) =~= home_dirs(h@));
    }
    r
}

/// The folders of `root_dirs`.
pub fn root_directories(root: &[char]) -> (r: Vec<Vec<char>>)
    ensures
        runs(r@) == root_dirs(root@),
{
    let mut r: Vec<Vec<char>> = Vec::new();
    let a = ["ffmpeg", "bin"];
    r.push(join_parts(root, &a));
    let b = ["FFmpeg", "bin"];
    r.push(join_parts(root, &b));
    let c = ["ffmpeg", "current", "bin"];
    r.push(join_parts(root, &c));
    let d = ["bin"];
    r.push(join_parts(root, &d));
    let e = ["lib", "ffmpeg", "tools", "ffmpeg", "bin"];
    r.push(join_parts(root, &e));
    let f = ["Microsoft", "WinGet", "Links"];
    r.push(join_parts(root, &f));
    let g = ["WinGet", "Links"];
    r.push(join_parts(root, &g));
    proof {
        assert(a@.map_values(|p: &str| p@) =~= seq!["ffmpeg"@, "bin"@]);
        assert(b@.map_values(|p: &str| p@) =~= seq!["FFmpeg"@, "bin"@]);
        assert(c@.map_values(|p: &str| p@) =~= seq!["ffmpeg"@, "current"@, "bin"@]);
        assert(d@.map_values(|p: &str| p@) =~= seq!["bin"@]);
        assert(e@.map_values(|p: &str| p@) =~= seq![
            "lib"@,
            "ffmpeg"@,
            "tools"@,
            "ffmpeg"@,
            "bin"@,
        ]);
        assert(f@.map_values(|p: &str| p@) =~= seq!["Microsoft"@, "WinGet"@, "Links"@]);
        assert(g@.map_values(|p: &str| p@) =~= seq!["WinGet"@, "Links"@]);
        assert(runs(r@) =~= root_dirs(root@));
    }
    r
}

/// The folders of `fixed_dirs`.
pub fn fixed_directories() -> (r: Vec<Vec<char>>)
    ensures
        runs(r@) == fixed_dirs(),
{
    let mut r: Vec<Vec<char>> = Vec::new();
    r.push(chars_of("/usr/bin"));
    r.push(chars_of("/usr/local/bin"));
    r.push(chars_of("/opt/homebrew/bin"));
    r.push(chars_of("/snap/bin"));
    r.push(chars_of("/var/lib/flatpak/exports/bin"));
    r.push(chars_of("C:\\ffmpeg\\bin"));
    r.push(chars_of("C:\\ProgramData\\chocolatey\\bin"));
    assert(runs(r@) =~= fixed_dirs());
    r
}

/// The option's text.
pub open spec fn view_opt(o: Option<&str>) -> Option<Seq<char>> {
    match o {
        Some(d) => Some(d@),
        None => None,
    }
}

/// Every place where `executable` is looked for, in the order tried and
/// without repeats: the override variable, `PATH`, the registry's lists,
/// the program's own folder, `adjacent_directory`, folders under the home
/// and the installation roots, the encoder's variables, and system
/// folders. The current directory is never added by itself.
pub fn backend_candidates(
    executable: &str,
    env: &BackendEnvironment,
    adjacent_directory: Option<&str>,
) -> (r: Vec<String>)
    ensures
        views(r@) == offer_all(Seq::empty(), raw_candidates(*env, executable@, view_opt(adjacent_directory))),
        distinct_paths(views(r@)),
{
    let ghost exe = executable@;
    let ghost empty = Seq::<Seq<char>>::empty();
    let mut candidates: Vec<String> = Vec::new();
    assert(views(candidates@) =~= empty);
    // The override variable.
    let ghost p1 = override_part(*env, exe);
    match &env.override_path {
        Some(p) => {
            let pc = chars_of(p.as_str());
            if is_absolute_on(&pc, env.windows) {
                push_path_or_directory_candidates(&mut candidates, &pc, executable);
            }
        },
        None => {},
    }
    assert(views(candidates@) == offer_all(empty, p1));
    // PATH and the registry's lists.
    let path_dirs = char_runs(&env.path_entries);
    push_directory_list(&mut candidates, &path_dirs, executable);
    let ghost p2 = dirs_names(views(env.path_entries@), exe);
    proof {
        lemma_offer_all_concat(empty, p1, p2);
    }
    let registry_dirs = char_runs(&env.registry_path_entries);
    push_directory_list(&mut candidates, &registry_dirs, executable);
    let ghost p3 = dirs_names(views(env.registry_path_entries@), exe);
    proof {
        lemma_offer_all_concat(empty, p1 + p2, p3);
    }
    push_candidate_list(&mut candidates, &env.app_path_candidates);
    let ghost p4 = views(env.app_path_candidates@);
    proof {
        lemma_offer_all_concat(empty, p1 + p2 + p3, p4);
    }
    // The program's own folder.
    let ghost p5 = exe_part(*env, exe);
    let ghost before5 = views(candidates@);
    match &env.current_exe {
        Some(e) => {
            let ec = chars_of(e.as_str());
            match path_parent(&ec) {
                Some(d) => {
                    push_directory_candidates(&mut candidates, &d, executable);
                },
                None => {},
            }
        },
        None => {},
    }
    assert(views(candidates@) == offer_all(before5, p5));
    proof {
        lemma_offer_all_concat(empty, p1 + p2 + p3 + p4, p5);
    }
    // The folder next to the encoder, when the prober is looked for.
    let ghost p6 = adjacent_part(view_opt(adjacent_directory), exe);
    let ghost before6 = views(candidates@);
    match adjacent_directory {
        Some(d) => {
            let dc = chars_of(d);
            push_directory_candidates(&mut candidates, &dc, executable);
        },
        None => {},
    }
    assert(views(candidates@) == offer_all(before6, p6));
    proof {
        lemma_offer_all_concat(empty, p1 + p2 + p3 + p4 + p5, p6);
    }
    // Folders under the home directory.
    let ghost p7 = home_part(*env, exe);
    let ghost before7 = views(candidates@);
    match &env.home {
        Some(h) => {
            let hc = chars_of(h.as_str());
            let dirs = home_directories(&hc);
            push_directory_list(&mut candidates, &dirs, executable);
            let ghost mid = views(candidates@);
            push_candidate_list(&mut candidates, &env.home_package_candidates);
            proof {
                lemma_offer_all_concat(
                    before7,
                    dirs_names(home_dirs(h@), exe),
                    views(env.home_package_candidates@),
                );
            }
        },
        None => {},
    }
    assert(views(candidates@) == offer_all(before7, p7));
    proof {
        lemma_offer_all_concat(empty, p1 + p2 + p3 + p4 + p5 + p6, p7);
    }
    // Installation roots.
    let ghost q = p1 + p2 + p3 + p4 + p5 + p6 + p7;
    let mut i: usize = 0;
    while i < env.install_roots.len()
        invariant
            exe == executable@,
            empty == Seq::<Seq<char>>::empty(),
            i <= env.install_roots@.len(),
            views(candidates@) == offer_all(empty, q + roots_part(env.install_roots@.take(i as int), exe)),
        decreases env.install_roots@.len() - i,
    {
        let ghost before = views(candidates@);
        let root = &env.install_roots[i];
        let rc = chars_of(root.path.as_str());
        let dirs = root_directories(&rc);
        push_directory_list(&mut candidates, &dirs, executable);
        push_candidate_list(&mut candidates, &root.package_candidates);
        proof {
            let t = env.install_roots@.take(i as int);
            let t1 = env.install_roots@.take(i + 1);
            assert(t1.drop_last() =~= t);
            assert(t1.last() == env.install_roots@[i as int]);
            assert(runs(dirs@) == root_dirs(root.path@));
            let a = dirs_names(root_dirs(root.path@), exe);
            let b = views(root.package_candidates@);
            lemma_offer_all_concat(before, a, b);
            lemma_offer_all_concat(empty, q + roots_part(t, exe), a + b);
            assert(q + roots_part(t1, exe) =~= q + roots_part(t, exe) + (a + b));
        }
        i = i + 1;
    }
    assert(env.install_roots@.take(env.install_roots@.len() as int) =~= env.install_roots@);
    let ghost q8 = q + roots_part(env.install_roots@, exe);
    // The encoder's own variables.
    let locations = char_runs(&env.ffmpeg_locations);
    let mut j: usize = 0;
    while j < locations.len()
        invariant
            exe == executable@,
            empty == Seq::<Seq<char>>::empty(),
            j <= locations@.len(),
            runs(locations@) == views(env.ffmpeg_locations@),
            views(candidates@) == offer_all(empty, q8 + locations_part(runs(locations@).take(j as int), exe, env.windows)),
        decreases locations@.len() - j,
    {
        let ghost before = views(candidates@);
        let ghost l = locations@[j as int]@;
        let ghost part: Seq<Seq<char>> = if absolute_on(l, env.windows) {
            path_or_dir(l, exe)
        } else {
            Seq::empty()
        };
        if is_absolute_on(&locations[j], env.windows) {
            push_path_or_directory_candidates(&mut candidates, &locations[j], executable);
            assert(views(candidates@) == offer_all(before, part));
        } else {
            assert(part =~= Seq::<Seq<char>>::empty());
            assert(views(candidates@) == offer_all(before, part));
        }
        proof {
            let t = runs(locations@).take(j as int);
            let t1 = runs(locations@).take(j + 1);
            assert(t1.drop_last() =~= t);
            assert(t1.last() == l);
            lemma_offer_all_concat(empty, q8 + locations_part(t, exe, env.windows), part);
            assert(q8 + locations_part(t1, exe, env.windows) =~= q8 + locations_part(t, exe, env.windows) + part);
        }
        j = j + 1;
    }
    assert(runs(locations@).take(locations@.len() as int) =~= runs(locations@));
    let ghost q9 = q8 + locations_part(views(env.ffmpeg_locations@), exe, env.windows);
    // System folders.
    let fixed = fixed_directories();
    push_directory_list(&mut candidates, &fixed, executable);
    proof {
        lemma_offer_all_concat(empty, q9, dirs_names(fixed_dirs(), exe));
        assert(q9 + dirs_names(fixed_dirs(), exe) =~= raw_candidates(*env, exe, view_opt(adjacent_directory)));
        assert(distinct_paths(empty));
        lemma_offer_all_distinct(empty, raw_candidates(*env, exe, view_opt(adjacent_directory)));
    }
    candidates
}

/// A backend found on disk.
#[derive(Debug, Clone, PartialEq, Eq)]
pub struct BackendResolution {
    pub path: String,
}

/// A candidate can serve: its path is absolute (by the Windows rules when
/// `windows`) and names a regular file (links followed), as the caller
/// found on disk.
pub open spec fn serves(path: Seq<char>, is_regular_file: bool, windows: bool) -> bool {
    absolute_on(path, windows) && is_regular_file
}

/// Whether a candidate can serve, given what the disk says of it.
pub fn is_backend_file(path: &str, is_regular_file: bool, windows: bool) -> (r: bool)
    ensures
        r == serves(path@, is_regular_file, windows),
{
    let p = chars_of(path);
    is_absolute_on(&p, windows) && is_regular_file
}

/// The candidates that can serve, in order.
pub open spec fn serving(c: Seq<Seq<char>>, f: Seq<bool>, windows: bool) -> Seq<Seq<char>>
    decreases c.len(),
{
    if c.len() == 0 || f.len() == 0 {
        Seq::empty()
    } else if serves(c.last(), f[c.len() - 1], windows) {
        serving(c.drop_last(), f.take(c.len() - 1), windows).push(c.last())
    } else {
        serving(c.drop_last(), f.take(c.len() - 1), windows)
    }
}

/// The first candidate that can serve, or `BackendUnavailable` with the
/// number of places tried. `is_regular_file[i]` tells whether
/// `candidates[i]` is a regular file; `windows` selects the Windows path
/// rules.
pub fn resolve_backend_from_candidates(
    executable: &'static str,
    candidates: &[String],
    is_regular_file: &[bool],
    windows: bool,
) -> (r: Result<BackendResolution, ConversionError>)
    requires
        candidates@.len() == is_regular_file@.len(),
    ensures
        match r {
            Ok(found) => exists|i: int|
                0 <= i < candidates@.len() && serves(candidates@[i]@, is_regular_file@[i], windows)
                    && found.path@ == candidates@[i]@ && forall|k: int|
                    0 <= k < i ==> !serves(#[trigger] candidates@[k]@, is_regular_file@[k], windows),
            Err(e) => (forall|i: int|
                0 <= i < candidates@.len() ==> !serves(#[trigger] candidates@[i]@, is_regular_file@[i], windows))
                && (e matches ConversionError::BackendUnavailable { executable: x, attempts: n }
                && x == executable && n == candidates@.len()),
        },
{
    let mut i: usize = 0;
    while i < candidates.len()
        invariant
            i <= candidates@.len(),
            candidates@.len() == is_regular_file@.len(),
            forall|k: int| 0 <= k < i ==> !serves(#[trigger] candidates@[k]@, is_regular_file@[k], windows),
        decreases candidates@.len() - i,
    {
        if is_backend_file(candidates[i].as_str(), is_regular_file[i], windows) {
            return Ok(BackendResolution { path: candidates[i].clone() });
        }
        i = i + 1;
    }
    Err(ConversionError::BackendUnavailable { executable, attempts: candidates.len() })
}

/// The candidates that can serve, in order.
pub fn usable_backends(candidates: &[String], is_regular_file: &[bool], windows: bool) -> (r: Vec<String>)
    requires
        candidates@.len() == is_regular_file@.len(),
    ensures
        views(r@) == serving(views(candidates@), is_regular_file@, windows),
{
    let mut r: Vec<String> = Vec::new();
    let mut i: usize = 0;
    while i < candidates.len()
        invariant
            i <= candidates@.len(),
            candidates@.len() == is_regular_file@.len(),
            views(r@) == serving(views(candidates@).take(i as int), is_regular_file@.take(i as int), windows),
        decreases candidates@.len() - i,
    {
        let ghost before = r@;
        proof {
            let c1 = views(candidates@).take(i + 1);
            let f1 = is_regular_file@.take(i + 1);
            assert(c1.drop_last() =~= views(candidates@).take(i as int));
            assert(f1.take(c1.len() - 1) =~= is_regular_file@.take(i as int));
            assert(c1.last() == candidates@[i as int]@);
            assert(f1[c1.len() - 1] == is_regular_file@[i as int]);
        }
        if is_backend_file(candidates[i].as_str(), is_regular_file[i], windows) {
            let c = candidates[i].clone();
            r.push(c);
            assert(views(r@) =~= views(before).push(candidates@[i as int]@));
        }
        i = i + 1;
    }
    assert(views(candidates@).take(candidates@.len() as int) =~= views(candidates@));
    assert(is_regular_file@.take(candidates@.len() as int) =~= is_regular_file@);
    r
}

/// Failures after which the next encoder or prober found is tried.
pub open spec fn retryable(error: ConversionError) -> bool {
    error is BackendUnavailable || error is Process || error is Timeout
        || error is OutputValidationFailed
}

/// Whether another backend may succeed where this one failed.
pub fn is_backend_retryable_error(error: &ConversionError) -> (r: bool)
    ensures
        r == retryable(*error),
{
    match error {
        ConversionError::BackendUnavailable { .. } => true,
        ConversionError::Process { .. } => true,
        ConversionError::Timeout { .. } => true,
        ConversionError::OutputValidationFailed { .. } => true,
        _ => false,
    }
}

} // verus!
