//! The places offered in the side panel.

use vstd::prelude::*;
use vstd::string::StringExecFns;
use crate::path::{file_name, join, path_eq, path_join_str, same_path};
use crate::text::chars_of;

verus! {

/// A place offered in the side panel.
#[derive(Debug, Clone, PartialEq, Eq)]
pub struct LocationEntry {
    pub label: String,
    pub path: String,
}

/// The places as (label, path) texts.
pub open spec fn places(ls: Seq<LocationEntry>) -> Seq<(Seq<char>, Seq<char>)> {
    ls.map_values(|l: LocationEntry| (l.label@, l.path@))
}

/// `ls` after offering it a place: kept only when it is a folder and no
/// place already has that path.
pub open spec fn offered(ls: Seq<(Seq<char>, Seq<char>)>, label: Seq<char>, path: Seq<char>, is_dir: bool) -> Seq<(Seq<char>, Seq<char>)> {
    if is_dir && forall|i: int| 0 <= i < ls.len() ==> !same_path(#[trigger] ls[i].1, path) {
        ls.push((label, path))
    } else {
        ls
    }
}

/// Offers a place to the panel.
pub fn add_location(locations: &mut Vec<LocationEntry>, label: &str, path: &str, is_dir: bool)
    ensures
        places(final(locations)@) == offered(places(old(locations)@), label@, path@, is_dir),
{
    if !is_dir {
        return;
    }
    let p = chars_of(path);
    let mut i: usize = 0;
    while i < locations.len()
        invariant
            i <= locations@.len(),
            locations@ == old(locations)@,
            p@ == path@,
            forall|k: int| 0 <= k < i ==> !same_path(#[trigger] places(locations@)[k].1, path@),
        decreases locations@.len() - i,
    {
        let q = chars_of(locations[i].path.as_str());
        assert(places(locations@)[i as int].1 == q@);
        if path_eq(&q, &p) {
            return;
        }
        i = i + 1;
    }
    locations.push(LocationEntry { label: String::from_str(label), path: String::from_str(path) });
    assert(places(locations@) =~= places(old(locations)@).push((label@, path@)));
}

/// The places proposed, in order, before checking which are folders:
/// the home folder and the usual folders under it, the starting folder,
/// and the root.
pub open spec fn proposed(initial: Seq<char>, home: Option<Seq<char>>) -> Seq<(Seq<char>, Seq<char>)> {
    (match home {
        Some(h) => seq![
            ("Início"@, h),
            ("Área de Trabalho"@, join(h, "Desktop"@)),
            ("Documentos"@, join(h, "Documents"@)),
            ("Downloads"@, join(h, "Downloads"@)),
            ("Imagens"@, join(h, "Pictures"@)),
            ("Vídeos"@, join(h, "Videos"@)),
            ("Músicas"@, join(h, "Music"@)),
            ("Objetos 3D"@, join(h, "3D Objects"@)),
        ],
        None => Seq::empty(),
    }) + seq![("Pasta atual"@, initial), ("Sistema"@, "/"@)]
}

/// The well-known folder under the home folder that a place of this label
/// opens.
pub open spec fn home_folder_of(label: Seq<char>) -> Option<Seq<char>> {
    if label == "Área de Trabalho"@ {
        Some("Desktop"@)
    } else if label == "Documentos"@ {
        Some("Documents"@)
    } else if label == "Downloads"@ {
        Some("Downloads"@)
    } else if label == "Imagens"@ {
        Some("Pictures"@)
    } else if label == "Vídeos"@ {
        Some("Videos"@)
    } else if label == "Músicas"@ {
        Some("Music"@)
    } else if label == "Objetos 3D"@ {
        Some("3D Objects"@)
    } else {
        None
    }
}

/// With a home folder known, the first place is the home folder itself,
/// and each of the next seven opens, under the home folder, the
/// well-known folder its label names (Documentos opens `Documents`,
/// Downloads opens `Downloads`, ...), so no two of them are the same
/// folder.
pub proof fn law_home_places(initial: Seq<char>, h: Seq<char>)
    ensures
        proposed(initial, Some(h))[0] == ("Início"@, h),
        forall|k: int|
            1 <= k < 8 ==> home_folder_of(#[trigger] proposed(initial, Some(h))[k].0) is Some
                && file_name(proposed(initial, Some(h))[k].1) == home_folder_of(
                proposed(initial, Some(h))[k].0,
            ),
        forall|k: int, l: int|
            1 <= k < l < 8 ==> !same_path(
                #[trigger] proposed(initial, Some(h))[k].1,
                #[trigger] proposed(initial, Some(h))[l].1,
            ),
{
    reveal_strlit("Área de Trabalho");
    reveal_strlit("Documentos");
    reveal_strlit("Downloads");
    reveal_strlit("Imagens");
    reveal_strlit("Vídeos");
    reveal_strlit("Músicas");
    reveal_strlit("Objetos 3D");
    reveal_strlit("Desktop");
    reveal_strlit("Documents");
    reveal_strlit("Pictures");
    reveal_strlit("Videos");
    reveal_strlit("Music");
    reveal_strlit("3D Objects");
    let p = proposed(initial, Some(h));
    let names = seq![
        "Desktop"@,
        "Documents"@,
        "Downloads"@,
        "Pictures"@,
        "Videos"@,
        "Music"@,
        "3D Objects"@,
    ];
    let head = seq![
        ("Início"@, h),
        ("Área de Trabalho"@, join(h, "Desktop"@)),
        ("Documentos"@, join(h, "Documents"@)),
        ("Downloads"@, join(h, "Downloads"@)),
        ("Imagens"@, join(h, "Pictures"@)),
        ("Vídeos"@, join(h, "Videos"@)),
        ("Músicas"@, join(h, "Music"@)),
        ("Objetos 3D"@, join(h, "3D Objects"@)),
    ];
    assert(p =~= head + seq![("Pasta atual"@, initial), ("Sistema"@, "/"@)]);
    assert("Área de Trabalho"@[0] == 'Á');
    assert("Documentos"@[0] == 'D' && "Documentos"@[2] == 'c');
    assert("Downloads"@[0] == 'D' && "Downloads"@[2] == 'w');
    assert("Imagens"@[0] == 'I');
    assert("Vídeos"@[0] == 'V');
    assert("Músicas"@[0] == 'M');
    assert("Objetos 3D"@[0] == 'O');
    assert(home_folder_of("Área de Trabalho"@) == Some(names[0]));
    assert(home_folder_of("Documentos"@) == Some(names[1]));
    assert(home_folder_of("Downloads"@) == Some(names[2]));
    assert(home_folder_of("Imagens"@) == Some(names[3]));
    assert(home_folder_of("Vídeos"@) == Some(names[4]));
    assert(home_folder_of("Músicas"@) == Some(names[5]));
    assert(home_folder_of("Objetos 3D"@) == Some(names[6]));
    assert forall|k: int| 1 <= k < 8 implies p[k].1 == join(h, names[k - 1]) && home_folder_of(
        p[k].0,
    ) == Some(names[k - 1]) by {
        assert(p[k] == head[k]);
    }
    assert forall|k: int| 0 <= k < 7 implies file_name(join(h, #[trigger] names[k])) == Some(
        names[k],
    ) by {
        let t = names[k];
        assert(t.len() > 2);
        assert forall|i: int| 0 <= i < t.len() implies t[i] != '/' by {}
        crate::path::lemma_file_name_of_join(h, t);
    }
    assert("Documents"@[2] == 'c' && "Downloads"@[2] == 'w');
    assert forall|k: int, l: int| 0 <= k < l < 7 implies names[k] != names[l] by {
        if names[k].len() == names[l].len() {
            assert(names[k][2] != names[l][2]);
        }
    }
    assert forall|k: int, l: int| 1 <= k < l < 8 implies !same_path(
        #[trigger] p[k].1,
        #[trigger] p[l].1,
    ) by {
        assert(file_name(p[k].1) == Some(names[k - 1]));
        assert(file_name(p[l].1) == Some(names[l - 1]));
        if same_path(p[k].1, p[l].1) {
            crate::path::lemma_same_path_same_name(p[k].1, p[l].1);
        }
    }
}

fn proposal(label: &str, path: String) -> (r: LocationEntry)
    ensures
        r.label@ == label@,
        r.path == path,
{
    LocationEntry { label: String::from_str(label), path }
}

fn under(h: &[char], name: &str) -> (r: String)
    ensures
        r@ == join(h@, name@),
{
    let j = path_join_str(h, name);
    crate::text::string_of(&j)
}

/// The places to check, in order: `home` is the user's home folder when
/// known.
pub fn location_candidates(initial_path: &str, home: Option<&str>) -> (r: Vec<LocationEntry>)
    ensures
        places(r@) == proposed(initial_path@, crate::converters::paths::view_opt(home)),
{
    let mut r: Vec<LocationEntry> = Vec::new();
    match home {
        Some(h) => {
            let hc = chars_of(h);
            r.push(proposal("Início", String::from_str(h)));
            r.push(proposal("Área de Trabalho", under(&hc, "Desktop")));
            r.push(proposal("Documentos", under(&hc, "Documents")));
            r.push(proposal("Downloads", under(&hc, "Downloads")));
            r.push(proposal("Imagens", under(&hc, "Pictures")));
            r.push(proposal("Vídeos", under(&hc, "Videos")));
            r.push(proposal("Músicas", under(&hc, "Music")));
            r.push(proposal("Objetos 3D", under(&hc, "3D Objects")));
        },
        None => {},
    }
    r.push(proposal("Pasta atual", String::from_str(initial_path)));
    r.push(proposal("Sistema", String::from_str("/")));
    assert(places(r@) =~= proposed(initial_path@, crate::converters::paths::view_opt(home)));
    r
}

/// Every place of `cs` offered in turn.
pub open spec fn offered_all(ls: Seq<(Seq<char>, Seq<char>)>, cs: Seq<(Seq<char>, Seq<char>)>, is_dir: Seq<bool>) -> Seq<(Seq<char>, Seq<char>)>
    decreases cs.len(),
{
    if cs.len() == 0 || is_dir.len() < cs.len() {
        ls
    } else {
        offered(
            offered_all(ls, cs.drop_last(), is_dir.take(cs.len() - 1)),
            cs.last().0,
            cs.last().1,
            is_dir[cs.len() - 1],
        )
    }
}

/// The side panel's places: the candidates that are folders
/// (`is_dir[i]` for `candidates[i]`), without repeated paths.
pub fn default_locations(candidates: &Vec<LocationEntry>, is_dir: &[bool]) -> (r: Vec<LocationEntry>)
    requires
        candidates@.len() == is_dir@.len(),
    ensures
        places(r@) == offered_all(Seq::empty(), places(candidates@), is_dir@),
{
    let mut r: Vec<LocationEntry> = Vec::new();
    let mut i: usize = 0;
    while i < candidates.len()
        invariant
            i <= candidates@.len(),
            candidates@.len() == is_dir@.len(),
            places(r@) == offered_all(
                Seq::empty(),
                places(candidates@).take(i as int),
                is_dir@.take(i as int),
            ),
        decreases candidates@.len() - i,
    {
        add_location(&mut r, candidates[i].label.as_str(), candidates[i].path.as_str(), is_dir[i]);
        proof {
            let c1 = places(candidates@).take(i + 1);
            let d1 = is_dir@.take(i + 1);
            assert(c1.drop_last() =~= places(candidates@).take(i as int));
            assert(d1.take(c1.len() - 1) =~= is_dir@.take(i as int));
            assert(c1.last() == (candidates@[i as int].label@, candidates@[i as int].path@));
        }
        i = i + 1;
    }
    assert(places(candidates@).take(candidates@.len() as int) =~= places(candidates@));
    assert(is_dir@.take(candidates@.len() as int) =~= is_dir@);
    r
}

} // verus!
