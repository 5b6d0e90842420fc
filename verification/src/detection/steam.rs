//! Where Steam keeps its libraries on Linux, and reading the library list
//! out of `libraryfolders.vdf`.
use vstd::prelude::*;

use crate::paths::{join_path, path_join, path_join2, same_path, same_path_exec};
use crate::text::{chars_of, lines, lines_of, string_of, trim, trim_chars, trim_matches, trim_matches_exec, starts_with, starts_with_exec, slice_chars};

verus! {

/// The Steam root folders tried under a home folder, in order: the usual
/// install, the XDG data folder, the Flatpak build (both layouts) and the
/// Snap build (both layouts).
pub open spec fn steam_roots_spec(home: Seq<char>) -> Seq<Seq<char>> {
    let var_app = join_path(join_path(join_path(home, ".var"@), "app"@), "com.valvesoftware.Steam"@);
    let snap = join_path(join_path(join_path(home, "snap"@), "steam"@), "common"@);
    seq![
        join_path(join_path(home, ".steam"@), "steam"@),
        join_path(join_path(join_path(home, ".local"@), "share"@), "Steam"@),
        join_path(join_path(join_path(var_app, ".local"@), "share"@), "Steam"@),
        join_path(join_path(var_app, ".steam"@), "steam"@),
        join_path(join_path(join_path(snap, ".local"@), "share"@), "Steam"@),
        join_path(join_path(snap, ".steam"@), "steam"@),
    ]
}

/// The Steam root folders to try under `home`.
pub fn candidate_steam_roots(home: &str) -> (r: Vec<String>)
    ensures
        r.deep_view() == steam_roots_spec(home@),
{
    let var_app = path_join2(home, ".var", "app");
    let var_app = path_join(var_app.as_str(), "com.valvesoftware.Steam");
    let snap = path_join2(home, "snap", "steam");
    let snap = path_join(snap.as_str(), "common");
    let local = path_join2(home, ".local", "share");
    let var_local = path_join2(var_app.as_str(), ".local", "share");
    let snap_local = path_join2(snap.as_str(), ".local", "share");
    let mut r: Vec<String> = Vec::new();
    r.push(path_join2(home, ".steam", "steam"));
    r.push(path_join(local.as_str(), "Steam"));
    r.push(path_join(var_local.as_str(), "Steam"));
    r.push(path_join2(var_app.as_str(), ".steam", "steam"));
    r.push(path_join(snap_local.as_str(), "Steam"));
    r.push(path_join2(snap.as_str(), ".steam", "steam"));
    assert(r.deep_view() =~= steam_roots_spec(home@));
    r
}

/// The library path a `libraryfolders.vdf` line names, if it is a
/// `"path"` entry with a non-empty value.
pub open spec fn library_path_of_line(line: Seq<char>) -> Option<Seq<char>> {
    let t = trim(line);
    let key = "\"path\""@;
    if starts_with(t, key) {
        let value = trim_matches(trim(t.skip(key.len() as int)), '"');
        if value.len() > 0 {
            Some(value)
        } else {
            None
        }
    } else {
        None
    }
}

/// The library paths named by the first `n` lines, in order.
pub open spec fn library_paths_spec(ls: Seq<Seq<char>>) -> Seq<Seq<char>>
    decreases ls.len(),
{
    if ls.len() == 0 {
        Seq::empty()
    } else {
        let init = library_paths_spec(ls.drop_last());
        match library_path_of_line(ls.last()) {
            Some(p) => init.push(p),
            None => init,
        }
    }
}

/// Reads the library paths that `libraryfolders.vdf` lists, in order.
pub fn library_paths_from_vdf(contents: &str) -> (r: Vec<String>)
    ensures
        r.deep_view() == library_paths_spec(lines(contents@)),
{
    let v = chars_of(contents);
    let ls = lines_of(&v);
    let key = chars_of("\"path\"");
    let mut paths: Vec<String> = Vec::new();
    let mut i: usize = 0;
    while i < ls.len()
        invariant
            i <= ls.len(),
            v@ == contents@,
            key@ == "\"path\""@,
            ls@.len() == lines(v@).len(),
            forall|k: int| 0 <= k < ls@.len() ==> (#[trigger] ls@[k])@ == lines(v@)[k],
            paths.deep_view() == library_paths_spec(lines(v@).take(i as int)),
        decreases ls.len() - i,
    {
        let t = trim_chars(&ls[i]);
        proof {
            assert(lines(v@).take(i as int + 1).drop_last() =~= lines(v@).take(i as int));
            assert(lines(v@).take(i as int + 1).last() == ls@[i as int]@);
        }
        if starts_with_exec(&t, &key) {
            let after = slice_chars(&t, key.len(), t.len());
            let after_t = trim_chars(&after);
            let value = trim_matches_exec(&after_t, '"');
            proof {
                assert(after@ == t@.skip(key@.len() as int));
            }
            if value.len() > 0 {
                paths.push(string_of(&value));
            }
        }
        i += 1;
        proof {
            assert(paths.deep_view() =~= library_paths_spec(lines(v@).take(i as int)));
        }
    }
    assert(lines(v@).take(i as int) =~= lines(v@));
    paths
}

/// `paths` with `candidate` added at the end unless a path equal to it,
/// component by component, is already there.
pub open spec fn push_unique_spec(paths: Seq<Seq<char>>, candidate: Seq<char>) -> Seq<Seq<char>> {
    if exists|j: int| 0 <= j < paths.len() && same_path(#[trigger] paths[j], candidate) {
        paths
    } else {
        paths.push(candidate)
    }
}

/// Adds `candidate` to `paths` unless an equal path is already there.
pub fn push_unique(paths: &mut Vec<String>, candidate: String)
    ensures
        final(paths).deep_view() == push_unique_spec(old(paths).deep_view(), candidate@),
{
    let mut i: usize = 0;
    while i < paths.len()
        invariant
            i <= paths.len(),
            forall|j: int| 0 <= j < i ==> !same_path(#[trigger] paths.deep_view()[j], candidate@),
        decreases paths.len() - i,
    {
        if same_path_exec(paths[i].as_str(), candidate.as_str()) {
            proof {
                assert(paths.deep_view()[i as int] == paths@[i as int]@);
                assert(same_path(paths.deep_view()[i as int], candidate@));
            }
            return;
        }
        proof {
            assert(paths.deep_view()[i as int] == paths@[i as int]@);
        }
        i += 1;
    }
    paths.push(candidate);
    proof {
        assert(paths.deep_view() =~= old(paths).deep_view().push(candidate@));
    }
}

/// The `steamapps/common` folders that one Steam root contributes after
/// `acc`: those of the libraries its `libraryfolders.vdf` lists (when
/// that file was read), then its own.
pub open spec fn root_common_folders(acc: Seq<Seq<char>>, root: Seq<char>, vdf: Option<Seq<char>>) -> Seq<Seq<char>> {
    let with_libraries = match vdf {
        Some(text) => push_all_common(acc, library_paths_spec(lines(text))),
        None => acc,
    };
    push_unique_spec(with_libraries, join_path(join_path(root, "steamapps"@), "common"@))
}

/// `acc` with the common folder of each library in `libs` pushed uniquely.
pub open spec fn push_all_common(acc: Seq<Seq<char>>, libs: Seq<Seq<char>>) -> Seq<Seq<char>>
    decreases libs.len(),
{
    if libs.len() == 0 {
        acc
    } else {
        push_unique_spec(
            push_all_common(acc, libs.drop_last()),
            join_path(join_path(libs.last(), "steamapps"@), "common"@),
        )
    }
}

/// The common folders of the first roots, in order, without repeats.
pub open spec fn common_folders_spec(roots: Seq<Seq<char>>, vdfs: Seq<Option<Seq<char>>>) -> Seq<Seq<char>>
    decreases roots.len(),
{
    if roots.len() == 0 || vdfs.len() < roots.len() {
        Seq::empty()
    } else {
        let n = roots.len() - 1;
        root_common_folders(common_folders_spec(roots.drop_last(), vdfs.take(n)), roots[n], vdfs[n])
    }
}

/// The view of an optional text.
pub open spec fn opt_view(o: Option<String>) -> Option<Seq<char>> {
    match o {
        Some(s) => Some(s@),
        None => None,
    }
}

/// The `steamapps/common` folders of the given Steam roots, without repeats.
///
/// `vdf_contents[i]` is the text of `libraryfolders.vdf` under
/// `steam_roots[i]` when that file exists; its libraries come before the
/// root's own common folder.
pub fn common_folders_from_steam_roots(steam_roots: &Vec<String>, vdf_contents: &Vec<Option<String>>) -> (r: Vec<String>)
    requires
        vdf_contents.len() == steam_roots.len(),
    ensures
        r.deep_view() == common_folders_spec(
            steam_roots.deep_view(),
            vdf_contents@.map_values(|o: Option<String>| opt_view(o)),
        ),
{
    let ghost roots = steam_roots.deep_view();
    let ghost vdfs = vdf_contents@.map_values(|o: Option<String>| opt_view(o));
    let mut folders: Vec<String> = Vec::new();
    let mut i: usize = 0;
    while i < steam_roots.len()
        invariant
            i <= steam_roots.len() == vdf_contents.len(),
            roots == steam_roots.deep_view(),
            vdfs == vdf_contents@.map_values(|o: Option<String>| opt_view(o)),
            folders.deep_view() == common_folders_spec(roots.take(i as int), vdfs.take(i as int)),
        decreases steam_roots.len() - i,
    {
        let ghost before = folders.deep_view();
        match &vdf_contents[i] {
            Some(text) => {
                let libs = library_paths_from_vdf(text.as_str());
                let mut k: usize = 0;
                while k < libs.len()
                    invariant
                        k <= libs.len(),
                        folders.deep_view() == push_all_common(before, libs.deep_view().take(k as int)),
                    decreases libs.len() - k,
                {
                    let c = path_join2(libs[k].as_str(), "steamapps", "common");
                    push_unique(&mut folders, c);
                    proof {
                        assert(libs.deep_view().take(k as int + 1).drop_last() =~= libs.deep_view().take(k as int));
                    }
                    k += 1;
                }
                assert(libs.deep_view().take(k as int) =~= libs.deep_view());
            },
            None => {},
        }
        let own = path_join2(steam_roots[i].as_str(), "steamapps", "common");
        push_unique(&mut folders, own);
        proof {
            let r2 = roots.take(i as int + 1);
            let v2 = vdfs.take(i as int + 1);
            assert(r2.drop_last() =~= roots.take(i as int));
            assert(v2.take(i as int) =~= vdfs.take(i as int));
            assert(r2[i as int] == steam_roots@[i as int]@);
            assert(v2[i as int] == opt_view(vdf_contents@[i as int]));
        }
        i += 1;
    }
    assert(roots.take(i as int) =~= roots);
    assert(vdfs.take(i as int) =~= vdfs);
    folders
}

} // verus!
