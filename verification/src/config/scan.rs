//! The BepInEx configuration folder and the `.cfg` files listed in it.
use crate::stable::{keeps_order, lemma_insert_next, rearranges, stable_rearrangement};
use vstd::prelude::*;

use crate::paths::{join_path, path_join};
use crate::mods::order::{key_lt, lemma_key_lt_transitive, lemma_text_lt_irreflexive, text_lt_exec};
use crate::text::{
    chars_eq, chars_of, ends_with, ends_with_exec, eq_ignore_case, eq_ignore_case_exec, lowercase, slice_chars,
    string_of, to_lower,
};

verus! {

/// One configuration file found in the folder.
#[derive(Debug, Clone, PartialEq, Eq)]
pub struct ConfigFileSummary {
    pub path: String,
    pub file_name: String,
    pub display_name: String,
}

/// Why configuration files could not be listed, read or written.
#[derive(Debug, Clone, PartialEq, Eq)]
pub enum ConfigError {
    Io(String),
    NotADirectory { path: String },
    Parse(String),
}

/// Where BepInEx keeps its configuration files.
pub fn bepinex_config_folder(install_folder: &str) -> (r: String)
    ensures
        r@ == join_path(install_folder@, "BepInEx/config"@),
{
    path_join(install_folder, "BepInEx/config")
}

/// The name shown for a configuration file: without its `.cfg` or `.CFG`
/// suffix.
pub open spec fn display_name_spec(file_name: Seq<char>) -> Seq<char> {
    if ends_with(file_name, ".cfg"@) || ends_with(file_name, ".CFG"@) {
        file_name.take(file_name.len() - 4)
    } else {
        file_name
    }
}

/// The name shown for a configuration file.
pub fn display_name_from_file_name(file_name: &str) -> (r: String)
    ensures
        r@ == display_name_spec(file_name@),
{
    let v = chars_of(file_name);
    let lower = chars_of(".cfg");
    let upper = chars_of(".CFG");
    if ends_with_exec(&v, &lower) || ends_with_exec(&v, &upper) {
        proof {
            reveal_strlit(".cfg");
            reveal_strlit(".CFG");
        }
        string_of(&slice_chars(&v, 0, v.len() - 4))
    } else {
        file_name.to_owned()
    }
}

/// The summary of a configuration file at `path` named `file_name`.
pub fn config_file_summary(path: String, file_name: String) -> (r: ConfigFileSummary)
    ensures
        r.path@ == path@,
        r.file_name@ == file_name@,
        r.display_name@ == display_name_spec(file_name@),
{
    let display_name = display_name_from_file_name(file_name.as_str());
    ConfigFileSummary { path, file_name, display_name }
}

/// The text shown for a configuration error.
pub open spec fn config_error_text(e: ConfigError) -> Seq<char> {
    match e {
        ConfigError::Io(d) => "filesystem error: "@ + d@,
        ConfigError::NotADirectory { path } => "expected a directory: "@ + path@,
        ConfigError::Parse(d) => d@,
    }
}

impl ConfigError {
    /// The error as shown to the user.
    pub fn message(&self) -> (r: String)
        ensures
            r@ == config_error_text(*self),
    {
        match self {
            ConfigError::Io(d) => {
                let mut r = String::new();
                crate::text::append_str(&mut r, "filesystem error: ");
                crate::text::append_str(&mut r, d.as_str());
                r
            },
            ConfigError::NotADirectory { path } => {
                let mut r = String::new();
                crate::text::append_str(&mut r, "expected a directory: ");
                crate::text::append_str(&mut r, path.as_str());
                r
            },
            ConfigError::Parse(d) => {
                let mut r = String::new();
                crate::text::append_str(&mut r, d.as_str());
                r
            },
        }
    }
}

/// A folder entry as listed: its path, its file name, whether it is a
/// file, and its extension when it has one.
#[derive(Debug, Clone)]
pub struct FolderEntry {
    pub path: String,
    pub file_name: String,
    pub is_file: bool,
    pub extension: Option<String>,
}

/// The entry is a configuration file: a file whose extension is `cfg` in
/// any case.
pub open spec fn is_config_entry(e: FolderEntry) -> bool {
    e.is_file && match e.extension {
        Some(x) => eq_ignore_case(x@, "cfg"@),
        None => false,
    }
}

/// The configuration files among the entries, in order.
pub open spec fn config_entries(es: Seq<FolderEntry>) -> Seq<FolderEntry>
    decreases es.len(),
{
    if es.len() == 0 {
        Seq::empty()
    } else {
        config_entries(es.drop_last()) + if is_config_entry(es.last()) {
            seq![es.last()]
        } else {
            Seq::empty()
        }
    }
}

/// `f` summarizes the entry.
pub open spec fn summarizes(e: FolderEntry, f: ConfigFileSummary) -> bool {
    &&& f.path@ == e.path@
    &&& f.file_name@ == e.file_name@
    &&& f.display_name@ == display_name_spec(e.file_name@)
}

/// The sort key of a configuration file: its shown name lower-cased, then
/// its file name.
pub open spec fn config_key(f: ConfigFileSummary) -> (Seq<char>, Seq<char>) {
    (lowercase(f.display_name@), f.file_name@)
}

/// No file sorts before one that comes earlier.
pub open spec fn config_files_sorted(s: Seq<ConfigFileSummary>) -> bool {
    forall|i: int, j: int| 0 <= i < j < s.len() ==> !key_lt(#[trigger] config_key(s[j]), #[trigger] config_key(s[i]))
}

/// Two configuration files have the same sort key.
pub open spec fn same_config_key() -> spec_fn(ConfigFileSummary, ConfigFileSummary) -> bool {
    |a: ConfigFileSummary, b: ConfigFileSummary| config_key(a) == config_key(b)
}

/// Sorts configuration files by shown name lower-cased, then file name;
/// files with the same key keep their order.
pub fn sort_config_files(items: Vec<ConfigFileSummary>) -> (r: Vec<ConfigFileSummary>)
    ensures
        r@.to_multiset() == items@.to_multiset(),
        config_files_sorted(r@),
        stable_rearrangement(items@, r@, same_config_key()),
{
    let mut out: Vec<ConfigFileSummary> = Vec::new();
    let mut keys: Vec<(Vec<char>, Vec<char>)> = Vec::new();
    let mut rest = items;
    let ghost orig = rest@;
    let ghost mut taken: int = 0;
    let ghost mut perm: Seq<int> = Seq::empty();
    proof {
        assert(orig.take(0) =~= Seq::<ConfigFileSummary>::empty());
        assert(orig.skip(0) =~= orig);
    }
    while rest.len() > 0
        invariant
            0 <= taken <= orig.len(),
            taken + rest.len() == orig.len(),
            rest@ == orig.skip(taken),
            out@.to_multiset() == orig.take(taken).to_multiset(),
            config_files_sorted(out@),
            rearranges(orig.take(taken), out@, perm),
            keeps_order(out@, perm, same_config_key()),
            keys@.len() == out@.len(),
            forall|k: int| 0 <= k < out@.len() ==> (#[trigger] keys@[k]).0@ == config_key(out@[k]).0 && keys@[k].1@ == config_key(out@[k]).1,
        decreases rest.len(),
    {
        let item = rest.remove(0);
        let dk = chars_of(to_lower(item.display_name.as_str()).as_str());
        let ek = chars_of(item.file_name.as_str());
        let ghost kx = config_key(item);
        assert(dk@ == kx.0 && ek@ == kx.1);
        let mut q: usize = 0;
        while q < out.len()
            invariant
                q <= out.len(),
                keys@.len() == out@.len(),
                forall|k: int| 0 <= k < out@.len() ==> (#[trigger] keys@[k]).0@ == config_key(out@[k]).0 && keys@[k].1@ == config_key(out@[k]).1,
                dk@ == kx.0 && ek@ == kx.1,
                forall|j: int| 0 <= j < q ==> !key_lt(kx, #[trigger] config_key(out@[j])),
            ensures
                q <= out.len(),
                forall|j: int| 0 <= j < q ==> !key_lt(kx, #[trigger] config_key(out@[j])),
                q < out.len() ==> key_lt(kx, config_key(out@[q as int])),
            decreases out.len() - q,
        {
            let kq = &keys[q];
            assert(kq.0@ == config_key(out@[q as int]).0 && kq.1@ == config_key(out@[q as int]).1);
            let lt = text_lt_exec(&dk, &kq.0) || (chars_eq(&dk, &kq.0) && text_lt_exec(&ek, &kq.1));
            if lt {
                break;
            }
            q += 1;
        }
        let p = q;
        let ghost before = out@;
        proof {
            assert forall|k: int| p <= k < before.len() implies !key_lt(#[trigger] config_key(before[k]), kx) by {
                assert(key_lt(kx, config_key(before[p as int])));
                if key_lt(config_key(before[k]), kx) {
                    lemma_key_lt_transitive(config_key(before[k]), kx, config_key(before[p as int]));
                    if k == p {
                        lemma_text_lt_irreflexive(config_key(before[k]).0, 0);
                        lemma_text_lt_irreflexive(config_key(before[k]).1, 0);
                    } else {
                        assert(!key_lt(config_key(before[k]), config_key(before[p as int])));
                    }
                }
            }
        }
        proof {
            assert forall|k: int| p <= k < before.len() implies !same_config_key()(orig[taken], #[trigger] before[k]) by {
                assert(orig[taken] == item);
                if config_key(before[k]) == kx {
                    if k == p {
                        lemma_text_lt_irreflexive(kx.0, 0);
                        lemma_text_lt_irreflexive(kx.1, 0);
                    } else {
                        assert(!key_lt(config_key(before[k]), config_key(before[p as int])));
                    }
                }
            }
            lemma_insert_next(orig, taken, before, perm, p as int, same_config_key());
            perm = perm.insert(p as int, taken);
        }
        out.insert(p, item);
        keys.insert(p, (dk, ek));
        proof {
            let after = out@;
            assert(after == before.insert(p as int, item));
            assert forall|i: int, j: int| 0 <= i < j < after.len() implies !key_lt(#[trigger] config_key(after[j]), #[trigger] config_key(after[i])) by {
                if i < p && j < p {
                    assert(after[i] == before[i] && after[j] == before[j]);
                } else if i < p && j == p {
                    assert(after[i] == before[i]);
                } else if i < p && j > p {
                    assert(after[i] == before[i] && after[j] == before[j - 1]);
                } else if i == p {
                    assert(after[j] == before[j - 1]);
                } else {
                    assert(after[i] == before[i - 1] && after[j] == before[j - 1]);
                }
            }
            assert forall|k: int| 0 <= k < after.len() implies (#[trigger] keys@[k]).0@ == config_key(after[k]).0 && keys@[k].1@ == config_key(after[k]).1 by {
                if k > p {
                    assert(after[k] == before[k - 1]);
                }
            }
            assert(orig.take(taken + 1) =~= orig.take(taken).push(orig[taken]));
            assert(orig[taken] == item);
            vstd::seq_lib::to_multiset_insert(before, p as int, item);
            vstd::seq_lib::to_multiset_build(orig.take(taken), item);
            taken = taken + 1;
            assert(rest@ =~= orig.skip(taken));
        }
    }
    assert(orig.take(orig.len() as int) =~= orig);
    assert(rearranges(items@, out@, perm) && keeps_order(out@, perm, same_config_key()));
    out
}

/// Is this entry a configuration file?
fn config_entry(e: &FolderEntry) -> (r: bool)
    ensures
        r == is_config_entry(*e),
{
    e.is_file && match &e.extension {
        Some(x) => eq_ignore_case_exec(&chars_of(x.as_str()), &chars_of("cfg")),
        None => false,
    }
}

/// Lists the configuration files in BepInEx's folder from what the folder
/// holds: none when it does not exist, an error when it is not a
/// directory, else the summaries of its `.cfg` files (extension in any
/// case), sorted by shown name lower-cased and then file name; files with
/// the same key keep the listing's order.
pub fn scan_config_files(install_folder: &str, exists: bool, is_dir: bool, entries: Vec<FolderEntry>) -> (r: Result<
    Vec<ConfigFileSummary>,
    ConfigError,
>)
    ensures
        !exists ==> (r matches Ok(v) && v@.len() == 0),
        exists && !is_dir ==> (r matches Err(ConfigError::NotADirectory { path }) && path@ == join_path(
            install_folder@,
            "BepInEx/config"@,
        )),
        exists && is_dir ==> (r matches Ok(v) && config_files_sorted(v@) && exists|c: Seq<ConfigFileSummary>|
            #![trigger c.to_multiset()]
            c.len() == config_entries(entries@).len() && (forall|j: int|
                0 <= j < c.len() ==> summarizes(config_entries(entries@)[j], #[trigger] c[j]))
                && v@.to_multiset() == c.to_multiset() && stable_rearrangement(c, v@, same_config_key())),
{
    if !exists {
        return Ok(Vec::new());
    }
    if !is_dir {
        return Err(ConfigError::NotADirectory { path: bepinex_config_folder(install_folder) });
    }
    let ghost orig = entries@;
    let mut rest = entries;
    let mut files: Vec<ConfigFileSummary> = Vec::new();
    let ghost mut taken: int = 0;
    proof {
        assert(orig.skip(0) =~= orig);
        assert(orig.take(0) =~= Seq::<FolderEntry>::empty());
    }
    while rest.len() > 0
        invariant
            0 <= taken <= orig.len(),
            taken + rest.len() == orig.len(),
            rest@ == orig.skip(taken),
            files@.len() == config_entries(orig.take(taken)).len(),
            forall|j: int| 0 <= j < files@.len() ==> summarizes(config_entries(orig.take(taken))[j], #[trigger] files@[j]),
        decreases rest.len(),
    {
        let e = rest.remove(0);
        let ghost before = files@;
        proof {
            assert(e == orig[taken]);
            assert(orig.take(taken + 1).drop_last() =~= orig.take(taken));
            assert(orig.take(taken + 1).last() == e);
        }
        if config_entry(&e) {
            let summary = config_file_summary(e.path, e.file_name);
            files.push(summary);
        }
        proof {
            let kt = config_entries(orig.take(taken));
            let kt2 = config_entries(orig.take(taken + 1));
            assert forall|j: int| 0 <= j < files@.len() implies summarizes(kt2[j], #[trigger] files@[j]) by {
                if j < before.len() {
                    assert(files@[j] == before[j]);
                    assert(kt2[j] == kt[j]);
                }
            }
            taken = taken + 1;
            assert(rest@ =~= orig.skip(taken));
        }
    }
    assert(orig.take(orig.len() as int) =~= orig);
    let ghost c = files@;
    let sorted = sort_config_files(files);
    assert(sorted@.to_multiset() == c.to_multiset());
    Ok(sorted)
}
} // verus!
