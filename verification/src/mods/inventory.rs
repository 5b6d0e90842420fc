//! What an installed mod is, where mods live, and what the manager reads
//! from a mod's folder.
use vstd::prelude::*;

use crate::paths::{join_path, path_join};
use crate::text::{chars_of, eq_ignore_case, eq_ignore_case_exec, split_char, split_chars, find_sub_exec, find_sub_from, find_char_from, find_from, has_char, has_char_exec, lead_index, lead_ws, push_char, slice_chars, starts_with, starts_with_exec, string_of};

verus! {

/// Whether a mod is a folder or a loose assembly.
#[derive(Debug, Clone, Copy, PartialEq, Eq, Structural)]
pub enum ModKind {
    Folder,
    Assembly,
}

/// Where a mod came from.
#[derive(Debug, Clone, Copy, PartialEq, Eq, Structural)]
pub enum ModSource {
    Thunderstore,
    Nexus,
    Unknown,
}

impl ModSource {
    /// The name shown for the source.
    pub fn label(self) -> (r: &'static str)
        ensures
            r@ == match self {
                ModSource::Thunderstore => "thunderstore"@,
                ModSource::Nexus => "nexus"@,
                ModSource::Unknown => "local"@,
            },
    {
        match self {
            ModSource::Thunderstore => "thunderstore",
            ModSource::Nexus => "nexus",
            ModSource::Unknown => "local",
        }
    }
}

/// A mod found in the plugin folders.
#[derive(Debug, Clone, PartialEq, Eq)]
pub struct InstalledMod {
    pub entry_name: String,
    pub display_name: String,
    pub version: Option<String>,
    pub enabled: bool,
    pub path: String,
    pub kind: ModKind,
    pub source: ModSource,
}

/// Where enabled mods live.
pub fn plugins_folder(install_folder: &str) -> (r: String)
    ensures
        r@ == join_path(install_folder@, "BepInEx/plugins"@),
{
    path_join(install_folder, "BepInEx/plugins")
}

/// Where disabled mods live.
pub fn disabled_folder(install_folder: &str) -> (r: String)
    ensures
        r@ == join_path(install_folder@, "BepInEx/plugins_disabled"@),
{
    path_join(install_folder, "BepInEx/plugins_disabled")
}

/// Where removed mods are kept.
pub fn removed_folder(install_folder: &str) -> (r: String)
    ensures
        r@ == join_path(install_folder@, "BepInEx/.manager_removed"@),
{
    path_join(install_folder, "BepInEx/.manager_removed")
}

/// Index of the last `.` in a file name; `name.len()` when there is none.
pub open spec fn last_dot(name: Seq<char>, i: int) -> int
    decreases i,
{
    if i <= 0 || i > name.len() {
        name.len() as int
    } else if name[i - 1] == '.' {
        i - 1
    } else {
        last_dot(name, i - 1)
    }
}

/// Index where a file name's extension starts after its dot: `None` when
/// the name has no dot past its first character (`Path::extension`).
pub open spec fn extension_dot(name: Seq<char>) -> Option<int> {
    let k = last_dot(name, name.len() as int);
    if k >= name.len() || k <= 0 {
        None
    } else {
        Some(k)
    }
}

/// The last part of a path split at `/` that is neither empty nor `.`,
/// if any: the last component `Path::components` gives.
pub open spec fn last_part(parts: Seq<Seq<char>>) -> Option<Seq<char>>
    decreases parts.len(),
{
    if parts.len() == 0 {
        None
    } else if parts.last().len() == 0 || parts.last() == "."@ {
        last_part(parts.drop_last())
    } else {
        Some(parts.last())
    }
}

/// The file name a path ends in (`Path::file_name`): its last component,
/// unless there is none or it is `..`.
pub open spec fn path_file_name(path: Seq<char>) -> Option<Seq<char>> {
    match last_part(split_char(path, '/')) {
        Some(p) => if p == ".."@ {
            None
        } else {
            Some(p)
        },
        None => None,
    }
}

/// Does a file name's extension read `dll` in any case?
pub open spec fn has_dll_extension(file_name: Seq<char>) -> bool {
    match extension_dot(file_name) {
        Some(k) => eq_ignore_case(file_name.skip(k + 1), "dll"@),
        None => false,
    }
}

/// Is the path that of an assembly: does the extension of the file name it
/// ends in read `dll` in any case?
pub open spec fn is_assembly_spec(name: Seq<char>) -> bool {
    match path_file_name(name) {
        Some(f) => has_dll_extension(f),
        None => false,
    }
}

/// The display name of a loose assembly: the file name its path ends in
/// without the extension, or the whole text when it ends in no file name
/// (`Path::file_stem`, falling back to the text).
pub open spec fn assembly_display_spec(name: Seq<char>) -> Seq<char> {
    match path_file_name(name) {
        Some(f) => file_stem_spec(f),
        None => name,
    }
}

/// The name of an assembly without its extension (`Path::file_stem`).
pub open spec fn file_stem_spec(name: Seq<char>) -> Seq<char> {
    match extension_dot(name) {
        Some(k) => name.take(k),
        None => name,
    }
}

/// Finds [`extension_dot`].
fn extension_dot_exec(name: &Vec<char>) -> (r: Option<usize>)
    ensures
        r matches Some(k) ==> 0 < k < name.len(),
        match extension_dot(name@) {
            Some(k) => r == Some(k as usize),
            None => r is None,
        },
{
    let mut i = name.len();
    while i > 0 && name[i - 1] != '.'
        invariant
            i <= name.len(),
            last_dot(name@, name.len() as int) == last_dot(name@, i as int),
        decreases i,
    {
        i -= 1;
    }
    if i == 0 || i - 1 == 0 {
        None
    } else {
        Some(i - 1)
    }
}

/// The file name a path ends in.
fn file_name_exec(name: &str) -> (r: Option<Vec<char>>)
    ensures
        match path_file_name(name@) {
            Some(f) => r matches Some(v) && v@ == f,
            None => r is None,
        },
{
    let v = chars_of(name);
    let parts = split_chars(&v, '/');
    let ghost sp = split_char(v@, '/');
    let mut i: usize = parts.len();
    proof {
        assert(sp.take(i as int) =~= sp);
    }
    while i > 0
        invariant
            i <= parts.len(),
            parts@.len() == sp.len(),
            sp == split_char(name@, '/'),
            forall|k: int| 0 <= k < parts@.len() ==> (#[trigger] parts@[k])@ == sp[k],
            last_part(sp) == last_part(sp.take(i as int)),
        decreases i,
    {
        let p = &parts[i - 1];
        let ghost t = sp.take(i as int);
        assert(t.last() == p@);
        assert(t.drop_last() =~= sp.take(i - 1));
        if p.len() == 0 || (p.len() == 1 && p[0] == '.') {
            proof {
                reveal_strlit(".");
                if p.len() == 1 {
                    assert(p@ =~= "."@);
                }
            }
            i -= 1;
        } else {
            proof {
                reveal_strlit(".");
                reveal_strlit("..");
                assert(p@ != "."@) by {
                    if p@ == "."@ {
                        assert(p@.len() == 1 && p@[0] == '.');
                    }
                }
            }
            if p.len() == 2 && p[0] == '.' && p[1] == '.' {
                assert(p@ =~= ".."@);
                return None;
            }
            assert(p@ != ".."@) by {
                if p@ == ".."@ {
                    assert(p@.len() == 2 && p@[0] == '.' && p@[1] == '.');
                }
            }
            return Some(slice_chars(p, 0, p.len()));
        }
    }
    assert(sp.take(0) =~= Seq::<Seq<char>>::empty());
    None
}

/// Is this path that of an assembly (a `.dll`, in any case)?
pub fn is_assembly(file_name: &str) -> (r: bool)
    ensures
        r == is_assembly_spec(file_name@),
{
    match file_name_exec(file_name) {
        Some(v) => match extension_dot_exec(&v) {
            Some(k) => {
                let ext = slice_chars(&v, k + 1, v.len());
                proof {
                    assert(ext@ == v@.skip(k + 1));
                }
                eq_ignore_case_exec(&ext, &chars_of("dll"))
            },
            None => false,
        },
        None => false,
    }
}

/// The display name of a loose assembly: its file name without extension.
pub fn display_name_from_assembly(file_name: &str) -> (r: String)
    ensures
        r@ == assembly_display_spec(file_name@),
{
    match file_name_exec(file_name) {
        Some(v) => match extension_dot_exec(&v) {
            Some(k) => string_of(&slice_chars(&v, 0, k)),
            None => string_of(&v),
        },
        None => file_name.to_owned(),
    }
}

/// Where a mod folder came from: a Nexus marker file or a `nexus-` name
/// means Nexus; otherwise a `-` in the name and a manifest mean
/// Thunderstore.
pub open spec fn detect_source_spec(has_nexus_meta: bool, entry_name: Seq<char>, has_manifest: bool) -> ModSource {
    if has_nexus_meta || starts_with(entry_name, "nexus-"@) {
        ModSource::Nexus
    } else if has_char(entry_name, '-') && has_manifest {
        ModSource::Thunderstore
    } else {
        ModSource::Unknown
    }
}

/// Where a mod folder came from, from whether the Nexus record and
/// the package description file are files in it.
pub fn detect_source(has_nexus_meta: bool, entry_name: &str, has_manifest: bool) -> (r: ModSource)
    ensures
        r == detect_source_spec(has_nexus_meta, entry_name@, has_manifest),
{
    let v = chars_of(entry_name);
    if has_nexus_meta || starts_with_exec(&v, &chars_of("nexus-")) {
        return ModSource::Nexus;
    }
    if has_char_exec(&v, '-') && has_manifest {
        return ModSource::Thunderstore;
    }
    ModSource::Unknown
}

/// The string a JSON text holds from index `i` on, up to its closing quote,
/// with each backslash taking the next character literally; `None` when
/// the string never closes.
pub open spec fn json_body(s: Seq<char>, i: int) -> Option<Seq<char>>
    decreases s.len() - i,
{
    if i < 0 || i >= s.len() {
        None
    } else if s[i] == '\\' {
        if i + 1 < s.len() {
            match json_body(s, i + 2) {
                Some(rest) => Some(seq![s[i + 1]] + rest),
                None => None,
            }
        } else {
            None
        }
    } else if s[i] == '"' {
        Some(Seq::empty())
    } else {
        match json_body(s, i + 1) {
            Some(rest) => Some(seq![s[i]] + rest),
            None => None,
        }
    }
}

/// The value of the first `"key"` in a JSON text when a string follows
/// its colon. A light reading that needs no full JSON parser.
pub open spec fn json_string_field_spec(text: Seq<char>, key: Seq<char>) -> Option<Seq<char>> {
    let pattern = seq!['"'] + key + seq!['"'];
    match find_sub_from(text, pattern, 0) {
        None => None,
        Some(k) => {
            let after = text.skip(k + pattern.len());
            let c = find_from(after, ':', 0);
            if c >= after.len() {
                None
            } else {
                let rest = after.skip(c + 1);
                let v = rest.skip(lead_ws(rest, 0));
                if v.len() > 0 && v[0] == '"' {
                    json_body(v, 1)
                } else {
                    None
                }
            }
        },
    }
}

/// Reads the JSON string body starting at `i`.
fn json_body_exec(s: &Vec<char>, i: usize) -> (r: Option<String>)
    requires
        i <= s.len(),
    ensures
        match json_body(s@, i as int) {
            Some(b) => r matches Some(o) && o@ == b,
            None => r is None,
        },
{
    let mut out = String::new();
    let mut k = i;
    while k < s.len()
        invariant
            i <= k <= s.len(),
            json_body(s@, i as int) == match json_body(s@, k as int) {
                Some(rest) => Some(out@ + rest),
                None => None::<Seq<char>>,
            },
        decreases s.len() - k,
    {
        let c = s[k];
        if c == '\\' {
            if k + 1 >= s.len() {
                return None;
            }
            let ghost before = out@;
            push_char(&mut out, s[k + 1]);
            proof {
                match json_body(s@, k + 2) {
                    Some(rest) => {
                        assert(before + (seq![s@[k + 1]] + rest) =~= out@ + rest);
                    },
                    None => {},
                }
            }
            k = k + 2;
        } else if c == '"' {
            assert(out@ + Seq::<char>::empty() =~= out@);
            return Some(out);
        } else {
            let ghost before = out@;
            push_char(&mut out, c);
            proof {
                match json_body(s@, k + 1) {
                    Some(rest) => {
                        assert(before + (seq![c] + rest) =~= out@ + rest);
                    },
                    None => {},
                }
            }
            k = k + 1;
        }
    }
    None
}

/// Reads the string value of the first `"key"` in a JSON text.
pub fn json_string_field(text: &str, key: &str) -> (r: Option<String>)
    ensures
        match json_string_field_spec(text@, key@) {
            Some(v) => r matches Some(o) && o@ == v,
            None => r is None,
        },
{
    let t = chars_of(text);
    let mut pattern: Vec<char> = Vec::new();
    pattern.push('"');
    let kv = chars_of(key);
    let mut i: usize = 0;
    while i < kv.len()
        invariant
            i <= kv.len(),
            pattern@ == seq!['"'] + kv@.take(i as int),
        decreases kv.len() - i,
    {
        pattern.push(kv[i]);
        i += 1;
        assert(pattern@ =~= seq!['"'] + kv@.take(i as int));
    }
    pattern.push('"');
    assert(kv@.take(kv.len() as int) =~= kv@);
    assert(pattern@ =~= seq!['"'] + key@ + seq!['"']);
    let k = match find_sub_exec(&t, &pattern, 0) {
        Some(k) => k,
        None => {
            return None;
        },
    };
    proof {
        crate::text::lemma_find_sub_from(t@, pattern@, 0);
        assert(crate::text::occurs_at(t@, pattern@, k as int));
        assert(k + pattern@.len() <= t@.len());
    }
    assert(k + pattern.len() <= t.len());
    let after = slice_chars(&t, k + pattern.len(), t.len());
    assert(after@ == t@.skip(k + pattern@.len()));
    let c = find_char_from(&after, ':', 0);
    if c >= after.len() {
        return None;
    }
    let rest = slice_chars(&after, c + 1, after.len());
    assert(rest@ == after@.skip(c + 1));
    let w = lead_index(&rest);
    let v = slice_chars(&rest, w, rest.len());
    assert(v@ == rest@.skip(lead_ws(rest@, 0)));
    if v.len() > 0 && v[0] == '"' {
        json_body_exec(&v, 1)
    } else {
        None
    }
}

/// The display name and version a mod folder's manifest gives, from the
/// manifest's text when it could be read: its `name`, and `version_number`
/// when present. Without a readable name, the folder's own name.
pub fn manifest_metadata(manifest: Option<String>, fallback_name: &str) -> (r: (String, Option<String>))
    ensures
        match manifest {
            Some(text) => match json_string_field_spec(text@, "name"@) {
                Some(name) => r.0@ == name && match json_string_field_spec(text@, "version_number"@) {
                    Some(v) => r.1 matches Some(o) && o@ == v,
                    None => r.1 is None,
                },
                None => r.0@ == fallback_name@ && r.1 is None,
            },
            None => r.0@ == fallback_name@ && r.1 is None,
        },
{
    match manifest {
        Some(text) => match json_string_field(text.as_str(), "name") {
            Some(name) => (name, json_string_field(text.as_str(), "version_number")),
            None => (fallback_name.to_owned(), None),
        },
        None => (fallback_name.to_owned(), None),
    }
}


/// What a listing of a plugin folder shows of one entry: its name and path,
/// its kind, and for a folder what it holds.
#[derive(Debug, Clone)]
pub struct ListedEntry {
    pub file_name: String,
    pub path: String,
    pub is_dir: bool,
    pub is_file: bool,
    /// The folder's manifest text, when it could be read.
    pub manifest: Option<String>,
    /// The folder has a manifest file.
    pub has_manifest: bool,
    /// The folder has the record a Nexus install leaves.
    pub has_nexus_meta: bool,
}

/// The mod an entry of a plugin folder is, if any: a hidden entry (its
/// name starts with `.`) is none; a folder is a mod named and versioned by
/// its manifest, from the source its markers show; a file is a loose
/// assembly when its extension is `dll`; anything else is none.
pub fn mod_from_entry(entry: ListedEntry, enabled: bool) -> (r: Option<InstalledMod>)
    ensures
        starts_with(entry.file_name@, "."@) ==> r is None,
        !starts_with(entry.file_name@, "."@) && entry.is_dir ==> (r matches Some(m) && {
            &&& m.entry_name@ == entry.file_name@
            &&& m.path@ == entry.path@
            &&& m.enabled == enabled
            &&& m.kind == ModKind::Folder
            &&& m.source == detect_source_spec(entry.has_nexus_meta, entry.file_name@, entry.has_manifest)
            &&& match entry.manifest {
                Some(text) => match json_string_field_spec(text@, "name"@) {
                    Some(name) => m.display_name@ == name && match json_string_field_spec(text@, "version_number"@) {
                        Some(v) => m.version matches Some(o) && o@ == v,
                        None => m.version is None,
                    },
                    None => m.display_name@ == entry.file_name@ && m.version is None,
                },
                None => m.display_name@ == entry.file_name@ && m.version is None,
            }
        }),
        !starts_with(entry.file_name@, "."@) && !entry.is_dir ==> if entry.is_file && is_assembly_spec(entry.file_name@) {
            (r matches Some(m) && {
                &&& m.entry_name@ == entry.file_name@
                &&& m.path@ == entry.path@
                &&& m.enabled == enabled
                &&& m.kind == ModKind::Assembly
                &&& m.source == ModSource::Unknown
                &&& m.version is None
                &&& m.display_name@ == assembly_display_spec(entry.file_name@)
            })
        } else {
            r is None
        },
{
    let name = chars_of(entry.file_name.as_str());
    if name.len() > 0 && name[0] == '.' {
        proof {
            reveal_strlit(".");
            assert(entry.file_name@.take(1) =~= "."@);
        }
        return None;
    }
    proof {
        reveal_strlit(".");
        assert(!starts_with(entry.file_name@, "."@)) by {
            if starts_with(entry.file_name@, "."@) {
                assert(entry.file_name@.take(1)[0] == '.');
            }
        }
    }
    if entry.is_dir {
        let source = detect_source(entry.has_nexus_meta, entry.file_name.as_str(), entry.has_manifest);
        let (display_name, version) = manifest_metadata(entry.manifest, entry.file_name.as_str());
        Some(InstalledMod {
            entry_name: entry.file_name,
            display_name,
            version,
            enabled,
            path: entry.path,
            kind: ModKind::Folder,
            source,
        })
    } else if entry.is_file && is_assembly(entry.file_name.as_str()) {
        let display_name = display_name_from_assembly(entry.file_name.as_str());
        Some(InstalledMod {
            entry_name: entry.file_name,
            display_name,
            version: None,
            enabled,
            path: entry.path,
            kind: ModKind::Assembly,
            source: ModSource::Unknown,
        })
    } else {
        None
    }
}


/// Is the entry hidden: does its name start with `.`? Hidden entries of a
/// plugin folder are passed over.
pub fn is_hidden_entry(file_name: &str) -> (r: bool)
    ensures
        r == starts_with(file_name@, "."@),
{
    let name = chars_of(file_name);
    proof {
        reveal_strlit(".");
    }
    if name.len() > 0 && name[0] == '.' {
        assert(file_name@.subrange(0, 1) =~= "."@);
        true
    } else {
        assert(!starts_with(file_name@, "."@)) by {
            if starts_with(file_name@, "."@) {
                assert(file_name@.subrange(0, 1)[0] == '.');
            }
        }
        false
    }
}

} // verus!
