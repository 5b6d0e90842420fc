//! Installing the BepInEx pack: the plan of files to write and back up, and
//! the report of what was done.
use vstd::prelude::*;

use super::launch::{LaunchOptionsOutcome, LaunchScriptAction};
use super::pack::PackError;
use super::status::manager_pack_version_path;
use crate::archive::{escapes_destination, escapes_destination_exec};
use crate::paths::{join_path, parent_path, path_join, path_join2, path_parent};
use crate::text::{append_str, chars_eq, chars_of, concat_str, decimal, decimal_string, join_strings, join_with, slice_chars, starts_with, starts_with_exec, string_of};

verus! {

/// One thing an install did or would do.
#[derive(Debug, Clone, PartialEq, Eq)]
pub enum InstallEvent {
    WouldCreateDirectory { path: String },
    WouldWriteFile { path: String, bytes: u64 },
    WouldBackupFile { from: String, to: String },
    WouldSetExecutable { path: String },
    WouldWritePackVersion { path: String, version: String },
    CreatedDirectory { path: String },
    WroteFile { path: String, bytes: u64 },
    BackedUpFile { from: String, to: String },
    SetExecutable { path: String },
    WrotePackVersion { path: String, version: String },
}

/// A file of the pack and where it goes.
#[derive(Debug, Clone)]
pub struct PlannedFile {
    pub relative_path: String,
    pub destination: String,
    pub destination_exists: bool,
}

/// What installing the pack will do.
#[derive(Debug, Clone)]
pub struct InstallPlan {
    pub archive_path: String,
    pub install_folder: String,
    pub backup_root: String,
    pub files: Vec<PlannedFile>,
    pub events: Vec<InstallEvent>,
}

/// What an install did.
#[derive(Debug, Clone)]
pub struct InstallSummary {
    pub dry_run: bool,
    pub events: Vec<InstallEvent>,
    pub launch: LaunchOptionsOutcome,
    pub backup_root: String,
}

/// Why the pack could not be installed.
#[derive(Debug, Clone, PartialEq, Eq)]
pub enum InstallError {
    Pack(PackError),
    Zip(String),
    UnsafeArchivePath { entry: String },
    MissingPackRoot,
    Io(String),
}

/// The folder in the archive that holds the pack's files.
pub open spec fn pack_root_prefix() -> Seq<char> {
    "BepInExPack/"@
}

/// Refuses an archive entry whose path would leave the game folder.
pub fn ensure_safe_relative(relative: &str, entry_name: &str) -> (r: Result<(), InstallError>)
    ensures
        escapes_destination(relative@) ==> (r matches Err(InstallError::UnsafeArchivePath { entry }) && entry@ == entry_name@),
        !escapes_destination(relative@) ==> r is Ok,
{
    if escapes_destination_exec(relative) {
        Err(InstallError::UnsafeArchivePath { entry: entry_name.to_owned() })
    } else {
        Ok(())
    }
}

/// The abstract value of an event.
pub enum EventView {
    WouldCreateDirectory { path: Seq<char> },
    WouldWriteFile { path: Seq<char>, bytes: u64 },
    WouldBackupFile { from: Seq<char>, to: Seq<char> },
    WouldSetExecutable { path: Seq<char> },
    WouldWritePackVersion { path: Seq<char>, version: Seq<char> },
    CreatedDirectory { path: Seq<char> },
    WroteFile { path: Seq<char>, bytes: u64 },
    BackedUpFile { from: Seq<char>, to: Seq<char> },
    SetExecutable { path: Seq<char> },
    WrotePackVersion { path: Seq<char>, version: Seq<char> },
}

impl View for InstallEvent {
    type V = EventView;

    open spec fn view(&self) -> EventView {
        match self {
            InstallEvent::WouldCreateDirectory { path } => EventView::WouldCreateDirectory { path: path@ },
            InstallEvent::WouldWriteFile { path, bytes } => EventView::WouldWriteFile { path: path@, bytes: *bytes },
            InstallEvent::WouldBackupFile { from, to } => EventView::WouldBackupFile { from: from@, to: to@ },
            InstallEvent::WouldSetExecutable { path } => EventView::WouldSetExecutable { path: path@ },
            InstallEvent::WouldWritePackVersion { path, version } => EventView::WouldWritePackVersion { path: path@, version: version@ },
            InstallEvent::CreatedDirectory { path } => EventView::CreatedDirectory { path: path@ },
            InstallEvent::WroteFile { path, bytes } => EventView::WroteFile { path: path@, bytes: *bytes },
            InstallEvent::BackedUpFile { from, to } => EventView::BackedUpFile { from: from@, to: to@ },
            InstallEvent::SetExecutable { path } => EventView::SetExecutable { path: path@ },
            InstallEvent::WrotePackVersion { path, version } => EventView::WrotePackVersion { path: path@, version: version@ },
        }
    }
}

/// The events an archive entry adds to the plan, for a pack file at
/// `relative` under the game folder: a backup when its destination exists,
/// else the creation of a missing parent folder; then the write; then
/// marking the runner script executable.
pub open spec fn entry_events(install: Seq<char>, backup_root: Seq<char>, relative: Seq<char>, size: u64, existing: Seq<Seq<char>>) -> Seq<EventView> {
    let destination = join_path(install, relative);
    let first = if existing.contains(destination) {
        seq![EventView::WouldBackupFile { from: destination, to: join_path(backup_root, relative) }]
    } else {
        match path_parent(destination) {
            Some(parent) => if existing.contains(parent) {
                Seq::empty()
            } else {
                seq![EventView::WouldCreateDirectory { path: parent }]
            },
            None => Seq::empty(),
        }
    };
    let exec = if relative == "run_bepinex.sh"@ {
        seq![EventView::WouldSetExecutable { path: destination }]
    } else {
        Seq::empty()
    };
    first + seq![EventView::WouldWriteFile { path: destination, bytes: size }] + exec
}

/// An entry belongs to the pack: it sits under the pack folder.
pub open spec fn in_pack(name: Seq<char>) -> bool {
    starts_with(name, pack_root_prefix())
}

/// A pack entry that is a file, not a folder.
pub open spec fn pack_file(name: Seq<char>) -> bool {
    in_pack(name) && !(name.len() > 0 && name.last() == '/')
}

/// The plan's events and files for the first entries: `Err` with the first
/// entry that would escape the game folder.
pub open spec fn plan_entries(install: Seq<char>, backup_root: Seq<char>, entries: Seq<(Seq<char>, u64)>, existing: Seq<Seq<char>>) -> Result<(Seq<EventView>, Seq<(Seq<char>, Seq<char>, bool)>), Seq<char>>
    decreases entries.len(),
{
    if entries.len() == 0 {
        Ok((Seq::empty(), Seq::empty()))
    } else {
        match plan_entries(install, backup_root, entries.drop_last(), existing) {
            Err(e) => Err(e),
            Ok((events, files)) => {
                let (name, size) = entries.last();
                if !pack_file(name) {
                    Ok((events, files))
                } else {
                    let relative = name.skip(12);
                    if escapes_destination(relative) {
                        Err(name)
                    } else {
                        let destination = join_path(install, relative);
                        Ok((
                            events + entry_events(install, backup_root, relative, size, existing),
                            files.push((relative, destination, existing.contains(destination))),
                        ))
                    }
                }
            },
        }
    }
}

/// The folder this install backs replaced files up into.
pub open spec fn backup_root_spec(install: Seq<char>, stamp: Seq<char>) -> Seq<char> {
    join_path(join_path(join_path(install, "BepInEx"@), ".manager_backup"@), stamp)
}

/// The views of a list of events.
pub open spec fn event_views(e: Seq<InstallEvent>) -> Seq<EventView> {
    e.map_values(|x: InstallEvent| x@)
}

/// The views of the planned files.
pub open spec fn file_views(f: Seq<PlannedFile>) -> Seq<(Seq<char>, Seq<char>, bool)> {
    f.map_values(|x: PlannedFile| (x.relative_path@, x.destination@, x.destination_exists))
}

/// The views of a plan's events and files.
pub open spec fn plan_views(plan: InstallPlan) -> (Seq<EventView>, Seq<(Seq<char>, Seq<char>, bool)>) {
    (event_views(plan.events@), file_views(plan.files@))
}

/// Is this path in the list?
fn listed(names: &Vec<String>, name: &String) -> (r: bool)
    ensures
        r == names.deep_view().contains(name@),
{
    let mut i: usize = 0;
    while i < names.len()
        invariant
            i <= names.len(),
            forall|k: int| 0 <= k < i ==> names.deep_view()[k] != name@,
        decreases names.len() - i,
    {
        if names[i] == *name {
            assert(names.deep_view()[i as int] == name@);
            return true;
        }
        i += 1;
    }
    false
}

/// The paths whose existence the plan depends on: each pack file's
/// destination and that destination's parent.
pub fn paths_to_probe(install_folder: &str, entries: &Vec<(String, u64)>) -> (r: Vec<String>)
    ensures
        forall|i: int| 0 <= i < entries.len() && pack_file(entries@[i].0@) ==> r.deep_view().contains(join_path(install_folder@, (#[trigger] entries@[i]).0@.skip(12))),
{
    let mut out: Vec<String> = Vec::new();
    let mut i: usize = 0;
    let prefix = chars_of("BepInExPack/");
    while i < entries.len()
        invariant
            i <= entries.len(),
            prefix@ == pack_root_prefix(),
            forall|k: int| 0 <= k < i && pack_file(entries@[k].0@) ==> out.deep_view().contains(join_path(install_folder@, (#[trigger] entries@[k]).0@.skip(12))),
        decreases entries.len() - i,
    {
        let name = chars_of(entries[i].0.as_str());
        if starts_with_exec(&name, &prefix) && !(name.len() > 0 && name[name.len() - 1] == '/') {
            proof {
                reveal_strlit("BepInExPack/");
            }
            let relative = string_of(&slice_chars(&name, 12, name.len()));
            let destination = path_join(install_folder, relative.as_str());
            let ghost before = out.deep_view();
            match parent_path(destination.as_str()) {
                Some(p) => {
                    out.push(p);
                },
                None => {},
            }
            let ghost mid = out.deep_view();
            out.push(destination);
            proof {
                assert(out.deep_view() =~= mid.push(join_path(install_folder@, entries@[i as int].0@.skip(12))));
                assert forall|k: int| 0 <= k < i && pack_file(entries@[k].0@) implies out.deep_view().contains(join_path(install_folder@, (#[trigger] entries@[k]).0@.skip(12))) by {
                    let w = join_path(install_folder@, entries@[k].0@.skip(12));
                    assert(before.contains(w));
                    let j = choose|j: int| 0 <= j < before.len() && before[j] == w;
                    assert(out.deep_view()[j] == w);
                }
                assert(out.deep_view()[out.deep_view().len() - 1] == join_path(install_folder@, entries@[i as int].0@.skip(12)));
            }
        }
        i += 1;
    }
    out
}

/// Plans installing the pack from the archive's entries (name and size,
/// in order): each file under `BepInExPack/` goes to the same place under
/// the game folder. `existing` lists the paths found to exist, `stamp`
/// names this install's backup folder. Fails on an entry that would leave
/// the game folder, or when the archive has no pack folder.
pub fn build_install_plan(install_folder: &str, pack_archive: &str, entries: &Vec<(String, u64)>, existing: &Vec<String>, stamp: &str) -> (r: Result<InstallPlan, InstallError>)
    ensures
        match plan_entries(install_folder@, backup_root_spec(install_folder@, stamp@), entries@.map_values(|e: (String, u64)| (e.0@, e.1)), existing.deep_view()) {
            Err(name) => r matches Err(InstallError::UnsafeArchivePath { entry }) && entry@ == name,
            Ok((events, files)) => if !(exists|i: int| 0 <= i < entries.len() && in_pack(#[trigger] entries@[i].0@)) {
                r matches Err(InstallError::MissingPackRoot)
            } else {
                r matches Ok(plan) && {
                    &&& plan.archive_path@ == pack_archive@
                    &&& plan.install_folder@ == install_folder@
                    &&& plan.backup_root@ == backup_root_spec(install_folder@, stamp@)
                    &&& file_views(plan.files@) == files
                    &&& event_views(plan.events@) == events.push(EventView::WouldWritePackVersion {
                        path: join_path(join_path(install_folder@, "BepInEx"@), ".manager_pack_version"@),
                        version: "1.0.3"@,
                    })
                }
            },
        },
        r is Ok ==> plan_respects_existing(install_folder@, r->Ok_0.backup_root@, plan_views(r->Ok_0), existing.deep_view()),
{
    let ghost ev = entries@.map_values(|e: (String, u64)| (e.0@, e.1));
    let backup_root = path_join2(install_folder, "BepInEx", ".manager_backup");
    let backup_root = path_join(backup_root.as_str(), stamp);
    let ghost br = backup_root@;
    let prefix = chars_of("BepInExPack/");
    proof {
        reveal_strlit("BepInExPack/");
    }
    let mut files: Vec<PlannedFile> = Vec::new();
    let mut events: Vec<InstallEvent> = Vec::new();
    let mut saw_pack_root = false;
    let mut i: usize = 0;
    assert(ev.take(0) =~= Seq::<(Seq<char>, u64)>::empty());
    assert(event_views(events@) =~= Seq::<EventView>::empty());
    assert(file_views(files@) =~= Seq::<(Seq<char>, Seq<char>, bool)>::empty());
    while i < entries.len()
        invariant
            i <= entries.len(),
            ev == entries@.map_values(|e: (String, u64)| (e.0@, e.1)),
            prefix@ == pack_root_prefix(),
            br == backup_root_spec(install_folder@, stamp@),
            backup_root@ == br,
            plan_entries(install_folder@, br, ev.take(i as int), existing.deep_view()) == Ok::<(Seq<EventView>, Seq<(Seq<char>, Seq<char>, bool)>), Seq<char>>((event_views(events@), file_views(files@))),
            saw_pack_root == exists|k: int| 0 <= k < i && in_pack(#[trigger] entries@[k].0@),
        decreases entries.len() - i,
    {
        proof {
            assert(ev.take(i as int + 1).drop_last() =~= ev.take(i as int));
            assert(ev.take(i as int + 1).last() == (entries@[i as int].0@, entries@[i as int].1));
        }
        proof {
            reveal_strlit("BepInExPack/");
        }
        let name = &entries[i].0;
        let size = entries[i].1;
        let nv = chars_of(name.as_str());
        if starts_with_exec(&nv, &prefix) {
            saw_pack_root = true;
            if !(nv.len() > 0 && nv[nv.len() - 1] == '/') {
                let relative = string_of(&slice_chars(&nv, 12, nv.len()));
                assert(relative@ == name@.skip(12));
                match ensure_safe_relative(relative.as_str(), name.as_str()) {
                    Err(e) => {
                        proof {
                            lemma_plan_error_sticks(install_folder@, br, ev, existing.deep_view(), i as int + 1);
                        }
                        return Err(e);
                    },
                    Ok(()) => {},
                }
                let destination = path_join(install_folder, relative.as_str());
                let destination_exists = listed(existing, &destination);
                let ghost before = event_views(events@);
                if destination_exists {
                    let to = path_join(backup_root.as_str(), relative.as_str());
                    events.push(InstallEvent::WouldBackupFile { from: destination.clone(), to });
                } else {
                    match parent_path(destination.as_str()) {
                        Some(parent) => {
                            if !listed(existing, &parent) {
                                events.push(InstallEvent::WouldCreateDirectory { path: parent });
                            }
                        },
                        None => {},
                    }
                }
                events.push(InstallEvent::WouldWriteFile { path: destination.clone(), bytes: size });
                let is_runner = chars_eq(&chars_of(relative.as_str()), &chars_of("run_bepinex.sh"));
                if is_runner {
                    events.push(InstallEvent::WouldSetExecutable { path: destination.clone() });
                }
                let ghost fbefore = file_views(files@);
                files.push(PlannedFile { relative_path: relative, destination, destination_exists });
                proof {
                    assert(event_views(events@) =~= before + entry_events(install_folder@, br, name@.skip(12), size, existing.deep_view()));
                    assert(file_views(files@) =~= fbefore.push((name@.skip(12), join_path(install_folder@, name@.skip(12)), existing.deep_view().contains(join_path(install_folder@, name@.skip(12))))));
                }
            }
        }
        i += 1;
    }
    proof {
        assert(ev.take(i as int) =~= ev);
    }
    if !saw_pack_root {
        return Err(InstallError::MissingPackRoot);
    }
    let version_path = manager_pack_version_path(install_folder);
    let ghost before = event_views(events@);
    events.push(InstallEvent::WouldWritePackVersion { path: version_path, version: "1.0.3".to_owned() });
    assert(event_views(events@) =~= before.push(EventView::WouldWritePackVersion {
        path: join_path(join_path(install_folder@, "BepInEx"@), ".manager_pack_version"@),
        version: "1.0.3"@,
    }));
    proof {
        lemma_plan_backs_up_existing(install_folder@, br, ev, existing.deep_view());
        let fv0 = file_views(files@);
        assert(plan_entries(install_folder@, br, ev, existing.deep_view()) == Ok::<(Seq<EventView>, Seq<(Seq<char>, Seq<char>, bool)>), Seq<char>>((before, fv0)));
        assert(plan_respects_existing(install_folder@, br, (before, fv0), existing.deep_view()));
        let after = event_views(events@);
        assert forall|j: int| 0 <= j < after.len() implies (#[trigger] after[j] matches EventView::WouldBackupFile { from, .. } ==> existing.deep_view().contains(from)) by {
            if j < before.len() {
                assert(after[j] == before[j]);
            }
        }
        let fv = file_views(files@);
        assert forall|k: int| 0 <= k < fv.len() && (#[trigger] fv[k]).2 implies after.contains(
            EventView::WouldBackupFile { from: fv[k].1, to: join_path(br, fv[k].0) },
        ) by {
            let x = EventView::WouldBackupFile { from: fv[k].1, to: join_path(br, fv[k].0) };
            assert(before.contains(x));
            let p = choose|p: int| 0 <= p < before.len() && before[p] == x;
            assert(after[p] == x);
        }
    }
    Ok(InstallPlan {
        archive_path: pack_archive.to_owned(),
        install_folder: install_folder.to_owned(),
        backup_root,
        files,
        events,
    })
}

/// Every backup among `events` is of a path among `existing`.
pub open spec fn backs_up_only_existing(events: Seq<EventView>, existing: Seq<Seq<char>>) -> bool {
    forall|j: int|
        0 <= j < events.len() ==> (#[trigger] events[j] matches EventView::WouldBackupFile { from, .. }
            ==> existing.contains(from))
}

/// Each planned file goes to its place under the game folder and is marked
/// as existing exactly when its destination is among `existing`; each one so
/// marked is backed up into `br` under the same relative path; and every
/// backup is of an existing path.
pub open spec fn plan_respects_existing(
    install: Seq<char>,
    br: Seq<char>,
    plan: (Seq<EventView>, Seq<(Seq<char>, Seq<char>, bool)>),
    existing: Seq<Seq<char>>,
) -> bool {
    let (events, files) = plan;
    &&& forall|k: int|
        0 <= k < files.len() ==> (#[trigger] files[k]).1 == join_path(install, files[k].0) && files[k].2
            == existing.contains(files[k].1)
    &&& forall|k: int|
        0 <= k < files.len() && (#[trigger] files[k]).2 ==> events.contains(
            EventView::WouldBackupFile { from: files[k].1, to: join_path(br, files[k].0) },
        )
    &&& backs_up_only_existing(events, existing)
}

/// The only backup an entry's events hold is of its own destination, and
/// only when that destination exists.
proof fn lemma_entry_events_backup(install: Seq<char>, br: Seq<char>, relative: Seq<char>, size: u64, existing: Seq<Seq<char>>)
    ensures
        backs_up_only_existing(entry_events(install, br, relative, size, existing), existing),
        existing.contains(join_path(install, relative)) ==> entry_events(install, br, relative, size, existing)[0]
            == (EventView::WouldBackupFile { from: join_path(install, relative), to: join_path(br, relative) }),
{
}

/// What a plan says of existing files: each planned file goes to its place
/// under the game folder and is marked as existing exactly when its
/// destination is among the existing paths; each such destination is backed
/// up, into the backup folder under the same relative path, before it is
/// written; and nothing that does not exist is backed up.
pub proof fn lemma_plan_backs_up_existing(install: Seq<char>, br: Seq<char>, entries: Seq<(Seq<char>, u64)>, existing: Seq<Seq<char>>)
    ensures
        plan_entries(install, br, entries, existing) is Ok ==> plan_respects_existing(
            install,
            br,
            plan_entries(install, br, entries, existing)->Ok_0,
            existing,
        ),
    decreases entries.len(),
{
    if entries.len() > 0 {
        lemma_plan_backs_up_existing(install, br, entries.drop_last(), existing);
        match plan_entries(install, br, entries.drop_last(), existing) {
            Err(_) => {},
            Ok((events, files)) => {
                let (name, size) = entries.last();
                if pack_file(name) {
                    let relative = name.skip(12);
                    if !escapes_destination(relative) {
                        let destination = join_path(install, relative);
                        let ee = entry_events(install, br, relative, size, existing);
                        lemma_entry_events_backup(install, br, relative, size, existing);
                        let events2 = events + ee;
                        let files2 = files.push((relative, destination, existing.contains(destination)));
                        assert forall|k: int| 0 <= k < files2.len() && (#[trigger] files2[k]).2 implies events2.contains(
                            EventView::WouldBackupFile { from: files2[k].1, to: join_path(br, files2[k].0) },
                        ) by {
                            if k < files.len() {
                                assert(files2[k] == files[k]);
                                let x = EventView::WouldBackupFile { from: files[k].1, to: join_path(br, files[k].0) };
                                let p = choose|p: int| 0 <= p < events.len() && events[p] == x;
                                assert(events2[p] == x);
                            } else {
                                assert(events2[events.len() as int] == ee[0]);
                            }
                        }
                        assert forall|j: int| 0 <= j < events2.len() implies (#[trigger] events2[j] matches EventView::WouldBackupFile { from, .. } ==> existing.contains(from)) by {
                            if j < events.len() {
                                assert(events2[j] == events[j]);
                            } else {
                                assert(events2[j] == ee[j - events.len()]);
                            }
                        }
                        assert forall|k: int| 0 <= k < files2.len() implies (#[trigger] files2[k]).1 == join_path(install, files2[k].0)
                            && files2[k].2 == existing.contains(files2[k].1) by {
                            if k < files.len() {
                                assert(files2[k] == files[k]);
                            }
                        }
                    }
                }
            },
        }
    }
}

/// Once an entry escapes, the plan of any longer prefix fails with it.
proof fn lemma_plan_error_sticks(install: Seq<char>, br: Seq<char>, ev: Seq<(Seq<char>, u64)>, existing: Seq<Seq<char>>, n: int)
    requires
        0 <= n <= ev.len(),
        plan_entries(install, br, ev.take(n), existing) is Err,
    ensures
        plan_entries(install, br, ev, existing) == plan_entries(install, br, ev.take(n), existing),
    decreases ev.len() - n,
{
    if n < ev.len() {
        assert(ev.take(n + 1).drop_last() =~= ev.take(n));
        lemma_plan_error_sticks(install, br, ev, existing, n + 1);
    } else {
        assert(ev.take(n) =~= ev);
    }
}


/// How an event is described.
pub open spec fn describe_event_spec(e: InstallEvent) -> Seq<char> {
    match e {
        InstallEvent::WouldCreateDirectory { path } => "would create directory "@ + path@,
        InstallEvent::WouldWriteFile { path, bytes } => "would write "@ + path@ + " ("@ + decimal(bytes as nat) + " bytes)"@,
        InstallEvent::WouldBackupFile { from, to } => "would back up "@ + from@ + " -> "@ + to@,
        InstallEvent::WouldSetExecutable { path } => "would mark executable "@ + path@,
        InstallEvent::WouldWritePackVersion { path, version } => "would record pack version "@ + version@ + " at "@ + path@,
        InstallEvent::CreatedDirectory { path } => "created directory "@ + path@,
        InstallEvent::WroteFile { path, bytes } => "wrote "@ + path@ + " ("@ + decimal(bytes as nat) + " bytes)"@,
        InstallEvent::BackedUpFile { from, to } => "backed up "@ + from@ + " -> "@ + to@,
        InstallEvent::SetExecutable { path } => "marked executable "@ + path@,
        InstallEvent::WrotePackVersion { path, version } => "recorded pack version "@ + version@ + " at "@ + path@,
    }
}

/// `a` followed by `b` and `c`.
fn cat3(a: &str, b: &str, c: &str) -> (r: String)
    ensures
        r@ == a@ + b@ + c@,
{
    let mut r = concat_str(a, b);
    append_str(&mut r, c);
    r
}

/// `a` followed by `b`, `c` and `d`.
fn cat4(a: &str, b: &str, c: &str, d: &str) -> (r: String)
    ensures
        r@ == a@ + b@ + c@ + d@,
{
    let mut r = cat3(a, b, c);
    append_str(&mut r, d);
    r
}

/// Describes an event for the install report.
pub fn describe_event(event: &InstallEvent) -> (r: String)
    ensures
        r@ == describe_event_spec(*event),
{
    match event {
        InstallEvent::WouldCreateDirectory { path } => concat_str("would create directory ", path.as_str()),
        InstallEvent::WouldWriteFile { path, bytes } => {
            let mut r = cat3("would write ", path.as_str(), " (");
            append_str(&mut r, decimal_string(*bytes).as_str());
            append_str(&mut r, " bytes)");
            r
        },
        InstallEvent::WouldBackupFile { from, to } => cat4("would back up ", from.as_str(), " -> ", to.as_str()),
        InstallEvent::WouldSetExecutable { path } => concat_str("would mark executable ", path.as_str()),
        InstallEvent::WouldWritePackVersion { path, version } => cat4("would record pack version ", version.as_str(), " at ", path.as_str()),
        InstallEvent::CreatedDirectory { path } => concat_str("created directory ", path.as_str()),
        InstallEvent::WroteFile { path, bytes } => {
            let mut r = cat3("wrote ", path.as_str(), " (");
            append_str(&mut r, decimal_string(*bytes).as_str());
            append_str(&mut r, " bytes)");
            r
        },
        InstallEvent::BackedUpFile { from, to } => cat4("backed up ", from.as_str(), " -> ", to.as_str()),
        InstallEvent::SetExecutable { path } => concat_str("marked executable ", path.as_str()),
        InstallEvent::WrotePackVersion { path, version } => cat4("recorded pack version ", version.as_str(), " at ", path.as_str()),
    }
}

/// How the launch script's handling is described.
pub open spec fn describe_script_spec(a: LaunchScriptAction) -> Seq<char> {
    match a {
        LaunchScriptAction::Created { path } => "created "@ + path@,
        LaunchScriptAction::AlreadyPresent { path } => "left existing editable script at "@ + path@,
        LaunchScriptAction::Reset { path } => "reset "@ + path@,
    }
}

/// Describes what was done to the launch script.
pub fn describe_script(script: &LaunchScriptAction) -> (r: String)
    ensures
        r@ == describe_script_spec(*script),
{
    match script {
        LaunchScriptAction::Created { path } => concat_str("created ", path.as_str()),
        LaunchScriptAction::AlreadyPresent { path } => concat_str("left existing editable script at ", path.as_str()),
        LaunchScriptAction::Reset { path } => concat_str("reset ", path.as_str()),
    }
}

/// How the launch options' handling is described.
pub open spec fn describe_launch_spec(o: LaunchOptionsOutcome) -> Seq<char> {
    match o {
        LaunchOptionsOutcome::AlreadyConfigured { launch_options, script } =>
            "steam launch options already set ("@ + launch_options@ + "); launch script "@ + describe_script_spec(script),
        LaunchOptionsOutcome::Updated { localconfig_path, launch_options, script, steam_restart_recommended } => {
            let base = "wrote steam launch options in "@ + localconfig_path@ + " ("@ + launch_options@ + "); launch script "@ + describe_script_spec(script);
            if steam_restart_recommended {
                base + "; fully restart steam once so the options stick"@
            } else {
                base
            }
        },
        LaunchOptionsOutcome::ManualPasteRequired { reason, launch_options, script } =>
            "launch script "@ + describe_script_spec(script) + " ready, but steam launch options NOT set ("@ + reason@ + "). paste: "@ + launch_options@,
        LaunchOptionsOutcome::DryRun { launch_options } =>
            "would create editable smm_launch.sh and set steam launch options: "@ + launch_options@,
    }
}

/// Describes how the launch options were handled.
pub fn describe_launch(outcome: &LaunchOptionsOutcome) -> (r: String)
    ensures
        r@ == describe_launch_spec(*outcome),
{
    match outcome {
        LaunchOptionsOutcome::AlreadyConfigured { launch_options, script } => {
            let mut r = cat3("steam launch options already set (", launch_options.as_str(), "); launch script ");
            append_str(&mut r, describe_script(script).as_str());
            r
        },
        LaunchOptionsOutcome::Updated { localconfig_path, launch_options, script, steam_restart_recommended } => {
            let mut r = cat4("wrote steam launch options in ", localconfig_path.as_str(), " (", launch_options.as_str());
            append_str(&mut r, "); launch script ");
            append_str(&mut r, describe_script(script).as_str());
            if *steam_restart_recommended {
                append_str(&mut r, "; fully restart steam once so the options stick");
            }
            r
        },
        LaunchOptionsOutcome::ManualPasteRequired { reason, launch_options, script } => {
            let mut r = concat_str("launch script ", describe_script(script).as_str());
            append_str(&mut r, " ready, but steam launch options NOT set (");
            append_str(&mut r, reason.as_str());
            append_str(&mut r, "). paste: ");
            append_str(&mut r, launch_options.as_str());
            r
        },
        LaunchOptionsOutcome::DryRun { launch_options } => concat_str("would create editable smm_launch.sh and set steam launch options: ", launch_options.as_str()),
    }
}

/// The lines of an install report.
pub open spec fn summary_lines(s: InstallSummary) -> Seq<Seq<char>> {
    let alert = match super::launch::alert_spec(s.launch) {
        Some(a) => seq![a, Seq::empty()],
        None => Seq::empty(),
    };
    let head = if s.dry_run { "dry run \u{2014} no files were changed"@ } else { "bepinex install finished"@ };
    alert + seq![head, "backup folder: "@ + s.backup_root@]
        + s.events@.map_values(|e: InstallEvent| "- "@ + describe_event_spec(e))
        + seq!["- "@ + describe_launch_spec(s.launch)]
}

impl InstallSummary {
    /// The install report: the launch alert if any, then whether files were
    /// changed, the backup folder, one line per event and one for the
    /// launch options, joined by line breaks.
    pub fn describe(&self) -> (r: String)
        ensures
            r@ == join_with(summary_lines(*self), seq!['\n']),
    {
        let mut lines: Vec<String> = Vec::new();
        let ghost a_part = match super::launch::alert_spec(self.launch) {
            Some(a) => seq![a, Seq::<char>::empty()],
            None => Seq::<Seq<char>>::empty(),
        };
        let ghost headline = if self.dry_run { "dry run \u{2014} no files were changed"@ } else { "bepinex install finished"@ };
        let alert = self.launch.alert_message();
        match alert {
            Some(a) => {
                lines.push(a);
                lines.push(String::new());
            },
            None => {},
        }
        assert(lines.deep_view() =~= a_part);
        if self.dry_run {
            lines.push("dry run \u{2014} no files were changed".to_owned());
        } else {
            lines.push("bepinex install finished".to_owned());
        }
        assert(lines.deep_view() =~= a_part + seq![headline]);
        lines.push(concat_str("backup folder: ", self.backup_root.as_str()));
        assert(lines.deep_view() =~= a_part + seq![headline, "backup folder: "@ + self.backup_root@]);
        let ghost head = lines.deep_view();
        let mut i: usize = 0;
        while i < self.events.len()
            invariant
                i <= self.events.len(),
                lines.deep_view() == head + self.events@.take(i as int).map_values(|e: InstallEvent| "- "@ + describe_event_spec(e)),
            decreases self.events.len() - i,
        {
            let ghost prev = lines.deep_view();
            lines.push(concat_str("- ", describe_event(&self.events[i]).as_str()));
            assert(self.events@.take(i as int + 1).map_values(|e: InstallEvent| "- "@ + describe_event_spec(e)) =~= self.events@.take(i as int).map_values(|e: InstallEvent| "- "@ + describe_event_spec(e)).push("- "@ + describe_event_spec(self.events@[i as int])));
            assert(lines.deep_view() =~= prev.push("- "@ + describe_event_spec(self.events@[i as int])));
            i += 1;
        }
        assert(self.events@.take(i as int) =~= self.events@);
        let ghost prev = lines.deep_view();
        lines.push(concat_str("- ", describe_launch(&self.launch).as_str()));
        assert(lines.deep_view() =~= prev.push("- "@ + describe_launch_spec(self.launch)));
        assert(lines.deep_view() =~= summary_lines(*self));
        let r = join_strings(&lines, "\n");
        proof {
            reveal_strlit("\n");
            assert("\n"@ =~= seq!['\n']);
            assert(lines@.map_values(|l: String| l@) =~= lines.deep_view());
        }
        r
    }
}

/// The text shown for a failed BepInEx install.
pub open spec fn install_error_text(e: InstallError) -> Seq<char> {
    match e {
        InstallError::Pack(e) => crate::settings::bepinex::pack::pack_error_text(e),
        InstallError::Zip(d) => "zip error: "@ + d@,
        InstallError::UnsafeArchivePath { entry } => "refusing unsafe archive path: "@ + entry@,
        InstallError::MissingPackRoot => "archive does not contain a BepInExPack/ root folder"@,
        InstallError::Io(d) => "install io error: "@ + d@,
    }
}

impl InstallError {
    /// The error as shown to the user.
    pub fn message(&self) -> (r: String)
        ensures
            r@ == install_error_text(*self),
    {
        match self {
            InstallError::Pack(e) => {
                let mut r = String::new();
                crate::text::append_str(&mut r, e.message().as_str());
                r
            },
            InstallError::Zip(d) => {
                let mut r = String::new();
                crate::text::append_str(&mut r, "zip error: ");
                crate::text::append_str(&mut r, d.as_str());
                r
            },
            InstallError::UnsafeArchivePath { entry } => {
                let mut r = String::new();
                crate::text::append_str(&mut r, "refusing unsafe archive path: ");
                crate::text::append_str(&mut r, entry.as_str());
                r
            },
            InstallError::MissingPackRoot => {
                let mut r = String::new();
                crate::text::append_str(&mut r, "archive does not contain a BepInExPack/ root folder");
                r
            },
            InstallError::Io(d) => {
                let mut r = String::new();
                crate::text::append_str(&mut r, "install io error: ");
                crate::text::append_str(&mut r, d.as_str());
                r
            },
        }
    }
}

} // verus!
