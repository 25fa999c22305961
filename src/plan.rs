//! The mode engine: for each archive path, what an operation does with the
//! file system's file and the old archive's entry, and the plan that pairs
//! the two views.
use crate::error::ZipError;
use vstd::prelude::*;

verus! {

/// The operation whose decision table applies.
#[derive(Debug, Clone, Copy, PartialEq, Eq, Structural)]
pub enum Mode {
    Add,
    Update,
    Freshen,
    FileSync,
    Delete,
    Copy,
    Dif,
}

/// What happens to one archive path.
#[derive(Debug, Clone, Copy, PartialEq, Eq, Structural)]
pub enum Action {
    /// Compress the file system's file as a new entry.
    Add,
    /// Compress the file system's file in place of the old entry.
    ReCompress,
    /// Copy the old entry's bytes unchanged.
    CopyRaw,
    /// Leave the old entry out.
    Delete,
    /// Nothing goes into the archive for this path.
    Skip,
}

/// Modification time and size of a file or an entry.
#[derive(Debug, Clone, Copy, PartialEq, Eq, Structural)]
pub struct Stamp {
    pub mtime: u64,
    pub size: u64,
}

/// The decision table. `fs` and `entry` are what the file system and the old
/// archive hold under the path; `matches` tells whether the user's patterns
/// select the path (delete and copy consult it).
///
/// | mode     | file only | both, file newer or changed      | both, file not newer | entry only            |
/// |----------|-----------|----------------------------------|----------------------|-----------------------|
/// | add      | Add       | ReCompress                       | CopyRaw              | CopyRaw               |
/// | update   | Add       | ReCompress if newer              | CopyRaw              | CopyRaw               |
/// | freshen  | Skip      | ReCompress if newer              | CopyRaw              | CopyRaw               |
/// | filesync | Add       | ReCompress if size or time differ| CopyRaw              | Delete                |
/// | delete   | Skip      | Delete if matched, else CopyRaw  | same                 | same                  |
/// | copy     | Skip      | CopyRaw if matched, else Skip    | CopyRaw              | CopyRaw if matched    |
/// | dif      | Add       | ReCompress if size or time differ| Skip                 | Skip                  |
///
/// Under add a file is "newer or changed" when its time is later or its size differs.
pub open spec fn decide_spec(mode: Mode, fs: Option<Stamp>, entry: Option<Stamp>, matches: bool) -> Action {
    match (fs, entry) {
        (None, None) => Action::Skip,
        (Some(_), None) => match mode {
            Mode::Add | Mode::Update | Mode::FileSync | Mode::Dif => Action::Add,
            Mode::Freshen | Mode::Delete | Mode::Copy => Action::Skip,
        },
        (None, Some(_)) => match mode {
            Mode::Add | Mode::Update | Mode::Freshen => Action::CopyRaw,
            Mode::FileSync => Action::Delete,
            Mode::Delete => if matches { Action::Delete } else { Action::CopyRaw },
            Mode::Copy => if matches { Action::CopyRaw } else { Action::Skip },
            Mode::Dif => Action::Skip,
        },
        (Some(f), Some(e)) => {
            let newer = f.mtime > e.mtime;
            let differs = f.mtime != e.mtime || f.size != e.size;
            match mode {
                Mode::Add => if newer || f.size != e.size { Action::ReCompress } else { Action::CopyRaw },
                Mode::Update | Mode::Freshen => if newer { Action::ReCompress } else { Action::CopyRaw },
                Mode::FileSync => if differs { Action::ReCompress } else { Action::CopyRaw },
                Mode::Delete => if matches { Action::Delete } else { Action::CopyRaw },
                Mode::Copy => if newer && !matches { Action::Skip } else { Action::CopyRaw },
                Mode::Dif => if differs { Action::ReCompress } else { Action::Skip },
            }
        },
    }
}

pub fn decide_action(mode: Mode, fs: Option<Stamp>, entry: Option<Stamp>, matches: bool) -> (r: Action)
    ensures
        r == decide_spec(mode, fs, entry, matches),
{
    match (fs, entry) {
        (None, None) => Action::Skip,
        (Some(_), None) => match mode {
            Mode::Add | Mode::Update | Mode::FileSync | Mode::Dif => Action::Add,
            Mode::Freshen | Mode::Delete | Mode::Copy => Action::Skip,
        },
        (None, Some(_)) => match mode {
            Mode::Add | Mode::Update | Mode::Freshen => Action::CopyRaw,
            Mode::FileSync => Action::Delete,
            Mode::Delete => if matches {
                Action::Delete
            } else {
                Action::CopyRaw
            },
            Mode::Copy => if matches {
                Action::CopyRaw
            } else {
                Action::Skip
            },
            Mode::Dif => Action::Skip,
        },
        (Some(f), Some(e)) => {
            let newer = f.mtime > e.mtime;
            let differs = f.mtime != e.mtime || f.size != e.size;
            match mode {
                Mode::Add => if newer || f.size != e.size {
                    Action::ReCompress
                } else {
                    Action::CopyRaw
                },
                Mode::Update | Mode::Freshen => if newer {
                    Action::ReCompress
                } else {
                    Action::CopyRaw
                },
                Mode::FileSync => if differs {
                    Action::ReCompress
                } else {
                    Action::CopyRaw
                },
                Mode::Delete => if matches {
                    Action::Delete
                } else {
                    Action::CopyRaw
                },
                Mode::Copy => if newer && !matches {
                    Action::Skip
                } else {
                    Action::CopyRaw
                },
                Mode::Dif => if differs {
                    Action::ReCompress
                } else {
                    Action::Skip
                },
            }
        },
    }
}

/// The decision table has no implicit action: each action arises only where
/// the table puts it. Compressing needs a file, copying or deleting needs an
/// entry, adding is for files the archive lacks, deleting happens only under
/// filesync (entries without a file) and delete (matched entries), and
/// freshen never adds.
pub proof fn lemma_decision_table(mode: Mode, fs: Option<Stamp>, entry: Option<Stamp>, matches: bool)
    ensures
        decide_spec(mode, fs, entry, matches) == Action::Add ==> fs.is_some() && entry.is_none()
            && mode != Mode::Freshen && mode != Mode::Delete && mode != Mode::Copy,
        decide_spec(mode, fs, entry, matches) == Action::ReCompress ==> fs.is_some() && entry.is_some()
            && mode != Mode::Delete && mode != Mode::Copy,
        decide_spec(mode, fs, entry, matches) == Action::CopyRaw ==> entry.is_some() && mode != Mode::Dif,
        decide_spec(mode, fs, entry, matches) == Action::Delete ==> entry.is_some() && ((mode
            == Mode::FileSync && fs.is_none()) || (mode == Mode::Delete && matches)),
        mode == Mode::Update ==> (decide_spec(mode, fs, entry, matches) == Action::ReCompress <==> (
        fs matches Some(f) && entry matches Some(e) && f.mtime > e.mtime)),
        mode == Mode::Freshen ==> (decide_spec(mode, fs, entry, matches) == Action::ReCompress <==> (
        fs matches Some(f) && entry matches Some(e) && f.mtime > e.mtime)),
        mode == Mode::FileSync ==> (decide_spec(mode, fs, entry, matches) == Action::ReCompress <==> (
        fs matches Some(f) && entry matches Some(e) && (f.mtime != e.mtime || f.size != e.size))),
        entry.is_none() && fs.is_none() ==> decide_spec(mode, fs, entry, matches) == Action::Skip,
{
}

/// A file found on the file system, under its archive path.
#[derive(Debug, Clone)]
pub struct FsCandidate {
    pub name: String,
    pub stamp: Stamp,
}

/// An entry of the old archive, with whether the user's patterns select it.
#[derive(Debug, Clone)]
pub struct ArchiveCandidate {
    pub name: String,
    pub stamp: Stamp,
    pub matches: bool,
}

/// One archive path of the plan and what happens to it; the indices point
/// into the candidate lists.
#[derive(Debug, Clone)]
pub struct PlanItem {
    pub name: String,
    pub action: Action,
    pub fs_index: Option<usize>,
    pub entry_index: Option<usize>,
}

/// Where the file system list holds `name` (the last place, should it repeat).
pub open spec fn find_fs(fs: Seq<FsCandidate>, name: Seq<char>) -> Option<int>
    decreases fs.len(),
{
    if fs.len() == 0 {
        None
    } else if fs.last().name@ == name {
        Some(fs.len() - 1)
    } else {
        find_fs(fs.drop_last(), name)
    }
}

/// Whether the archive list holds `name`.
pub open spec fn in_archive(entries: Seq<ArchiveCandidate>, name: Seq<char>) -> bool {
    exists|i: int| 0 <= i < entries.len() && #[trigger] entries[i].name@ == name
}

/// Indices of the files whose path the archive lacks, in file order.
pub open spec fn new_files(fs: Seq<FsCandidate>, entries: Seq<ArchiveCandidate>) -> Seq<int>
    decreases fs.len(),
{
    if fs.len() == 0 {
        Seq::empty()
    } else if in_archive(entries, fs.last().name@) {
        new_files(fs.drop_last(), entries)
    } else {
        new_files(fs.drop_last(), entries).push(fs.len() - 1)
    }
}

pub open spec fn has_duplicate(fs: Seq<FsCandidate>) -> bool {
    exists|i: int, j: int| 0 <= i < j < fs.len() && #[trigger] fs[i].name@ == #[trigger] fs[j].name@
}

pub open spec fn stamp_at(fs: Seq<FsCandidate>, k: Option<int>) -> Option<Stamp> {
    match k {
        Some(j) => Some(fs[j].stamp),
        None => None,
    }
}

proof fn lemma_find_fs(fs: Seq<FsCandidate>, name: Seq<char>)
    ensures
        find_fs(fs, name) matches Some(j) ==> 0 <= j < fs.len() && fs[j].name@ == name,
        find_fs(fs, name) is None ==> forall|j: int| 0 <= j < fs.len() ==> #[trigger] fs[j].name@ != name,
    decreases fs.len(),
{
    if fs.len() > 0 {
        lemma_find_fs(fs.drop_last(), name);
        if fs.last().name@ != name && find_fs(fs, name) is None {
            assert forall|j: int| 0 <= j < fs.len() implies #[trigger] fs[j].name@ != name by {
                if j < fs.len() - 1 {
                    assert(fs[j] == fs.drop_last()[j]);
                }
            }
        }
    }
}

proof fn lemma_new_files_bounds(fs: Seq<FsCandidate>, entries: Seq<ArchiveCandidate>)
    ensures
        forall|k: int| 0 <= k < new_files(fs, entries).len() ==> 0 <= #[trigger] new_files(fs, entries)[k] < fs.len(),
        new_files(fs, entries).len() <= fs.len(),
    decreases fs.len(),
{
    if fs.len() > 0 {
        lemma_new_files_bounds(fs.drop_last(), entries);
    }
}

fn names_equal(a: &String, b: &String) -> (r: bool)
    ensures
        r == (a@ == b@),
{
    *a == *b
}

fn find_fs_exec(fs: &Vec<FsCandidate>, name: &String) -> (r: Option<usize>)
    ensures
        r matches Some(j) ==> find_fs(fs@, name@) == Some(j as int),
        r is None <==> find_fs(fs@, name@) is None,
        r == (match find_fs(fs@, name@) {
            Some(j) => Some(j as usize),
            None => None::<usize>,
        }),
{
    let mut i: usize = fs.len();
    assert(fs@.subrange(0, i as int) =~= fs@);
    while i > 0
        invariant
            0 <= i <= fs@.len(),
            find_fs(fs@, name@) == find_fs(fs@.subrange(0, i as int), name@),
        decreases i,
    {
        let ghost pre = fs@.subrange(0, i as int);
        assert(pre.drop_last() =~= fs@.subrange(0, i - 1));
        if names_equal(&fs[i - 1].name, name) {
            return Some(i - 1);
        }
        i = i - 1;
    }
    None
}

fn in_archive_exec(entries: &Vec<ArchiveCandidate>, name: &String) -> (r: bool)
    ensures
        r == in_archive(entries@, name@),
{
    let mut i: usize = 0;
    while i < entries.len()
        invariant
            0 <= i <= entries@.len(),
            forall|j: int| 0 <= j < i ==> #[trigger] entries@[j].name@ != name@,
        decreases entries@.len() - i,
    {
        if names_equal(&entries[i].name, name) {
            return true;
        }
        i = i + 1;
    }
    false
}

fn check_duplicates(fs: &Vec<FsCandidate>) -> (r: Option<usize>)
    ensures
        r is None <==> !has_duplicate(fs@),
        r matches Some(j) ==> j < fs@.len(),
{
    let mut j: usize = 0;
    while j < fs.len()
        invariant
            0 <= j <= fs@.len(),
            forall|a: int, b: int| 0 <= a < b < j ==> #[trigger] fs@[a].name@ != #[trigger] fs@[b].name@,
        decreases fs@.len() - j,
    {
        let mut i: usize = 0;
        while i < j
            invariant
                0 <= i <= j < fs@.len(),
                forall|a: int| 0 <= a < i ==> #[trigger] fs@[a].name@ != fs@[j as int].name@,
            decreases j - i,
        {
            if names_equal(&fs[i].name, &fs[j].name) {
                return Some(j);
            }
            i = i + 1;
        }
        j = j + 1;
    }
    None
}

/// The plan: first every entry of the old archive, in archive order, then
/// every file whose path the archive lacks, in file order, each with the
/// table's action. A path that the file list holds twice is refused.
pub fn build_plan(mode: Mode, fs: &Vec<FsCandidate>, entries: &Vec<ArchiveCandidate>) -> (r: Result<Vec<PlanItem>, ZipError>)
    ensures
        r is Err <==> has_duplicate(fs@),
        r matches Err(e) ==> e matches ZipError::DuplicateFileName(_),
        r matches Ok(items) ==> {
            let nf = new_files(fs@, entries@);
            &&& items@.len() == entries@.len() + nf.len()
            &&& forall|i: int|
                0 <= i < entries@.len() ==> {
                    let k = find_fs(fs@, entries@[i].name@);
                    &&& (#[trigger] items@[i]).name@ == entries@[i].name@
                    &&& items@[i].entry_index == Some(i as usize)
                    &&& items@[i].fs_index == (match k {
                        Some(j) => Some(j as usize),
                        None => None::<usize>,
                    })
                    &&& items@[i].action == decide_spec(
                        mode,
                        stamp_at(fs@, k),
                        Some(entries@[i].stamp),
                        entries@[i].matches,
                    )
                }
            &&& forall|k: int|
                0 <= k < nf.len() ==> {
                    let item = #[trigger] items@[entries@.len() + k];
                    &&& item.name@ == fs@[nf[k]].name@
                    &&& item.fs_index == Some(nf[k] as usize)
                    &&& item.entry_index.is_none()
                    &&& item.action == decide_spec(mode, Some(fs@[nf[k]].stamp), None, false)
                }
        },
{
    match check_duplicates(fs) {
        Some(j) => {
            return Err(ZipError::DuplicateFileName(fs[j].name.clone()));
        },
        None => {},
    }
    let mut items: Vec<PlanItem> = Vec::new();
    let mut i: usize = 0;
    while i < entries.len()
        invariant
            0 <= i <= entries@.len(),
            items@.len() == i,
            forall|a: int|
                0 <= a < i ==> {
                    let k = find_fs(fs@, entries@[a].name@);
                    &&& (#[trigger] items@[a]).name@ == entries@[a].name@
                    &&& items@[a].entry_index == Some(a as usize)
                    &&& items@[a].fs_index == (match k {
                        Some(j) => Some(j as usize),
                        None => None::<usize>,
                    })
                    &&& items@[a].action == decide_spec(
                        mode,
                        stamp_at(fs@, k),
                        Some(entries@[a].stamp),
                        entries@[a].matches,
                    )
                },
        decreases entries@.len() - i,
    {
        let e = &entries[i];
        let k = find_fs_exec(fs, &e.name);
        proof {
            lemma_find_fs(fs@, e.name@);
        }
        let st: Option<Stamp> = match k {
            Some(j) => Some(fs[j].stamp),
            None => None,
        };
        let action = decide_action(mode, st, Some(e.stamp), e.matches);
        let ghost before = items@;
        let nm = e.name.clone();
        assert(nm@ == entries@[i as int].name@);
        assert(st == stamp_at(fs@, find_fs(fs@, entries@[i as int].name@)));
        items.push(PlanItem { name: nm, action, fs_index: k, entry_index: Some(i) });
        assert(forall|a: int| 0 <= a < i ==> items@[a] == before[a]);
        i = i + 1;
    }
    let mut j: usize = 0;
    while j < fs.len()
        invariant
            0 <= j <= fs@.len(),
            items@.len() == entries@.len() + new_files(fs@.subrange(0, j as int), entries@).len(),
            forall|a: int|
                0 <= a < entries@.len() ==> {
                    let k = find_fs(fs@, entries@[a].name@);
                    &&& (#[trigger] items@[a]).name@ == entries@[a].name@
                    &&& items@[a].entry_index == Some(a as usize)
                    &&& items@[a].fs_index == (match k {
                        Some(j) => Some(j as usize),
                        None => None::<usize>,
                    })
                    &&& items@[a].action == decide_spec(
                        mode,
                        stamp_at(fs@, k),
                        Some(entries@[a].stamp),
                        entries@[a].matches,
                    )
                },
            forall|k: int|
                0 <= k < new_files(fs@.subrange(0, j as int), entries@).len() ==> {
                    let nf = new_files(fs@.subrange(0, j as int), entries@);
                    let item = #[trigger] items@[entries@.len() + k];
                    &&& 0 <= nf[k] < j
                    &&& item.name@ == fs@[nf[k]].name@
                    &&& item.fs_index == Some(nf[k] as usize)
                    &&& item.entry_index.is_none()
                    &&& item.action == decide_spec(mode, Some(fs@[nf[k]].stamp), None, false)
                },
        decreases fs@.len() - j,
    {
        let ghost pre = fs@.subrange(0, j as int);
        let ghost next = fs@.subrange(0, j + 1);
        proof {
            assert(next.drop_last() =~= pre);
            lemma_new_files_bounds(pre, entries@);
        }
        let f = &fs[j];
        if !in_archive_exec(entries, &f.name) {
            let action = decide_action(mode, Some(f.stamp), None, false);
            items.push(PlanItem { name: f.name.clone(), action, fs_index: Some(j), entry_index: None });
        }
        j = j + 1;
    }
    assert(fs@.subrange(0, fs@.len() as int) =~= fs@);
    Ok(items)
}

} // verus!
