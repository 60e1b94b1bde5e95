//! Recording the scanned source tree: paths, and what is recorded for each.

use vstd::prelude::*;
use crate::filemap::{assoc_insert, FileData, FileDataView, FileMap};
use crate::params::RunParams;
use crate::text::{concat2, concat3, owned};

verus! {

/// `dir` joined with `name` as `Path::join` joins them on Unix: an absolute `name`
/// replaces `dir`; otherwise a `/` is put between them unless `dir` is empty or already
/// ends with one.
pub open spec fn join_of(dir: Seq<char>, name: Seq<char>) -> Seq<char> {
    if name.len() > 0 && name[0] == '/' {
        name
    } else if dir.len() == 0 {
        name
    } else if dir.last() == '/' {
        dir + name
    } else {
        dir + "/"@ + name
    }
}

/// `dir` joined with `name` (see `join_of`).
pub fn join_path(dir: &str, name: &str) -> (r: String)
    ensures
        r@ == join_of(dir@, name@),
{
    let nv = crate::text::chars_of(name);
    let dv = crate::text::chars_of(dir);
    if nv.len() > 0 && nv[0] == '/' {
        owned(name)
    } else if dv.len() == 0 {
        owned(name)
    } else if dv[dv.len() - 1] == '/' {
        concat2(dir, name)
    } else {
        concat3(dir, "/", name)
    }
}

/// The directory on disk that a source path stands for.
pub fn source_full_dir(g: &RunParams, cur_dir: &str) -> (r: String)
    ensures
        r@ == g.source_dir@ + cur_dir@,
{
    concat2(g.source_dir.as_str(), cur_dir)
}

/// What the source scan records for an entry at depth `level` of type `file_type` with
/// mode `mode`: no owner or group, and no defaults.
pub open spec fn scanned_record(level: i32, file_type: char, mode: i32) -> FileDataView {
    FileDataView {
        file_level: level,
        file_type,
        file_user: Seq::empty(),
        file_group: Seq::empty(),
        file_mode: mode,
        default_file_user: Seq::empty(),
        default_file_group: Seq::empty(),
        default_file_mode: 0,
    }
}

fn scanned_record_exec(level: i32, file_type: char, mode: i32) -> (r: FileData)
    ensures
        r@ == scanned_record(level, file_type, mode),
{
    proof {
        reveal_strlit("");
        assert(""@ =~= Seq::<char>::empty());
    }
    FileData {
        file_level: level,
        file_type,
        file_user: owned(""),
        file_group: owned(""),
        file_mode: mode,
        default_file_user: owned(""),
        default_file_group: owned(""),
        default_file_mode: 0,
    }
}

/// Records the source directory `cur_dir` (on disk at `full_dir`) found at depth `level`
/// with mode `mode`; a mode of zero is refused and nothing is recorded.
pub fn record_source_dir(src: &mut FileMap, cur_dir: &str, full_dir: &str, level: i32, mode: i32) -> (r: Result<(), String>)
    ensures
        mode == 0 ==> (r matches Err(e) && e@ == "scan_source_dir: full_dir '"@ + full_dir@ + "' mode was zero!"@
            && final(src)@ == old(src)@),
        mode != 0 ==> (r is Ok && final(src)@ == assoc_insert(old(src)@, cur_dir@, scanned_record(level, 'd', mode))),
{
    if mode == 0 {
        return Err(concat3("scan_source_dir: full_dir '", full_dir, "' mode was zero!"));
    }
    src.insert(owned(cur_dir), scanned_record_exec(level, 'd', mode));
    Ok(())
}

/// Records the source file `key` (on disk at `full_path`) found at depth `level` with
/// mode `mode`; a mode of zero is refused and nothing is recorded.
pub fn record_source_file(src: &mut FileMap, key: &str, full_path: &str, level: i32, mode: i32) -> (r: Result<(), String>)
    ensures
        mode == 0 ==> (r matches Err(e) && e@ == "scan_source_dir: file name '"@ + full_path@ + "' mode returned zero."@
            && final(src)@ == old(src)@),
        mode != 0 ==> (r is Ok && final(src)@ == assoc_insert(old(src)@, key@, scanned_record(level, 'f', mode))),
{
    if mode == 0 {
        return Err(concat3("scan_source_dir: file name '", full_path, "' mode returned zero."));
    }
    src.insert(owned(key), scanned_record_exec(level, 'f', mode));
    Ok(())
}

/// What an entry of a source directory listing is on disk.
#[derive(Debug, Clone, Copy)]
pub enum EntryKind {
    File,
    Directory,
    Other,
}

/// What the walk of the source tree does next after an entry of a listing: nothing more
/// (the file was recorded), go down into a subdirectory (its path and depth), or pass
/// over an entry that is neither a file nor a directory.
#[derive(Debug)]
pub enum WalkStep {
    Recorded,
    Descend { key: String, level: i32 },
    Skipped,
}

/// The value of the outcome of a walk step.
pub enum StepView {
    Recorded,
    Descend(Seq<char>, i32),
    Skipped,
    Failed(Seq<char>),
}

/// The outcome of a walk step as the contracts see it.
pub open spec fn step_view(r: Result<WalkStep, String>) -> StepView {
    match r {
        Ok(WalkStep::Recorded) => StepView::Recorded,
        Ok(WalkStep::Descend { key, level }) => StepView::Descend(key@, level),
        Ok(WalkStep::Skipped) => StepView::Skipped,
        Err(e) => StepView::Failed(e@),
    }
}

/// One entry `name` of the listing of the source directory `cur_dir` (on disk at
/// `full_dir`, at depth `level`): a file is recorded under `cur_dir` joined with its name,
/// with the mode `mode` that `stat` gave it, and a mode of zero is refused; a directory
/// is gone down into, one level deeper; anything else is passed over. Only a recorded
/// file changes the map.
pub open spec fn entry_step(
    m: Seq<(Seq<char>, FileDataView)>,
    cur_dir: Seq<char>,
    full_dir: Seq<char>,
    level: i32,
    name: Seq<char>,
    kind: EntryKind,
    mode: i32,
) -> (Seq<(Seq<char>, FileDataView)>, StepView) {
    let key = join_of(cur_dir, name);
    let full = join_of(full_dir, name);
    match kind {
        EntryKind::File => if mode == 0 {
            (m, StepView::Failed("scan_source_dir: file name '"@ + full + "' mode returned zero."@))
        } else {
            (assoc_insert(m, key, scanned_record(level, 'f', mode)), StepView::Recorded)
        },
        EntryKind::Directory => (m, StepView::Descend(key, (level + 1) as i32)),
        EntryKind::Other => (m, StepView::Skipped),
    }
}

/// Takes one entry of a source directory listing (see `entry_step`); `mode` is read only
/// for a file.
pub fn source_entry_step(
    src: &mut FileMap,
    cur_dir: &str,
    full_dir: &str,
    level: i32,
    name: &str,
    kind: EntryKind,
    mode: i32,
) -> (r: Result<WalkStep, String>)
    requires
        kind is Directory ==> level < i32::MAX,
    ensures
        (final(src)@, step_view(r)) == entry_step(old(src)@, cur_dir@, full_dir@, level, name@, kind, mode),
{
    let key = join_path(cur_dir, name);
    match kind {
        EntryKind::File => {
            let full = join_path(full_dir, name);
            match record_source_file(src, key.as_str(), full.as_str(), level, mode) {
                Ok(()) => Ok(WalkStep::Recorded),
                Err(e) => Err(e),
            }
        },
        EntryKind::Directory => Ok(WalkStep::Descend { key, level: level + 1 }),
        EntryKind::Other => Ok(WalkStep::Skipped),
    }
}

} // verus!
