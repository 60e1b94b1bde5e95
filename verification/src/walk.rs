//! The depth-first walk of the source tree, as a machine that asks for one directory
//! listing at a time: the caller stats and lists the directory it names and hands the
//! result back; the walk records what it finds and names the next directory.

use vstd::prelude::*;
use crate::filemap::{assoc_insert, has_key, lemma_assoc_insert_keeps_keys, unique_keys, FileDataView, FileMap};
use crate::params::RunParams;
use crate::source::{entry_step, join_of, record_source_dir, scanned_record, source_entry_step, source_full_dir, EntryKind, StepView, WalkStep};
use crate::text::{concat2, concat3, owned};

verus! {

/// One entry of a directory listing: its name with its type on disk and, for a file,
/// the mode that `stat` gave it; or an entry whose name is not valid text.
#[derive(Debug)]
pub enum ListedEntry {
    Named { name: String, kind: EntryKind, mode: i32 },
    Unnamed,
}

/// The value of a listed entry.
pub enum EntryView {
    Named(Seq<char>, EntryKind, i32),
    Unnamed,
}

/// The value of a listed entry as the contracts see it.
pub open spec fn entry_view(e: ListedEntry) -> EntryView {
    match e {
        ListedEntry::Named { name, kind, mode } => EntryView::Named(name@, kind, mode),
        ListedEntry::Unnamed => EntryView::Unnamed,
    }
}

/// The value of a listing (none where the directory could not be listed).
pub open spec fn listing_view(l: Option<Vec<ListedEntry>>) -> Option<Seq<EntryView>> {
    match l {
        Some(v) => Some(v@.map_values(|e: ListedEntry| entry_view(e))),
        None => None,
    }
}

/// A directory whose listing is being gone through: its path in the tree, its path on
/// disk, its depth, its listing, and the position of the next entry to take.
struct WalkFrame {
    cur_dir: String,
    full_dir: String,
    level: i32,
    entries: Vec<ListedEntry>,
    next: usize,
}

/// The value of a frame.
pub struct FrameView {
    pub cur_dir: Seq<char>,
    pub full_dir: Seq<char>,
    pub level: i32,
    pub entries: Seq<EntryView>,
    pub next: int,
}

/// The value of a frame as the contracts see it.
spec fn frame_view(f: WalkFrame) -> FrameView {
    FrameView {
        cur_dir: f.cur_dir@,
        full_dir: f.full_dir@,
        level: f.level,
        entries: f.entries@.map_values(|e: ListedEntry| entry_view(e)),
        next: f.next as int,
    }
}

/// The walk of the source tree below the source directory: the directories whose
/// listings are being gone through, innermost last, and the directory (path in the tree,
/// path on disk, depth) whose mode and listing it waits for, if any.
pub struct SourceWalk {
    source_dir: String,
    frames: Vec<WalkFrame>,
    pending: Option<(String, String, i32)>,
}

/// The value of a walk.
pub struct WalkView {
    pub source_dir: Seq<char>,
    pub frames: Seq<FrameView>,
    pub pending: Option<(Seq<char>, Seq<char>, i32)>,
}

impl View for SourceWalk {
    type V = WalkView;

    closed spec fn view(&self) -> WalkView {
        WalkView {
            source_dir: self.source_dir@,
            frames: self.frames@.map_values(|f: WalkFrame| frame_view(f)),
            pending: match self.pending {
                Some((c, f, l)) => Some((c@, f@, l)),
                None => None,
            },
        }
    }
}

/// What the walk asks for next: the mode and listing of a directory (its path in the
/// tree, its path on disk, its depth), or nothing more because it is done or failed.
#[derive(Debug)]
pub enum WalkAction {
    Scan { cur_dir: String, full_dir: String, level: i32 },
    Finished,
    Failed(String),
}

/// The value of an action.
pub enum ActionView {
    Scan(Seq<char>, Seq<char>, i32),
    Finished,
    Failed(Seq<char>),
}

/// The value of an action as the contracts see it.
pub open spec fn action_view(a: WalkAction) -> ActionView {
    match a {
        WalkAction::Scan { cur_dir, full_dir, level } => ActionView::Scan(cur_dir@, full_dir@, level),
        WalkAction::Finished => ActionView::Finished,
        WalkAction::Failed(e) => ActionView::Failed(e@),
    }
}

/// The text that each enclosing directory's scan puts before an error of a nested scan.
pub open spec fn nested_prefix() -> Seq<char> {
    "scan_source_dir: ERROR: scan_source_dir raised err: "@
}

/// The error `e` as it comes out of `depth` enclosing directory scans, each of which
/// puts it between `nested_prefix()` and a space.
pub open spec fn wrapped(e: Seq<char>, depth: nat) -> Seq<char>
    decreases depth,
{
    if depth == 0 {
        e
    } else {
        nested_prefix() + wrapped(e, (depth - 1) as nat) + " "@
    }
}

/// The error for a directory whose mode is zero.
pub open spec fn dir_mode_error(full_dir: Seq<char>) -> Seq<char> {
    "scan_source_dir: full_dir '"@ + full_dir + "' mode was zero!"@
}

/// The error for a directory that cannot be listed.
pub open spec fn listing_error(full_dir: Seq<char>) -> Seq<char> {
    "scan_source_dir: ERROR: cannot read dir: '"@ + full_dir + "'"@
}

/// The error for an entry whose name is not valid text.
pub open spec fn unnamed_error() -> Seq<char> {
    "scan_source_dir: could not convert file_name() into String "@
}

/// One listed entry of the directory of `top` taken into the source map `m` (see
/// `entry_step`); an entry without a valid name fails.
pub open spec fn listed_step(m: Seq<(Seq<char>, FileDataView)>, top: FrameView, e: EntryView) -> (
    Seq<(Seq<char>, FileDataView)>,
    StepView,
) {
    match e {
        EntryView::Named(name, kind, mode) => entry_step(m, top.cur_dir, top.full_dir, top.level, name, kind, mode),
        EntryView::Unnamed => (m, StepView::Failed(unnamed_error())),
    }
}

/// What is left of the listing of the innermost directory.
pub open spec fn remaining(frames: Seq<FrameView>) -> int {
    if frames.len() == 0 {
        0
    } else {
        frames.last().entries.len() - frames.last().next
    }
}

/// The walk goes on from the directories `frames` over the source map `m`, under the
/// source directory `sd`: it takes the next entry of the innermost directory, and drops
/// that directory once its listing is gone through; it stops at the first subdirectory,
/// which it asks for (its path on disk is `sd` followed by its path in the tree), at the
/// first failure, wrapped once per enclosing directory, or when no directory is left.
/// The result is the directories, the directory asked for, the map and the action.
pub open spec fn advance(sd: Seq<char>, frames: Seq<FrameView>, m: Seq<(Seq<char>, FileDataView)>) -> (
    Seq<FrameView>,
    Option<(Seq<char>, Seq<char>, i32)>,
    Seq<(Seq<char>, FileDataView)>,
    ActionView,
)
    decreases frames.len(), remaining(frames),
{
    if frames.len() == 0 {
        (frames, None, m, ActionView::Finished)
    } else {
        let top = frames.last();
        if !(0 <= top.next < top.entries.len()) {
            advance(sd, frames.drop_last(), m)
        } else {
            let top1 = FrameView {
                cur_dir: top.cur_dir,
                full_dir: top.full_dir,
                level: top.level,
                entries: top.entries,
                next: top.next + 1,
            };
            let frames1 = frames.drop_last().push(top1);
            let depth = (frames.len() - 1) as nat;
            let (m1, st) = listed_step(m, top, top.entries[top.next]);
            match st {
                StepView::Failed(e) => (Seq::empty(), None, m1, ActionView::Failed(wrapped(e, depth))),
                StepView::Descend(key, lvl) => (frames1, Some((key, sd + key, lvl)), m1, ActionView::Scan(key, sd + key, lvl)),
                _ => advance(sd, frames1, m1),
            }
        }
    }
}

/// The walk `w` given the mode `mode` and the listing `listing` (none where the
/// directory could not be listed) of the directory it asked for: a mode of zero fails;
/// otherwise the directory is recorded with its mode, a directory that could not be
/// listed fails, and the walk goes on through its listing (see `advance`).
pub open spec fn listed(
    w: WalkView,
    m: Seq<(Seq<char>, FileDataView)>,
    mode: i32,
    listing: Option<Seq<EntryView>>,
) -> (WalkView, Seq<(Seq<char>, FileDataView)>, ActionView) {
    match w.pending {
        None => (w, m, ActionView::Finished),
        Some((cur, full, level)) => {
            let depth = w.frames.len();
            let done = WalkView { source_dir: w.source_dir, frames: Seq::empty(), pending: None };
            if mode == 0 {
                (done, m, ActionView::Failed(wrapped(dir_mode_error(full), depth)))
            } else {
                let m1 = assoc_insert(m, cur, scanned_record(level, 'd', mode));
                match listing {
                    None => (done, m1, ActionView::Failed(wrapped(listing_error(full), depth))),
                    Some(es) => {
                        let frame = FrameView { cur_dir: cur, full_dir: full, level, entries: es, next: 0 };
                        let (fs, p, m2, a) = advance(w.source_dir, w.frames.push(frame), m1);
                        (WalkView { source_dir: w.source_dir, frames: fs, pending: p }, m2, a)
                    },
                }
            }
        },
    }
}

/// No directory listed at the largest depth has a subdirectory in it.
pub open spec fn depth_fits(level: i32, es: Seq<EntryView>) -> bool {
    level == i32::MAX ==> forall|i: int|
        0 <= i < es.len() ==> !(#[trigger] es[i] matches EntryView::Named(_, EntryKind::Directory, _))
}

/// Every frame has its next position within its listing and a depth that leaves room
/// for its subdirectories.
pub open spec fn frames_ok(frames: Seq<FrameView>) -> bool {
    forall|j: int|
        0 <= j < frames.len() ==> {
            &&& 0 <= (#[trigger] frames[j]).next <= frames[j].entries.len()
            &&& depth_fits(frames[j].level, frames[j].entries)
        }
}

/// The error `e` wrapped once per enclosing directory (see `wrapped`).
fn wrap_error(e: String, depth: usize) -> (r: String)
    ensures
        r@ == wrapped(e@, depth as nat),
{
    let ghost e0 = e@;
    let mut r = e;
    let mut i: usize = 0;
    while i < depth
        invariant
            i <= depth,
            r@ == wrapped(e0, i as nat),
        decreases depth - i,
    {
        r = concat3("scan_source_dir: ERROR: scan_source_dir raised err: ", r.as_str(), " ");
        i = i + 1;
    }
    r
}

impl SourceWalk {
    /// Whether the frames are in order.
    pub closed spec fn wf(&self) -> bool {
        frames_ok(self@.frames)
    }

    /// A walk that starts at the source path `cur_dir` at depth `level`, and the first
    /// directory it asks for: that path, on disk below the source directory.
    pub fn start(g: &RunParams, cur_dir: &str, level: i32) -> (r: (SourceWalk, WalkAction))
        ensures
            r.0.wf(),
            r.0@ == (WalkView {
                source_dir: g.source_dir@,
                frames: Seq::empty(),
                pending: Some((cur_dir@, g.source_dir@ + cur_dir@, level)),
            }),
            action_view(r.1) == ActionView::Scan(cur_dir@, g.source_dir@ + cur_dir@, level),
    {
        let full = source_full_dir(g, cur_dir);
        let w = SourceWalk {
            source_dir: owned(g.source_dir.as_str()),
            frames: Vec::new(),
            pending: Some((owned(cur_dir), owned(full.as_str()), level)),
        };
        assert(w@.frames =~= Seq::<FrameView>::empty());
        (w, WalkAction::Scan { cur_dir: owned(cur_dir), full_dir: full, level })
    }

    /// Takes the mode `mode` and the listing `listing` of the directory the walk asked
    /// for, records into the source map `src` what they show, and returns what the walk
    /// asks for next (see `listed`).
    pub fn dir_listed(&mut self, src: &mut FileMap, mode: i32, listing: Option<Vec<ListedEntry>>) -> (r: WalkAction)
        requires
            old(self).wf(),
            old(self)@.pending is Some,
            listing_view(listing) matches Some(es) ==> depth_fits(old(self)@.pending->Some_0.2, es),
        ensures
            final(self).wf(),
            (final(self)@, final(src)@, action_view(r)) == listed(old(self)@, old(src)@, mode, listing_view(listing)),
    {
        let ghost w0 = self@;
        let p = self.pending.take();
        let (cur, full, level) = p.unwrap();
        let depth = self.frames.len();
        match record_source_dir(src, cur.as_str(), full.as_str(), level, mode) {
            Err(e) => {
                self.frames = Vec::new();
                assert(self@.frames =~= Seq::<FrameView>::empty());
                return WalkAction::Failed(wrap_error(e, depth));
            },
            Ok(()) => {},
        }
        match listing {
            None => {
                self.frames = Vec::new();
                assert(self@.frames =~= Seq::<FrameView>::empty());
                let e = concat3("scan_source_dir: ERROR: cannot read dir: '", full.as_str(), "'");
                WalkAction::Failed(wrap_error(e, depth))
            },
            Some(entries) => {
                let frame = WalkFrame { cur_dir: cur, full_dir: full, level, entries, next: 0 };
                self.frames.push(frame);
                assert(self@.frames =~= w0.frames.push(frame_view(frame)));
                self.proceed(src)
            },
        }
    }

    /// Goes on through the listings (see `advance`).
    fn proceed(&mut self, src: &mut FileMap) -> (r: WalkAction)
        requires
            old(self).wf(),
            old(self)@.pending is None,
        ensures
            final(self).wf(),
            final(self)@.source_dir == old(self)@.source_dir,
            ({
                let (fs, p, m, a) = advance(old(self)@.source_dir, old(self)@.frames, old(src)@);
                &&& final(self)@.frames == fs
                &&& final(self)@.pending == p
                &&& final(src)@ == m
                &&& action_view(r) == a
            }),
    {
        let ghost sd = self@.source_dir;
        let ghost target = advance(sd, self@.frames, src@);
        loop
            invariant
                self.wf(),
                self@.pending is None,
                self@.source_dir == sd,
                sd == old(self)@.source_dir,
                target == advance(old(self)@.source_dir, old(self)@.frames, old(src)@),
                advance(sd, self@.frames, src@) == target,
            decreases self@.frames.len(), remaining(self@.frames),
        {
            if self.frames.len() == 0 {
                return WalkAction::Finished;
            }
            let ghost fv = self@.frames;
            let mut top = self.frames.pop().unwrap();
            assert(self@.frames =~= fv.drop_last());
            assert(frame_view(top) == fv.last());
            if top.next >= top.entries.len() {
                continue;
            }
            let i = top.next;
            let ghost tv = frame_view(top);
            let step: Result<WalkStep, String> = match &top.entries[i] {
                ListedEntry::Named { name, kind, mode } => {
                    assert(tv.entries[i as int] == entry_view(top.entries@[i as int]));
                    assert(depth_fits(tv.level, tv.entries));
                    source_entry_step(src, top.cur_dir.as_str(), top.full_dir.as_str(), top.level, name.as_str(), *kind, *mode)
                },
                ListedEntry::Unnamed => Err(owned("scan_source_dir: could not convert file_name() into String ")),
            };
            top.next = i + 1;
            let depth = self.frames.len();
            match step {
                Ok(WalkStep::Descend { key, level }) => {
                    let full = concat2(self.source_dir.as_str(), key.as_str());
                    self.frames.push(top);
                    self.pending = Some((owned(key.as_str()), owned(full.as_str()), level));
                    assert(self@.frames =~= fv.drop_last().push(frame_view(top)));
                    return WalkAction::Scan { cur_dir: key, full_dir: full, level };
                },
                Ok(_) => {
                    self.frames.push(top);
                    assert(self@.frames =~= fv.drop_last().push(frame_view(top)));
                },
                Err(e) => {
                    self.frames = Vec::new();
                    assert(self@.frames =~= Seq::<FrameView>::empty());
                    return WalkAction::Failed(wrap_error(e, depth));
                },
            }
        }
    }
}

/// The walk `w` over the source map `m` given the modes and listings `inputs`, one for
/// each directory it asks for, until it stops asking: the walk, the map and the last
/// action.
pub open spec fn run_walk(
    w: WalkView,
    m: Seq<(Seq<char>, FileDataView)>,
    inputs: Seq<(i32, Option<Seq<EntryView>>)>,
) -> (WalkView, Seq<(Seq<char>, FileDataView)>, ActionView)
    decreases inputs.len(),
{
    if inputs.len() == 0 || w.pending is None {
        (w, m, ActionView::Finished)
    } else {
        let (w1, m1, a) = listed(w, m, inputs[0].0, inputs[0].1);
        if a is Scan {
            run_walk(w1, m1, inputs.skip(1))
        } else {
            (w1, m1, a)
        }
    }
}

/// Going on through the listings only adds to the source map: every path it held is
/// still there, and no path occurs twice.
pub proof fn lemma_advance_keeps_paths(sd: Seq<char>, frames: Seq<FrameView>, m: Seq<(Seq<char>, FileDataView)>)
    requires
        unique_keys(m),
    ensures
        unique_keys(advance(sd, frames, m).2),
        forall|k: Seq<char>| has_key(m, k) ==> #[trigger] has_key(advance(sd, frames, m).2, k),
    decreases frames.len(), remaining(frames),
{
    if frames.len() > 0 {
        let top = frames.last();
        if !(0 <= top.next < top.entries.len()) {
            lemma_advance_keeps_paths(sd, frames.drop_last(), m);
        } else {
            let top1 = FrameView {
                cur_dir: top.cur_dir,
                full_dir: top.full_dir,
                level: top.level,
                entries: top.entries,
                next: top.next + 1,
            };
            let frames1 = frames.drop_last().push(top1);
            let e = top.entries[top.next];
            if let EntryView::Named(name, kind, mode) = e {
                if kind is File && mode != 0 {
                    lemma_assoc_insert_keeps_keys(m, join_of(top.cur_dir, name), scanned_record(top.level, 'f', mode));
                }
            }
            let (m1, st) = listed_step(m, top, e);
            if !(st is Failed) && !(st is Descend) {
                lemma_advance_keeps_paths(sd, frames1, m1);
            }
        }
    }
}

/// Taking the mode and listing of a directory only adds to the source map: every path it
/// held is still there, and no path occurs twice.
pub proof fn lemma_listed_keeps_paths(
    w: WalkView,
    m: Seq<(Seq<char>, FileDataView)>,
    mode: i32,
    listing: Option<Seq<EntryView>>,
)
    requires
        unique_keys(m),
    ensures
        unique_keys(listed(w, m, mode, listing).1),
        forall|k: Seq<char>| has_key(m, k) ==> #[trigger] has_key(listed(w, m, mode, listing).1, k),
{
    if let Some((cur, full, level)) = w.pending {
        if mode != 0 {
            lemma_assoc_insert_keeps_keys(m, cur, scanned_record(level, 'd', mode));
            let m1 = assoc_insert(m, cur, scanned_record(level, 'd', mode));
            if let Some(es) = listing {
                let frame = FrameView { cur_dir: cur, full_dir: full, level, entries: es, next: 0 };
                lemma_advance_keeps_paths(w.source_dir, w.frames.push(frame), m1);
            }
        }
    }
}

/// A whole walk of the source tree only adds to the source map: whatever the modes and
/// listings it is given, and whether it finishes or fails, every path the map held is
/// still there afterwards, and no path occurs twice.
pub proof fn lemma_walk_keeps_paths(
    w: WalkView,
    m: Seq<(Seq<char>, FileDataView)>,
    inputs: Seq<(i32, Option<Seq<EntryView>>)>,
)
    requires
        unique_keys(m),
    ensures
        unique_keys(run_walk(w, m, inputs).1),
        forall|k: Seq<char>| has_key(m, k) ==> #[trigger] has_key(run_walk(w, m, inputs).1, k),
    decreases inputs.len(),
{
    if inputs.len() > 0 && w.pending is Some {
        lemma_listed_keeps_paths(w, m, inputs[0].0, inputs[0].1);
        let (w1, m1, a) = listed(w, m, inputs[0].0, inputs[0].1);
        if a is Scan {
            lemma_walk_keeps_paths(w1, m1, inputs.skip(1));
        }
    }
}

} // verus!
