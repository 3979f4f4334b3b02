//! Planning and running file transfers in both directions.
//!
//! The work is split in two on purpose: plan first, copy second. Walking the
//! tree up front is what makes a real percentage possible, and it is where
//! destination collisions are found, so by the time bytes start moving every
//! question has already been asked.
use vstd::prelude::*;
use vstd::string::StrSliceExecFns;

use crate::error::{error_text, AppError, ErrorView};
use crate::ssh::sftp::wire::{Attrs, FileKind};
use crate::text::{chars_of, join_path, owned, path_join};

verus! {

#[derive(Clone, Copy, PartialEq, Eq, Debug, Structural)]
pub enum Direction {
    Upload,
    Download,
}

#[derive(Clone, Copy, PartialEq, Eq, Debug, Structural)]
pub enum SkipReason {
    /// The user chose to keep the file that is already there.
    Exists,
    /// Symlinks are listed but never followed: one can point back up its own
    /// tree.
    Symlink,
}

#[derive(Clone, Debug)]
pub struct TransferItem {
    pub src: String,
    pub dst: String,
    pub is_dir: bool,
    pub size: u64,
    /// Something already sits at `dst`. Answered before the copy starts.
    pub exists: bool,
    pub skip: Option<SkipReason>,
}

/// What stands behind the last `/` of `s`.
pub open spec fn last_part(s: Seq<char>) -> Seq<char>
    decreases s.len(),
{
    if s.contains('/') {
        if s[0] == '/' && !s.drop_first().contains('/') {
            s.drop_first()
        } else {
            last_part(s.drop_first())
        }
    } else {
        s
    }
}

/// `s` without the `/` at its end.
pub open spec fn strip_slashes(s: Seq<char>) -> Seq<char>
    decreases s.len(),
{
    if s.len() > 0 && s.last() == '/' {
        strip_slashes(s.drop_last())
    } else {
        s
    }
}

/// The last component of a path.
pub open spec fn component(path: Seq<char>) -> Seq<char> {
    last_part(strip_slashes(path))
}

proof fn lemma_last_part(s: Seq<char>, at: int)
    requires
        0 <= at <= s.len(),
        at > 0 ==> s[at - 1] == '/',
        forall|i: int| at <= i < s.len() ==> s[i] != '/',
    ensures
        last_part(s) == s.skip(at),
    decreases s.len(),
{
    if at == 0 {
        assert(!s.contains('/'));
        assert(s.skip(0) =~= s);
    } else {
        assert(s.contains('/'));
        let rest = s.drop_first();
        if s[0] == '/' && !rest.contains('/') {
            if at > 1 {
                assert(rest[at - 2] == '/');
            }
            assert(rest =~= s.skip(at));
        } else {
            if at == 1 {
                assert forall|i: int| 0 <= i < rest.len() implies rest[i] != '/' by {
                    assert(rest[i] == s[i + 1]);
                }
                assert(!rest.contains('/'));
            } else {
                assert(rest[at - 2] == s[at - 1]);
                lemma_last_part(rest, at - 1);
                assert(rest.skip(at - 1) =~= s.skip(at));
            }
        }
    }
}

/// Where the part behind the last `/` of `v[..to]` begins.
fn last_part_start(v: &[char], to: usize) -> (r: usize)
    requires
        to <= v@.len(),
    ensures
        r <= to,
        last_part(v@.take(to as int)) == v@.subrange(r as int, to as int),
{
    let mut at: usize = to;
    while at > 0 && v[at - 1] != '/'
        invariant
            at <= to <= v@.len(),
            forall|i: int| at <= i < to ==> v@[i] != '/',
        decreases at,
    {
        at = at - 1;
    }
    proof {
        lemma_last_part(v@.take(to as int), at as int);
        assert(v@.take(to as int).skip(at as int) =~= v@.subrange(at as int, to as int));
    }
    at
}

impl TransferItem {
    /// The name shown while this item is being copied: the destination's last
    /// component.
    pub fn display_name(&self) -> (r: &str)
        ensures
            r@ == last_part(self.dst@),
    {
        let all = chars_of(self.dst.as_str());
        let at: usize = last_part_start(&all, all.len());
        assert(all@.take(all@.len() as int) =~= all@);
        self.dst.as_str().substring_char(at, all.len())
    }

    /// Whether this file's bytes will move.
    pub open spec fn moves(self) -> bool {
        self.skip is None && !self.is_dir
    }

    /// Whether this file would replace something. A directory never does:
    /// merging into an existing one is the normal case.
    pub open spec fn collides(self) -> bool {
        self.exists && !self.is_dir && self.skip is None
    }
}

/// The last component of a path.
pub fn last_component(path: &str) -> (r: &str)
    ensures
        r@ == component(path@),
{
    let all = chars_of(path);
    let mut to: usize = all.len();
    assert(all@.take(all@.len() as int) =~= all@);
    while to > 0 && all[to - 1] == '/'
        invariant
            to <= all@.len(),
            strip_slashes(all@) == strip_slashes(all@.take(to as int)),
        decreases to,
    {
        assert(all@.take(to as int).drop_last() =~= all@.take(to - 1));
        to = to - 1;
    }
    let at: usize = last_part_start(&all, to);
    path.substring_char(at, to)
}

/// A destination path: remote ones are joined by one `/`, local ones as paths.
pub open spec fn destination(direction: Direction, dir: Seq<char>, name: Seq<char>) -> Seq<char> {
    match direction {
        Direction::Upload => if dir.len() > 0 && dir.last() == '/' {
            dir + name
        } else {
            dir + seq!['/'] + name
        },
        Direction::Download => path_join(dir, name),
    }
}

/// Joins a destination path.
pub fn join(direction: Direction, dir: &str, name: &str) -> (r: String)
    ensures
        r@ == destination(direction, dir@, name@),
{
    match direction {
        Direction::Upload => remote_join(dir, name),
        Direction::Download => join_path(dir, name),
    }
}

/// Joins a remote path: exactly one `/` stands before the name.
pub fn remote_join(dir: &str, name: &str) -> (r: String)
    ensures
        r@ == destination(Direction::Upload, dir@, name@),
{
    let all = chars_of(dir);
    let mut out = owned(dir);
    if !(all.len() > 0 && all[all.len() - 1] == '/') {
        out.push('/');
    }
    out.push_str(name);
    assert(out@ =~= destination(Direction::Upload, dir@, name@));
    out
}

/// What is to be copied.
#[derive(Clone, Debug)]
pub struct TransferPlan {
    pub items: Vec<TransferItem>,
    pub total_bytes: u64,
}

/// The bytes of the items that will move.
pub open spec fn moving_bytes(items: Seq<TransferItem>) -> nat
    decreases items.len(),
{
    if items.len() == 0 {
        0
    } else {
        moving_bytes(items.drop_last()) + (if items.last().moves() {
            items.last().size as nat
        } else {
            0
        })
    }
}

/// The number of items that will move.
pub open spec fn moving_count(items: Seq<TransferItem>) -> nat
    decreases items.len(),
{
    if items.len() == 0 {
        0
    } else {
        moving_count(items.drop_last()) + (if items.last().moves() {
            1nat
        } else {
            0
        })
    }
}

/// The number of items that are not directories.
pub open spec fn file_items(items: Seq<TransferItem>) -> nat
    decreases items.len(),
{
    if items.len() == 0 {
        0
    } else {
        file_items(items.drop_last()) + (if items.last().is_dir {
            0nat
        } else {
            1
        })
    }
}

/// The places of the items that would replace something, in order.
pub open spec fn conflict_places(items: Seq<TransferItem>) -> Seq<usize>
    decreases items.len(),
{
    if items.len() == 0 {
        Seq::empty()
    } else {
        let front = conflict_places(items.drop_last());
        if items.last().collides() {
            front.push((items.len() - 1) as usize)
        } else {
            front
        }
    }
}

proof fn lemma_moving_prefix(items: Seq<TransferItem>, k: int)
    requires
        0 <= k <= items.len(),
    ensures
        moving_bytes(items.take(k)) <= moving_bytes(items),
        moving_count(items.take(k)) <= k,
    decreases items.len(),
{
    if k < items.len() {
        lemma_moving_prefix(items.drop_last(), k);
        assert(items.drop_last().take(k) =~= items.take(k));
    } else {
        assert(items.take(k) =~= items);
        if items.len() > 0 {
            lemma_moving_prefix(items.drop_last(), k - 1);
            assert(items.drop_last().take(k - 1) =~= items.drop_last());
        }
    }
}

/// An item that is left out moves nothing.
proof fn lemma_skip_moves_less(items: Seq<TransferItem>, at: int)
    requires
        0 <= at < items.len(),
    ensures
        moving_bytes(items.update(at, TransferItem { skip: Some(SkipReason::Exists), ..items[at] })) <= moving_bytes(
            items,
        ),
    decreases items.len(),
{
    let skipped = TransferItem { skip: Some(SkipReason::Exists), ..items[at] };
    let front = items.drop_last();
    if at < front.len() {
        lemma_skip_moves_less(front, at);
        assert(items.update(at, skipped).drop_last() =~= front.update(at, skipped));
    } else {
        assert(items.update(at, skipped).drop_last() =~= front);
    }
}

impl Default for TransferPlan {
    fn default() -> (r: Self)
        ensures
            r.items@ == Seq::<TransferItem>::empty(),
            r.total_bytes == 0,
            r.sums(),
    {
        TransferPlan { items: Vec::new(), total_bytes: 0 }
    }
}

impl TransferPlan {
    /// Whether what will move is within the total.
    pub open spec fn sums(self) -> bool {
        moving_bytes(self.items@) <= self.total_bytes
    }

    /// Indices of the files that would overwrite something.
    pub fn conflicts(&self) -> (r: Vec<usize>)
        ensures
            r@ == conflict_places(self.items@),
    {
        let mut out: Vec<usize> = Vec::new();
        let mut i: usize = 0;
        while i < self.items.len()
            invariant
                i <= self.items@.len(),
                out@ == conflict_places(self.items@.take(i as int)),
            decreases self.items@.len() - i,
        {
            let item = &self.items[i];
            assert(self.items@.take(i + 1).drop_last() =~= self.items@.take(i as int));
            assert(self.items@.take(i + 1).last() == *item);
            if item.exists && !item.is_dir && item.skip.is_none() {
                out.push(i);
            }
            i = i + 1;
        }
        assert(self.items@.take(self.items@.len() as int) =~= self.items@);
        out
    }

    /// Bytes that will actually move, once skips are decided.
    pub fn planned_bytes(&self) -> (r: u64)
        requires
            moving_bytes(self.items@) <= u64::MAX,
        ensures
            r == moving_bytes(self.items@),
    {
        let mut sum: u64 = 0;
        let mut i: usize = 0;
        while i < self.items.len()
            invariant
                i <= self.items@.len(),
                moving_bytes(self.items@) <= u64::MAX,
                sum == moving_bytes(self.items@.take(i as int)),
            decreases self.items@.len() - i,
        {
            let item = &self.items[i];
            assert(self.items@.take(i + 1).drop_last() =~= self.items@.take(i as int));
            assert(self.items@.take(i + 1).last() == *item);
            proof {
                lemma_moving_prefix(self.items@, i + 1);
            }
            if item.skip.is_none() && !item.is_dir {
                sum = sum + item.size;
            }
            i = i + 1;
        }
        assert(self.items@.take(self.items@.len() as int) =~= self.items@);
        sum
    }

    /// How many files will move.
    pub fn file_count(&self) -> (r: usize)
        ensures
            r == moving_count(self.items@),
    {
        let mut count: usize = 0;
        let mut i: usize = 0;
        while i < self.items.len()
            invariant
                i <= self.items@.len(),
                count <= i,
                count == moving_count(self.items@.take(i as int)),
            decreases self.items@.len() - i,
        {
            let item = &self.items[i];
            assert(self.items@.take(i + 1).drop_last() =~= self.items@.take(i as int));
            assert(self.items@.take(i + 1).last() == *item);
            if item.skip.is_none() && !item.is_dir {
                count = count + 1;
            }
            i = i + 1;
        }
        assert(self.items@.take(self.items@.len() as int) =~= self.items@);
        count
    }

    /// How many items are not directories.
    fn files(&self) -> (r: usize)
        ensures
            r == file_items(self.items@),
    {
        let mut count: usize = 0;
        let mut i: usize = 0;
        while i < self.items.len()
            invariant
                i <= self.items@.len(),
                count <= i,
                count == file_items(self.items@.take(i as int)),
            decreases self.items@.len() - i,
        {
            let item = &self.items[i];
            assert(self.items@.take(i + 1).drop_last() =~= self.items@.take(i as int));
            assert(self.items@.take(i + 1).last() == *item);
            if !item.is_dir {
                count = count + 1;
            }
            i = i + 1;
        }
        assert(self.items@.take(self.items@.len() as int) =~= self.items@);
        count
    }
}

/// What a transfer reports.
pub enum TransferEvent {
    /// While walking, before any byte moves.
    Scanning { files: usize, bytes: u64 },
    ItemStarted { index: usize, name: String, size: u64 },
    Progress { done_bytes: u64 },
    ItemFinished { index: usize },
    ItemSkipped { index: usize, reason: SkipReason },
    ItemFailed { index: usize, name: String, message: String },
}

/// What a run came to.
pub struct TransferSummary {
    pub files: usize,
    pub bytes: u64,
    pub skipped: usize,
    pub failures: Vec<String>,
    pub cancelled: bool,
}

impl Default for TransferSummary {
    fn default() -> (r: Self)
        ensures
            r.files == 0,
            r.bytes == 0,
            r.skipped == 0,
            r.failures@ == Seq::<String>::empty(),
            !r.cancelled,
    {
        TransferSummary { files: 0, bytes: 0, skipped: 0, failures: Vec::new(), cancelled: false }
    }
}

/// What a walk found in a directory.
#[derive(Clone, Copy, PartialEq, Eq, Debug, Structural)]
pub enum ChildKind {
    Dir,
    Symlink,
    File,
}

/// A walk of what the user selected, turning it into a plan. Directories are
/// emitted before their contents, so creating them in order is enough.
pub struct Walk {
    pub direction: Direction,
    pub dest_dir: String,
    pub plan: TransferPlan,
    /// Directories still to be entered, by source and destination.
    pub queue: Vec<(String, String)>,
    /// The directory being read.
    pub current: Option<(String, String)>,
}

/// Whether a destination is one that the user's selection names directly.
pub open spec fn is_top(direction: Direction, dest_dir: Seq<char>, src: Seq<char>, dst: Seq<char>) -> bool {
    dst == destination(direction, dest_dir, component(src))
}

/// Whether `dst` stands in a directory that is among the first `n` items.
pub open spec fn has_parent(items: Seq<TransferItem>, n: int, dst: Seq<char>) -> bool {
    exists|j: int, name: Seq<char>|
        0 <= j < n && j < items.len() && (#[trigger] items[j]).is_dir && dst == #[trigger] child_of(
            items[j].dst@,
            name,
        )
}

/// The path of `name` in `dir`.
pub open spec fn child_of(dir: Seq<char>, name: Seq<char>) -> Seq<char> {
    dir + seq!['/'] + name
}

impl Walk {
    /// Whether every item is one that was selected or stands behind the
    /// directory that holds it, and what is still queued will.
    pub open spec fn parents_first(self) -> bool {
        let items = self.plan.items@;
        &&& forall|i: int|
            0 <= i < items.len() ==> is_top(
                self.direction,
                self.dest_dir@,
                (#[trigger] items[i]).src@,
                items[i].dst@,
            ) || has_parent(items, i, items[i].dst@)
        &&& forall|i: int|
            0 <= i < self.queue@.len() ==> is_top(
                self.direction,
                self.dest_dir@,
                (#[trigger] self.queue@[i]).0@,
                self.queue@[i].1@,
            ) || has_parent(items, items.len() as int, self.queue@[i].1@)
        &&& self.current matches Some((_, dst)) ==> exists|j: int|
            0 <= j < items.len() && (#[trigger] items[j]).is_dir && items[j].dst@ == dst@
    }

    /// A walk into `dest_dir` that has not begun.
    pub fn new(direction: Direction, dest_dir: &str) -> (r: Self)
        ensures
            r.direction == direction,
            r.dest_dir@ == dest_dir@,
            r.plan.items@ == Seq::<TransferItem>::empty(),
            r.plan.total_bytes == 0,
            r.queue@ == Seq::<(String, String)>::empty(),
            r.current is None,
            r.parents_first(),
            r.plan.sums(),
    {
        Walk {
            direction,
            dest_dir: owned(dest_dir),
            plan: TransferPlan { items: Vec::new(), total_bytes: 0 },
            queue: Vec::new(),
            current: None,
        }
    }

    /// Takes one selected source. A directory is queued; a file's destination
    /// comes back, to be looked at and then added.
    pub fn add_source(&mut self, src: &str, is_dir: bool) -> (r: Option<String>)
        requires
            old(self).parents_first(),
        ensures
            final(self).parents_first(),
            final(self).direction == old(self).direction,
            final(self).dest_dir == old(self).dest_dir,
            final(self).plan == old(self).plan,
            final(self).current == old(self).current,
            ({
                let dst = destination(old(self).direction, old(self).dest_dir@, component(src@));
                if is_dir {
                    &&& r is None
                    &&& final(self).queue@.len() == old(self).queue@.len() + 1
                    &&& final(self).queue@.drop_last() == old(self).queue@
                    &&& final(self).queue@.last().0@ == src@
                    &&& final(self).queue@.last().1@ == dst
                } else {
                    &&& r matches Some(d) && d@ == dst
                    &&& final(self).queue == old(self).queue
                }
            }),
    {
        let dst = join(self.direction, self.dest_dir.as_str(), last_component(src));
        if is_dir {
            let ghost before = self.queue@;
            self.queue.push((owned(src), dst));
            assert(self.queue@.drop_last() =~= before);
            None
        } else {
            Some(dst)
        }
    }

    /// Enters the directory queued last: it becomes the next item of the plan.
    /// `None` when there is none left.
    pub fn enter(&mut self) -> (r: Option<(String, String)>)
        requires
            old(self).parents_first(),
        ensures
            final(self).parents_first(),
            old(self).plan.sums() ==> final(self).plan.sums(),
            final(self).direction == old(self).direction,
            final(self).dest_dir == old(self).dest_dir,
            final(self).plan.total_bytes == old(self).plan.total_bytes,
            match r {
                Some((src, dst)) => {
                    &&& old(self).queue@.len() > 0
                    &&& (src, dst) == old(self).queue@.last()
                    &&& final(self).queue@ == old(self).queue@.drop_last()
                    &&& final(self).current == Some((src, dst))
                    &&& final(self).plan.items@ == old(self).plan.items@.push(
                        TransferItem { src, dst, is_dir: true, size: 0, exists: false, skip: None },
                    )
                },
                None => {
                    &&& old(self).queue@.len() == 0
                    &&& final(self).queue@ == old(self).queue@
                    &&& final(self).current is None
                    &&& final(self).plan == old(self).plan
                },
            },
    {
        match self.queue.pop() {
            Some((src, dst)) => {
                let ghost before = self.plan.items@;
                let item = TransferItem {
                    src: src.clone(),
                    dst: dst.clone(),
                    is_dir: true,
                    size: 0,
                    exists: false,
                    skip: None,
                };
                self.plan.items.push(item);
                self.current = Some((src.clone(), dst.clone()));
                proof {
                    assert(self.plan.items@.drop_last() =~= before);
                    lemma_items_grow(before, item);
                    assert(self.plan.items@[before.len() as int] == item);
                }
                Some((src, dst))
            },
            None => {
                self.current = None;
                None
            },
        }
    }

    /// Takes one child of the directory being read. A directory is queued, a
    /// symlink is recorded as skipped, and a file's paths come back, to be
    /// looked at and then added.
    pub fn child(&mut self, src: &str, name: &str, kind: ChildKind) -> (r: Option<String>)
        requires
            old(self).parents_first(),
            old(self).current is Some,
        ensures
            final(self).parents_first(),
            old(self).plan.sums() ==> final(self).plan.sums(),
            final(self).direction == old(self).direction,
            final(self).dest_dir == old(self).dest_dir,
            final(self).plan.total_bytes == old(self).plan.total_bytes,
            final(self).current == old(self).current,
            ({
                let dst = child_of(old(self).current->Some_0.1@, name@);
                match kind {
                    ChildKind::Dir => {
                        &&& r is None
                        &&& final(self).plan == old(self).plan
                        &&& final(self).queue@.len() == old(self).queue@.len() + 1
                        &&& final(self).queue@.drop_last() == old(self).queue@
                        &&& final(self).queue@.last().0@ == src@
                        &&& final(self).queue@.last().1@ == dst
                    },
                    ChildKind::Symlink => {
                        &&& r is None
                        &&& final(self).queue == old(self).queue
                        &&& final(self).plan.items@.len() == old(self).plan.items@.len() + 1
                        &&& final(self).plan.items@.drop_last() == old(self).plan.items@
                        &&& is_symlink_item(final(self).plan.items@.last(), src@, dst)
                    },
                    ChildKind::File => {
                        &&& r matches Some(d) && d@ == dst
                        &&& final(self).plan == old(self).plan
                        &&& final(self).queue == old(self).queue
                    },
                }
            }),
    {
        let mut dst = String::new();
        if let Some((_, dir)) = &self.current {
            dst.push_str(dir.as_str());
        }
        dst.push('/');
        dst.push_str(name);
        assert(dst@ =~= child_of(old(self).current->Some_0.1@, name@));
        let ghost items = self.plan.items@;
        proof {
            let dir = self.current->Some_0.1@;
            let j = choose|j: int| 0 <= j < items.len() && (#[trigger] items[j]).is_dir && items[j].dst@ == dir;
            assert(dst@ == child_of(items[j].dst@, name@));
            assert(has_parent(items, items.len() as int, dst@));
        }
        match kind {
            ChildKind::Dir => {
                let ghost before = self.queue@;
                self.queue.push((owned(src), dst));
                assert(self.queue@.drop_last() =~= before);
                None
            },
            ChildKind::Symlink => {
                let item = TransferItem {
                    src: owned(src),
                    dst,
                    is_dir: false,
                    size: 0,
                    exists: false,
                    skip: Some(SkipReason::Symlink),
                };
                self.plan.items.push(item);
                proof {
                    lemma_items_grow(items, item);
                    assert(self.plan.items@.drop_last() =~= items);
                }
                None
            },
            ChildKind::File => Some(dst),
        }
    }

    /// Adds one file to the plan, with what was found out about it, and reports
    /// how far the scan has come.
    pub fn push_file(&mut self, src: String, dst: String, size: u64, exists: bool) -> (r: TransferEvent)
        requires
            old(self).parents_first(),
            is_top(old(self).direction, old(self).dest_dir@, src@, dst@) || has_parent(
                old(self).plan.items@,
                old(self).plan.items@.len() as int,
                dst@,
            ),
            old(self).plan.total_bytes + size <= u64::MAX,
        ensures
            final(self).parents_first(),
            old(self).plan.sums() ==> final(self).plan.sums(),
            final(self).direction == old(self).direction,
            final(self).dest_dir == old(self).dest_dir,
            final(self).queue == old(self).queue,
            final(self).current == old(self).current,
            final(self).plan.total_bytes == old(self).plan.total_bytes + size,
            final(self).plan.items@ == old(self).plan.items@.push(
                TransferItem { src, dst, is_dir: false, size, exists, skip: None },
            ),
            r == (TransferEvent::Scanning {
                files: (file_items(old(self).plan.items@) + 1) as usize,
                bytes: final(self).plan.total_bytes,
            }),
    {
        let ghost items = self.plan.items@;
        let item = TransferItem { src, dst, is_dir: false, size, exists, skip: None };
        self.plan.total_bytes = self.plan.total_bytes + size;
        self.plan.items.push(item);
        proof {
            lemma_items_grow(items, item);
            assert(self.plan.items@.drop_last() =~= items);
        }
        let files: usize = self.plan.files();
        TransferEvent::Scanning { files, bytes: self.plan.total_bytes }
    }
}

/// Whether an item records a symlink that is left out.
pub open spec fn is_symlink_item(item: TransferItem, src: Seq<char>, dst: Seq<char>) -> bool {
    &&& item.src@ == src
    &&& item.dst@ == dst
    &&& !item.is_dir
    &&& item.size == 0
    &&& !item.exists
    &&& item.skip == Some(SkipReason::Symlink)
}

/// A further item takes no parent away.
proof fn lemma_items_grow(items: Seq<TransferItem>, item: TransferItem)
    ensures
        forall|n: int, dst: Seq<char>|
            0 <= n <= items.len() && #[trigger] has_parent(items, n, dst) ==> has_parent(items.push(item), n, dst),
        forall|dst: Seq<char>|
            #[trigger] has_parent(items, items.len() as int, dst) ==> has_parent(
                items.push(item),
                items.len() as int + 1,
                dst,
            ),
        forall|j: int| 0 <= j < items.len() ==> #[trigger] items.push(item)[j] == items[j],
{
    let more = items.push(item);
    assert forall|n: int, dst: Seq<char>| 0 <= n <= items.len() && #[trigger] has_parent(items, n, dst) implies has_parent(
        more,
        n,
        dst,
    ) by {
        let (j, name) = choose|j: int, name: Seq<char>|
            0 <= j < n && j < items.len() && (#[trigger] items[j]).is_dir && dst == #[trigger] child_of(
                items[j].dst@,
                name,
            );
        assert(more[j].is_dir && dst == child_of(more[j].dst@, name));
    }
    assert forall|dst: Seq<char>| #[trigger] has_parent(items, items.len() as int, dst) implies has_parent(
        more,
        items.len() as int + 1,
        dst,
    ) by {
        let (j, name) = choose|j: int, name: Seq<char>|
            0 <= j < items.len() && j < items.len() && (#[trigger] items[j]).is_dir && dst == #[trigger] child_of(
                items[j].dst@,
                name,
            );
        assert(more[j].is_dir && dst == child_of(more[j].dst@, name));
    }
}

/// How a child of a local or remote directory is treated: what is neither a
/// directory nor a symlink is copied as a file.
pub fn child_kind(kind: FileKind) -> (r: ChildKind)
    ensures
        r == match kind {
            FileKind::Dir => ChildKind::Dir,
            FileKind::Symlink => ChildKind::Symlink,
            _ => ChildKind::File,
        },
{
    match kind {
        FileKind::Dir => ChildKind::Dir,
        FileKind::Symlink => ChildKind::Symlink,
        _ => ChildKind::File,
    }
}

/// What is next in a run.
pub enum RunStep {
    /// Report the event, then hand back whether to go on.
    Report { event: TransferEvent },
    /// Make the directory `dst`, then hand back how it went.
    MakeDir { index: usize, dst: String },
    /// Copy the file, then hand back how it went.
    Copy { index: usize },
    /// The run is over: every item has been dealt with, or it was stopped.
    Done,
}

/// How one item of a run ended.
#[derive(Clone, Copy, PartialEq, Eq, Debug, Structural)]
pub enum ItemEnd {
    /// It was left out.
    Skipped,
    /// The directory is there.
    Made,
    /// The file was copied.
    Copied,
    /// It could not be made or copied.
    Failed,
}

/// A run: the item that is next, what the run has come to so far, and what has
/// yet to be reported.
pub struct TransferRun {
    pub index: usize,
    pub summary: TransferSummary,
    /// Whether the item that is next has been reported as started.
    pub started: bool,
    /// An event that has yet to be reported.
    pub pending: Option<TransferEvent>,
    /// How the items before `index` ended.
    pub ends: Ghost<Seq<ItemEnd>>,
}

/// The line that a failed item adds to the summary.
pub open spec fn failure_line(item: TransferItem, e: ErrorView) -> Seq<char> {
    last_part(item.dst@) + ": "@ + error_text(e)
}

/// How many items ended so.
pub open spec fn ended(ends: Seq<ItemEnd>, end: ItemEnd) -> nat
    decreases ends.len(),
{
    if ends.len() == 0 {
        0
    } else {
        ended(ends.drop_last(), end) + (if ends.last() == end {
            1nat
        } else {
            0
        })
    }
}

/// The bytes of the items that were copied.
pub open spec fn copied_bytes(items: Seq<TransferItem>, ends: Seq<ItemEnd>) -> nat
    decreases ends.len(),
{
    if ends.len() == 0 {
        0
    } else {
        copied_bytes(items, ends.drop_last()) + (if ends.last() == ItemEnd::Copied {
            items[ends.len() - 1].size as nat
        } else {
            0
        })
    }
}

/// The number of directories that could not be made.
pub open spec fn failed_dirs(items: Seq<TransferItem>, ends: Seq<ItemEnd>) -> nat
    decreases ends.len(),
{
    if ends.len() == 0 {
        0
    } else {
        failed_dirs(items, ends.drop_last()) + (if ends.last() == ItemEnd::Failed && items[ends.len() - 1].is_dir {
            1nat
        } else {
            0
        })
    }
}

/// The number of items that are left out.
pub open spec fn skipped_items(items: Seq<TransferItem>) -> nat
    decreases items.len(),
{
    if items.len() == 0 {
        0
    } else {
        skipped_items(items.drop_last()) + (if items.last().skip is Some {
            1nat
        } else {
            0
        })
    }
}

/// Whether an item can end so.
pub open spec fn can_end(item: TransferItem, end: ItemEnd) -> bool {
    match end {
        ItemEnd::Skipped => item.skip is Some,
        ItemEnd::Made => item.skip is None && item.is_dir,
        ItemEnd::Copied => item.skip is None && !item.is_dir,
        ItemEnd::Failed => item.skip is None,
    }
}

/// What `next` hands out, and what it leaves behind.
pub open spec fn stepped(items: Seq<TransferItem>, before: TransferRun, step: RunStep, after: TransferRun) -> bool {
    if before.summary.cancelled {
        step is Done && after == before
    } else if before.pending is Some {
        &&& step == (RunStep::Report { event: before.pending->Some_0 })
        &&& after == (TransferRun { pending: None, ..before })
    } else if before.index >= items.len() {
        step is Done && after == before
    } else {
        let item = items[before.index as int];
        match item.skip {
            Some(reason) => {
                &&& step == (RunStep::Report { event: TransferEvent::ItemSkipped { index: before.index, reason } })
                &&& after == (TransferRun {
                    index: (before.index + 1) as usize,
                    summary: TransferSummary { skipped: (before.summary.skipped + 1) as usize, ..before.summary },
                    ends: Ghost(before.ends@.push(ItemEnd::Skipped)),
                    ..before
                })
            },
            None => if item.is_dir {
                &&& step == (RunStep::MakeDir { index: before.index, dst: item.dst })
                &&& after == before
            } else if before.started {
                &&& step == (RunStep::Copy { index: before.index })
                &&& after == before
            } else {
                &&& step matches RunStep::Report { event } && (event matches TransferEvent::ItemStarted {
                    index,
                    name,
                    size,
                } && index == before.index && name@ == last_part(item.dst@) && size == item.size)
                &&& after == (TransferRun { started: true, ..before })
            },
        }
    }
}

/// What the answer to a report leaves behind: a run that is to stop is
/// cancelled.
pub open spec fn answered(before: TransferRun, go_on: bool, after: TransferRun) -> bool {
    after == (TransferRun {
        summary: TransferSummary { cancelled: before.summary.cancelled || !go_on, ..before.summary },
        ..before
    })
}

/// What the outcome of an item leaves behind. A failure does not end the run;
/// `Ok(false)` is a copy that the user stopped, and ends it.
pub open spec fn finished(
    items: Seq<TransferItem>,
    before: TransferRun,
    outcome: Result<bool, AppError>,
    after: TransferRun,
) -> bool {
    let item = items[before.index as int];
    match outcome {
        Ok(true) => after == (if item.is_dir {
            TransferRun {
                index: (before.index + 1) as usize,
                started: false,
                pending: None,
                ends: Ghost(before.ends@.push(ItemEnd::Made)),
                ..before
            }
        } else {
            TransferRun {
                index: (before.index + 1) as usize,
                summary: TransferSummary {
                    files: (before.summary.files + 1) as usize,
                    bytes: (before.summary.bytes + item.size) as u64,
                    ..before.summary
                },
                started: false,
                pending: Some(TransferEvent::ItemFinished { index: before.index }),
                ends: Ghost(before.ends@.push(ItemEnd::Copied)),
            }
        }),
        Ok(false) => after == (TransferRun {
            summary: TransferSummary { cancelled: true, ..before.summary },
            ..before
        }),
        Err(e) => {
            &&& after.index == before.index + 1
            &&& !after.started
            &&& after.ends@ == before.ends@.push(ItemEnd::Failed)
            &&& after.summary == (TransferSummary { failures: after.summary.failures, ..before.summary })
            &&& after.summary.failures@.len() == before.summary.failures@.len() + 1
            &&& after.summary.failures@.drop_last() == before.summary.failures@
            &&& after.summary.failures@.last()@ == failure_line(item, e@)
            &&& after.pending matches Some(TransferEvent::ItemFailed { index, name, message }) && index == before.index
                && name@ == last_part(item.dst@) && message@ == error_text(e@)
        },
    }
}

proof fn lemma_end_more(items: Seq<TransferItem>, ends: Seq<ItemEnd>, end: ItemEnd)
    ensures
        forall|e: ItemEnd|
            #[trigger] ended(ends.push(end), e) == ended(ends, e) + (if end == e {
                1nat
            } else {
                0
            }),
        copied_bytes(items, ends.push(end)) == copied_bytes(items, ends) + (if end == ItemEnd::Copied {
            items[ends.len() as int].size as nat
        } else {
            0
        }),
{
    assert(ends.push(end).drop_last() =~= ends);
}

/// What the ends of the items dealt with add up to.
proof fn lemma_ends(items: Seq<TransferItem>, ends: Seq<ItemEnd>)
    requires
        ends.len() <= items.len(),
        forall|i: int| 0 <= i < ends.len() ==> can_end(items[i], #[trigger] ends[i]),
    ensures
        ended(ends, ItemEnd::Skipped) == skipped_items(items.take(ends.len() as int)),
        ended(ends, ItemEnd::Copied) + ended(ends, ItemEnd::Failed) == moving_count(items.take(ends.len() as int))
            + failed_dirs(items, ends),
        ended(ends, ItemEnd::Skipped) + ended(ends, ItemEnd::Copied) + ended(ends, ItemEnd::Failed) <= ends.len(),
        copied_bytes(items, ends) <= moving_bytes(items.take(ends.len() as int)),
    decreases ends.len(),
{
    if ends.len() > 0 {
        let n = ends.len() - 1;
        assert(items.take(n + 1).drop_last() =~= items.take(n));
        assert(can_end(items[n], ends[n]));
        lemma_ends(items, ends.drop_last());
    }
}

impl TransferRun {
    /// A run that has not begun.
    pub fn new() -> (r: Self)
        ensures
            r.fresh(),
            forall|items: Seq<TransferItem>| #[trigger] r.counts(items),
    {
        TransferRun {
            index: 0,
            summary: TransferSummary { files: 0, bytes: 0, skipped: 0, failures: Vec::new(), cancelled: false },
            started: false,
            pending: None,
            ends: Ghost(Seq::empty()),
        }
    }

    /// Whether nothing has happened yet.
    pub open spec fn fresh(self) -> bool {
        &&& self.index == 0
        &&& self.summary.files == 0
        &&& self.summary.bytes == 0
        &&& self.summary.skipped == 0
        &&& self.summary.failures@ == Seq::<String>::empty()
        &&& !self.summary.cancelled
        &&& !self.started
        &&& self.pending is None
        &&& self.ends@ == Seq::<ItemEnd>::empty()
    }

    /// Whether the summary counts exactly what the items dealt with came to.
    pub open spec fn counts(self, items: Seq<TransferItem>) -> bool {
        &&& self.index <= items.len()
        &&& self.ends@.len() == self.index
        &&& forall|i: int| 0 <= i < self.ends@.len() ==> can_end(items[i], #[trigger] self.ends@[i])
        &&& self.summary.skipped == ended(self.ends@, ItemEnd::Skipped)
        &&& self.summary.files == ended(self.ends@, ItemEnd::Copied)
        &&& self.summary.failures@.len() == ended(self.ends@, ItemEnd::Failed)
        &&& self.summary.bytes == copied_bytes(items, self.ends@)
    }

    /// Decides what is next. A run that was stopped is over, and so is one whose
    /// items have all been dealt with.
    pub fn next(&mut self, plan: &TransferPlan) -> (r: RunStep)
        requires
            old(self).counts(plan.items@),
        ensures
            stepped(plan.items@, *old(self), r, *final(self)),
            final(self).counts(plan.items@),
    {
        if self.summary.cancelled {
            return RunStep::Done;
        }
        let mut pending: Option<TransferEvent> = None;
        std::mem::swap(&mut self.pending, &mut pending);
        if let Some(event) = pending {
            return RunStep::Report { event };
        }
        let index: usize = self.index;
        if index >= plan.items.len() {
            return RunStep::Done;
        }
        let item = &plan.items[index];
        match item.skip {
            Some(reason) => {
                proof {
                    lemma_ends(plan.items@, self.ends@);
                    lemma_end_more(plan.items@, self.ends@, ItemEnd::Skipped);
                }
                self.summary.skipped = self.summary.skipped + 1;
                self.index = index + 1;
                self.ends = Ghost(self.ends@.push(ItemEnd::Skipped));
                RunStep::Report { event: TransferEvent::ItemSkipped { index, reason } }
            },
            None => {
                if item.is_dir {
                    RunStep::MakeDir { index, dst: item.dst.clone() }
                } else if self.started {
                    RunStep::Copy { index }
                } else {
                    self.started = true;
                    RunStep::Report {
                        event: TransferEvent::ItemStarted { index, name: owned(item.display_name()), size: item.size },
                    }
                }
            },
        }
    }

    /// Takes in the answer to a report.
    pub fn reported(&mut self, go_on: bool)
        ensures
            answered(*old(self), go_on, *final(self)),
            forall|items: Seq<TransferItem>| #[trigger] old(self).counts(items) ==> final(self).counts(items),
    {
        if !go_on {
            self.summary.cancelled = true;
        }
    }

    /// Takes in how the next item went. A failure does not end the run: the
    /// rest of the selection is still worth moving. `Ok(false)` is a copy that
    /// the user stopped, and ends it.
    pub fn finish_item(&mut self, plan: &TransferPlan, outcome: Result<bool, AppError>)
        requires
            old(self).index < plan.items@.len(),
            plan.items@[old(self).index as int].skip is None,
            old(self).counts(plan.items@),
            moving_bytes(plan.items@) <= u64::MAX,
        ensures
            finished(plan.items@, *old(self), outcome, *final(self)),
            final(self).counts(plan.items@),
    {
        let index: usize = self.index;
        let total: usize = plan.items.len();
        assert(index < total);
        let item = &plan.items[index];
        proof {
            assert(plan.items@.take(index + 1).drop_last() =~= plan.items@.take(index as int));
            lemma_moving_prefix(plan.items@, index + 1);
            lemma_ends(plan.items@, self.ends@);
            lemma_end_more(plan.items@, self.ends@, ItemEnd::Made);
            lemma_end_more(plan.items@, self.ends@, ItemEnd::Copied);
            lemma_end_more(plan.items@, self.ends@, ItemEnd::Failed);
        }
        match outcome {
            Ok(true) => {
                self.index = index + 1;
                self.started = false;
                if item.is_dir {
                    self.pending = None;
                    self.ends = Ghost(self.ends@.push(ItemEnd::Made));
                } else {
                    self.summary.files = self.summary.files + 1;
                    self.summary.bytes = self.summary.bytes + item.size;
                    self.pending = Some(TransferEvent::ItemFinished { index });
                    self.ends = Ghost(self.ends@.push(ItemEnd::Copied));
                }
            },
            Ok(false) => {
                self.summary.cancelled = true;
            },
            Err(e) => {
                self.index = index + 1;
                self.started = false;
                let message = e.message();
                let mut line = owned(item.display_name());
                line.push_str(": ");
                line.push_str(message.as_str());
                let ghost failures = self.summary.failures@;
                self.summary.failures.push(line);
                assert(self.summary.failures@.drop_last() =~= failures);
                self.pending = Some(TransferEvent::ItemFailed { index, name: owned(item.display_name()), message });
                self.ends = Ghost(self.ends@.push(ItemEnd::Failed));
            },
        }
    }
}

/// What a step of a run is answered with.
pub enum RunAnswer {
    /// The run is over.
    Over,
    /// Whether to go on after a report.
    Reported { go_on: bool },
    /// How a directory or a file went.
    Finished { outcome: Result<bool, AppError> },
}

/// One step of a run and the answer to it.
pub struct Round {
    pub before: TransferRun,
    pub step: RunStep,
    pub answer: RunAnswer,
    pub after: TransferRun,
}

impl Round {
    /// Whether the step is the run's, and the answer one to that step.
    pub open spec fn valid(self, items: Seq<TransferItem>) -> bool {
        exists|asked: TransferRun|
            #[trigger] stepped(items, self.before, self.step, asked) && match self.step {
                RunStep::Done => self.answer is Over && self.after == asked,
                RunStep::Report { .. } => self.answer matches RunAnswer::Reported { go_on } && answered(
                    asked,
                    go_on,
                    self.after,
                ),
                _ => self.answer matches RunAnswer::Finished { outcome } && finished(items, asked, outcome, self.after),
            }
    }

    /// Whether the answer stops the run.
    pub open spec fn stops(self) -> bool {
        match self.answer {
            RunAnswer::Over => false,
            RunAnswer::Reported { go_on } => !go_on,
            RunAnswer::Finished { outcome } => outcome == Ok::<bool, AppError>(false),
        }
    }
}

/// Whether these are the rounds of one run from its beginning.
pub open spec fn is_run(plan: TransferPlan, rounds: Seq<Round>) -> bool {
    &&& rounds.len() > 0 ==> rounds[0].before.fresh()
    &&& forall|i: int| 0 <= i < rounds.len() ==> (#[trigger] rounds[i]).valid(plan.items@)
    &&& forall|i: int| 0 < i < rounds.len() ==> (#[trigger] rounds[i]).before == rounds[i - 1].after
}

proof fn lemma_round_counts(plan: TransferPlan, round: Round)
    requires
        round.before.counts(plan.items@),
        round.valid(plan.items@),
        moving_bytes(plan.items@) <= u64::MAX,
    ensures
        round.after.counts(plan.items@),
        round.after.summary.cancelled == (round.before.summary.cancelled || round.stops()),
        round.before.summary.cancelled ==> round.step is Done && round.after == round.before,
        round.step is Done ==> round.after == round.before,
        round.step is Done ==> round.before.summary.cancelled || round.before.index >= plan.items@.len(),
{
    let items = plan.items@;
    assert(plan.items.len() == items.len());
    let ends = round.before.ends@;
    let index = round.before.index as int;
    if index <= items.len() {
        lemma_ends(items, ends);
        lemma_end_more(items, ends, ItemEnd::Skipped);
        lemma_end_more(items, ends, ItemEnd::Made);
        lemma_end_more(items, ends, ItemEnd::Copied);
        lemma_end_more(items, ends, ItemEnd::Failed);
    }
    if index < items.len() {
        assert(items.take(index + 1).drop_last() =~= items.take(index));
        lemma_moving_prefix(items, index + 1);
    }
}

proof fn lemma_run(plan: TransferPlan, rounds: Seq<Round>, k: int)
    requires
        is_run(plan, rounds),
        moving_bytes(plan.items@) <= u64::MAX,
        0 <= k < rounds.len(),
    ensures
        rounds[k].before.counts(plan.items@),
        rounds[k].after.counts(plan.items@),
        rounds[k].before.summary.cancelled == exists|i: int| 0 <= i < k && (#[trigger] rounds[i]).stops(),
    decreases k,
{
    if k > 0 {
        lemma_run(plan, rounds, k - 1);
        lemma_round_counts(plan, rounds[k - 1]);
        assert(rounds[k].before == rounds[k - 1].after);
        if rounds[k].before.summary.cancelled {
            if rounds[k - 1].stops() {
            } else {
                let i = choose|i: int| 0 <= i < k - 1 && (#[trigger] rounds[i]).stops();
                assert(rounds[i].stops());
            }
        }
    }
    lemma_round_counts(plan, rounds[k]);
}

/// A run that nobody stops deals with every item: it leaves out exactly the
/// items marked so, every other file is copied or is a failure, as is every
/// directory that could not be made, and the bytes are those of the files that
/// were copied. No failure ends it.
pub proof fn a_run_that_is_not_stopped_counts_every_item(plan: TransferPlan, rounds: Seq<Round>)
    requires
        is_run(plan, rounds),
        moving_bytes(plan.items@) <= u64::MAX,
        rounds.len() > 0,
        rounds.last().step is Done,
        forall|i: int| 0 <= i < rounds.len() ==> !(#[trigger] rounds[i]).stops(),
    ensures
        ({
            let end = rounds.last().after;
            let items = plan.items@;
            &&& !end.summary.cancelled
            &&& end.ends@.len() == items.len()
            &&& end.summary.skipped == skipped_items(items)
            &&& end.summary.files + end.summary.failures@.len() == moving_count(items) + failed_dirs(items, end.ends@)
            &&& end.summary.bytes == copied_bytes(items, end.ends@)
        }),
{
    let k = rounds.len() - 1;
    lemma_run(plan, rounds, k);
    lemma_round_counts(plan, rounds[k]);
    let end = rounds[k].after;
    assert(plan.items@.take(plan.items@.len() as int) =~= plan.items@);
    lemma_ends(plan.items@, end.ends@);
}

/// A run that is stopped is cancelled, and from there on nothing is reported,
/// made or copied: its summary stands as it is.
pub proof fn a_stopped_run_does_nothing_more(plan: TransferPlan, rounds: Seq<Round>, stop: int, later: int)
    requires
        is_run(plan, rounds),
        moving_bytes(plan.items@) <= u64::MAX,
        0 <= stop < later < rounds.len(),
        rounds[stop].stops(),
    ensures
        rounds[stop].after.summary.cancelled,
        rounds[later].step is Done,
        rounds[later].after == rounds[stop].after,
    decreases later,
{
    lemma_run(plan, rounds, later);
    lemma_round_counts(plan, rounds[later]);
    lemma_run(plan, rounds, stop);
    lemma_round_counts(plan, rounds[stop]);
    assert(rounds[later].before == rounds[later - 1].after);
    if later > stop + 1 {
        a_stopped_run_does_nothing_more(plan, rounds, stop, later - 1);
    }
}

/// The name that a file is written under before the final rename. Nothing
/// partial is ever left at the destination path.
pub fn part_path(dst: &str) -> (r: String)
    ensures
        r@ == dst@ + ".part"@,
{
    let mut s = owned(dst);
    s.push_str(".part");
    s
}

/// What follows the copying of a file's bytes.
#[derive(Clone, Copy, PartialEq, Eq, Debug, Structural)]
pub enum CopyEnd {
    /// Put the finished file in place. A remote rename fails when the target
    /// exists, so an overwrite has to remove it first.
    Install { remove_first: bool },
    /// Remove what was written.
    Cleanup,
}

/// What follows the copying of a file's bytes, by how it went.
pub fn after_copy(direction: Direction, exists: bool, outcome: &Result<bool, AppError>) -> (r: CopyEnd)
    ensures
        r == match *outcome {
            Ok(true) => CopyEnd::Install { remove_first: direction == Direction::Upload && exists },
            _ => CopyEnd::Cleanup,
        },
{
    match outcome {
        Ok(done) => if *done {
            match direction {
                Direction::Upload => CopyEnd::Install { remove_first: exists },
                Direction::Download => CopyEnd::Install { remove_first: false },
            }
        } else {
            CopyEnd::Cleanup
        },
        Err(_) => CopyEnd::Cleanup,
    }
}

/// How far the bytes of a file, and of the whole run, have come.
pub struct ByteCount {
    pub offset: u64,
    pub done_bytes: u64,
}

impl ByteCount {
    /// Counts a chunk of `read` bytes. `None` at the end of the file: the
    /// offset moves by what came, never by what was asked for.
    pub fn advance(&mut self, read: usize) -> (r: Option<TransferEvent>)
        requires
            old(self).offset + read <= u64::MAX,
            old(self).done_bytes + read <= u64::MAX,
        ensures
            final(self).offset == old(self).offset + read,
            final(self).done_bytes == old(self).done_bytes + read,
            match r {
                Some(event) => read > 0 && event == (TransferEvent::Progress { done_bytes: final(self).done_bytes }),
                None => read == 0,
            },
    {
        if read == 0 {
            return None;
        }
        self.offset = self.offset + read as u64;
        self.done_bytes = self.done_bytes + read as u64;
        Some(TransferEvent::Progress { done_bytes: self.done_bytes })
    }
}

/// What to do about a remote destination directory, by what stands there.
/// Creating it and ignoring the error would swallow a denial. `Ok(true)` means
/// that it is to be made.
pub fn dir_needed(dst: &str, found: Result<Option<Attrs>, AppError>) -> (r: Result<bool, AppError>)
    ensures
        match found {
            Ok(Some(attrs)) => if attrs.permissions matches Some(p) && crate::ssh::sftp::wire::mode_kind(p)
                == FileKind::Dir {
                r == Ok::<bool, AppError>(false)
            } else {
                r matches Err(e) && e@ == ErrorView::Sftp(dst@ + " exists and is not a directory"@)
            },
            Ok(None) => r == Ok::<bool, AppError>(true),
            Err(e) => r == Err::<bool, AppError>(e),
        },
{
    match found {
        Ok(Some(attrs)) => {
            match attrs.file_kind() {
                Some(FileKind::Dir) => Ok(false),
                _ => {
                    let mut s = owned(dst);
                    s.push_str(" exists and is not a directory");
                    Err(AppError::Sftp(s))
                },
            }
        },
        Ok(None) => Ok(true),
        Err(e) => Err(e),
    }
}

/// The answer to a question about a file that would be replaced.
#[derive(Clone, Copy, PartialEq, Eq, Debug, Structural)]
pub enum OverwriteChoice {
    Overwrite,
    Skip,
    Cancel,
}

/// The questions about every file that would be replaced, asked before a byte
/// moves.
pub struct ConflictWalk {
    pub conflicts: Vec<usize>,
    pub position: usize,
}

impl ConflictWalk {
    /// The questions of a plan.
    pub fn new(plan: &TransferPlan) -> (r: Self)
        ensures
            r.conflicts@ == conflict_places(plan.items@),
            r.position == 0,
            r.about(*plan),
    {
        assert(plan.items.len() == plan.items@.len());
        proof {
            lemma_conflict_places(plan.items@);
        }
        ConflictWalk { conflicts: plan.conflicts(), position: 0 }
    }

    /// Whether the questions are about items of the plan.
    pub open spec fn about(self, plan: TransferPlan) -> bool {
        &&& self.position <= self.conflicts@.len()
        &&& forall|i: int| 0 <= i < self.conflicts@.len() ==> #[trigger] self.conflicts@[i] < plan.items@.len()
    }

    /// The file to ask about, and how many questions are left with it. `None`
    /// when every question is settled.
    pub fn question(&self, plan: &TransferPlan) -> (r: Option<(String, usize)>)
        requires
            self.about(*plan),
        ensures
            match r {
                Some((name, remaining)) => {
                    &&& self.position < self.conflicts@.len()
                    &&& name@ == last_part(plan.items@[self.conflicts@[self.position as int] as int].dst@)
                    &&& remaining == self.conflicts@.len() - self.position
                },
                None => self.position == self.conflicts@.len(),
            },
    {
        if self.position >= self.conflicts.len() {
            return None;
        }
        let item = &plan.items[self.conflicts[self.position]];
        Some((owned(item.display_name()), self.conflicts.len() - self.position))
    }

    /// Takes the answer to the question, for this file alone or for all that
    /// are left. `false` means that the whole transfer is cancelled.
    pub fn answer(&mut self, plan: &mut TransferPlan, choice: OverwriteChoice, apply_to_all: bool) -> (r: bool)
        requires
            old(self).about(*old(plan)),
            old(self).position < old(self).conflicts@.len(),
        ensures
            final(self).conflicts == old(self).conflicts,
            final(self).about(*final(plan)),
            old(plan).sums() ==> final(plan).sums(),
            r == (choice != OverwriteChoice::Cancel),
            final(plan).total_bytes == old(plan).total_bytes,
            final(self).position == (if choice == OverwriteChoice::Cancel {
                old(self).position as int
            } else if apply_to_all {
                old(self).conflicts@.len() as int
            } else {
                old(self).position + 1
            }),
            final(plan).items@ == (if choice == OverwriteChoice::Skip {
                skipped_at(
                    old(plan).items@,
                    old(self).conflicts@.subrange(old(self).position as int, final(self).position as int),
                )
            } else {
                old(plan).items@
            }),
    {
        let total: usize = self.conflicts.len();
        assert(self.position < total);
        match choice {
            OverwriteChoice::Cancel => false,
            OverwriteChoice::Overwrite => {
                self.position = if apply_to_all {
                    self.conflicts.len()
                } else {
                    self.position + 1
                };
                true
            },
            OverwriteChoice::Skip => {
                let from: usize = self.position;
                let to: usize = if apply_to_all {
                    self.conflicts.len()
                } else {
                    from + 1
                };
                let mut i: usize = from;
                assert(skipped_at(plan.items@, self.conflicts@.subrange(from as int, from as int)) =~= plan.items@);
                while i < to
                    invariant
                        from <= i <= to <= self.conflicts@.len(),
                        self.conflicts == old(self).conflicts,
                        self.position == old(self).position,
                        from == old(self).position,
                        old(self).about(*old(plan)),
                        plan.total_bytes == old(plan).total_bytes,
                        plan.items@.len() == old(plan).items@.len(),
                        moving_bytes(plan.items@) <= moving_bytes(old(plan).items@),
                        plan.items@ == skipped_at(old(plan).items@, self.conflicts@.subrange(from as int, i as int)),
                    decreases to - i,
                {
                    let at: usize = self.conflicts[i];
                    let ghost before = plan.items@;
                    plan.items[at].skip = Some(SkipReason::Exists);
                    proof {
                        let done = self.conflicts@.subrange(from as int, i as int);
                        let more = self.conflicts@.subrange(from as int, i + 1);
                        assert(more.drop_last() =~= done);
                        assert(more.last() == at);
                        lemma_skip_moves_less(before, at as int);
                    }
                    i = i + 1;
                }
                self.position = to;
                true
            },
        }
    }
}

/// The items with those at `places` left as they are on the far side.
pub open spec fn skipped_at(items: Seq<TransferItem>, places: Seq<usize>) -> Seq<TransferItem>
    decreases places.len(),
{
    if places.len() == 0 {
        items
    } else {
        let front = skipped_at(items, places.drop_last());
        let at = places.last() as int;
        front.update(at, TransferItem { skip: Some(SkipReason::Exists), ..front[at] })
    }
}

proof fn lemma_conflict_places(items: Seq<TransferItem>)
    requires
        items.len() <= usize::MAX,
    ensures
        forall|i: int|
            0 <= i < conflict_places(items).len() ==> (#[trigger] conflict_places(items)[i]) < items.len()
                && items[conflict_places(items)[i] as int].collides(),
        forall|k: int| 0 <= k < items.len() && (#[trigger] items[k]).collides() ==> conflict_places(items).contains(k as usize),
    decreases items.len(),
{
    if items.len() > 0 {
        let front = items.drop_last();
        lemma_conflict_places(front);
        let places = conflict_places(items);
        let before = conflict_places(front);
        assert forall|i: int| 0 <= i < places.len() implies (#[trigger] places[i]) < items.len()
            && items[places[i] as int].collides() by {
            if i < before.len() {
                assert(places[i] == before[i]);
                assert(front[before[i] as int] == items[before[i] as int]);
            }
        }
        assert forall|k: int| 0 <= k < items.len() && (#[trigger] items[k]).collides() implies places.contains(
            k as usize,
        ) by {
            if k < front.len() {
                assert(front[k] == items[k]);
                let i = choose|i: int| 0 <= i < before.len() && before[i] == k as usize;
                assert(places[i] == k as usize);
            } else {
                assert(places[before.len() as int] == k as usize);
            }
        }
    }
}

/// The questions are about exactly the files that would replace something:
/// never a directory, never an item that is already left out.
pub proof fn the_questions_are_the_collisions(plan: TransferPlan, place: int)
    requires
        0 <= place < plan.items@.len(),
    ensures
        conflict_places(plan.items@).contains(place as usize) <==> plan.items@[place].collides(),
{
    assert(plan.items.len() == plan.items@.len());
    lemma_conflict_places(plan.items@);
    if conflict_places(plan.items@).contains(place as usize) {
        let i = choose|i: int| 0 <= i < conflict_places(plan.items@).len() && conflict_places(plan.items@)[i]
            == place as usize;
        assert(plan.items@[conflict_places(plan.items@)[i] as int].collides());
    }
}

proof fn lemma_strip_slashes(s: Seq<char>, slashes: Seq<char>)
    requires
        s.len() > 0,
        s.last() != '/',
        forall|i: int| 0 <= i < slashes.len() ==> slashes[i] == '/',
    ensures
        strip_slashes(s + slashes) == s,
    decreases slashes.len(),
{
    if slashes.len() == 0 {
        assert(s + slashes =~= s);
    } else {
        assert((s + slashes).drop_last() =~= s + slashes.drop_last());
        lemma_strip_slashes(s, slashes.drop_last());
    }
}

/// The name that a selection goes under is what stands behind its last `/`,
/// whichever directory it is in, and slashes at its end make no difference.
pub proof fn a_selection_goes_under_its_own_name(dir: Seq<char>, name: Seq<char>, slashes: Seq<char>)
    requires
        name.len() > 0,
        !name.contains('/'),
        forall|i: int| 0 <= i < slashes.len() ==> slashes[i] == '/',
    ensures
        component(dir + seq!['/'] + name + slashes) == name,
        component(name + slashes) == name,
        last_part(dir + seq!['/'] + name) == name,
{
    assert forall|i: int| 0 <= i < name.len() implies name[i] != '/' by {
        assert(name.contains(name[i]));
    }
    let path = dir + seq!['/'] + name;
    let at = dir.len() as int + 1;
    assert forall|i: int| at <= i < path.len() implies path[i] != '/' by {
        assert(path[i] == name[i - at]);
    }
    lemma_last_part(path, at);
    assert(path.skip(at) =~= name);
    assert(path.last() == name.last());
    lemma_strip_slashes(path, slashes);
    lemma_strip_slashes(name, slashes);
    lemma_last_part(name, 0);
    assert(name.skip(0) =~= name);
}

/// A destination is the directory and the name with exactly one `/` between them.
pub proof fn a_destination_is_in_its_directory(dir: Seq<char>, name: Seq<char>)
    requires
        name.len() > 0,
        name[0] != '/',
    ensures
        dir.len() > 0 && dir.last() == '/' ==> destination(Direction::Upload, dir, name) == dir + name && destination(
            Direction::Download,
            dir,
            name,
        ) == dir + name,
        dir.len() > 0 && dir.last() != '/' ==> destination(Direction::Upload, dir, name) == dir + seq!['/'] + name
            && destination(Direction::Download, dir, name) == dir + seq!['/'] + name,
        child_of(dir, name) == dir + seq!['/'] + name,
{
}

/// What will move, of two lists of items one behind the other, is what will move
/// of each.
pub proof fn what_moves_adds_up(a: Seq<TransferItem>, b: Seq<TransferItem>)
    ensures
        moving_bytes(a + b) == moving_bytes(a) + moving_bytes(b),
        moving_count(a + b) == moving_count(a) + moving_count(b),
        file_items(a + b) == file_items(a) + file_items(b),
        skipped_items(a + b) == skipped_items(a) + skipped_items(b),
    decreases b.len(),
{
    if b.len() == 0 {
        assert(a + b =~= a);
    } else {
        assert((a + b).drop_last() =~= a + b.drop_last());
        what_moves_adds_up(a, b.drop_last());
    }
}

/// A file that is not left out moves with its size, and is one file; a directory
/// and what is left out move nothing.
pub proof fn a_file_moves_with_its_size(item: TransferItem)
    ensures
        item.skip is None && !item.is_dir ==> moving_bytes(seq![item]) == item.size && moving_count(seq![item]) == 1,
        item.skip is Some || item.is_dir ==> moving_bytes(seq![item]) == 0 && moving_count(seq![item]) == 0,
        file_items(seq![item]) == (if item.is_dir {
            0nat
        } else {
            1
        }),
        skipped_items(seq![item]) == (if item.skip is Some {
            1nat
        } else {
            0
        }),
        item.collides() <==> item.exists && !item.is_dir && item.skip is None,
        item.moves() <==> !item.is_dir && item.skip is None,
{
    assert(seq![item].drop_last() =~= Seq::empty());
    assert(moving_bytes(Seq::<TransferItem>::empty()) == 0);
    assert(moving_count(Seq::<TransferItem>::empty()) == 0);
    assert(file_items(Seq::<TransferItem>::empty()) == 0);
    assert(skipped_items(Seq::<TransferItem>::empty()) == 0);
}

/// What the user leaves as it is on the far side is marked so, and nothing else
/// changes.
pub proof fn what_is_left_alone_is_marked(items: Seq<TransferItem>, places: Seq<usize>, i: usize)
    requires
        i < items.len(),
        forall|k: int| 0 <= k < places.len() ==> #[trigger] places[k] < items.len(),
    ensures
        skipped_at(items, places).len() == items.len(),
        places.contains(i) ==> skipped_at(items, places)[i as int] == (TransferItem {
            skip: Some(SkipReason::Exists),
            ..items[i as int]
        }),
        !places.contains(i) ==> skipped_at(items, places)[i as int] == items[i as int],
    decreases places.len(),
{
    if places.len() > 0 {
        let front = places.drop_last();
        assert forall|k: int| 0 <= k < front.len() implies #[trigger] front[k] < items.len() by {
            assert(places[k] == front[k]);
        }
        what_is_left_alone_is_marked(items, front, i);
        let last = places[places.len() - 1];
        assert(last < items.len());
        assert(places =~= front.push(last));
        if front.contains(i) {
            let k = choose|k: int| 0 <= k < front.len() && front[k] == i;
            assert(places[k] == i);
        }
        if places.contains(i) && last != i {
            let k = choose|k: int| 0 <= k < places.len() && places[k] == i;
            assert(front[k] == i);
        }
    }
}

/// What becomes of an item is counted: a copied file with its size, a folder not at
/// all, a failure with the name and the reason; a copy that was stopped ends the
/// run where it stands. Every item but that one is behind the run then.
pub proof fn a_finished_item_is_counted(
    items: Seq<TransferItem>,
    before: TransferRun,
    outcome: Result<bool, AppError>,
    after: TransferRun,
)
    requires
        before.index < items.len(),
        before.index < usize::MAX,
        before.summary.files < usize::MAX,
        before.summary.bytes + items[before.index as int].size <= u64::MAX,
        finished(items, before, outcome, after),
    ensures
        ({
            let item = items[before.index as int];
            let was = before.summary;
            let is = after.summary;
            let copied = outcome == Ok::<bool, AppError>(true) && !item.is_dir;
            let stopped = outcome == Ok::<bool, AppError>(false);
            &&& after.index == before.index + (if stopped {
                0int
            } else {
                1
            })
            &&& is.files == was.files + (if copied {
                1int
            } else {
                0
            })
            &&& is.bytes == was.bytes + (if copied {
                item.size as int
            } else {
                0
            })
            &&& is.skipped == was.skipped
            &&& is.cancelled == (was.cancelled || stopped)
            &&& outcome is Ok ==> is.failures == was.failures
            &&& outcome matches Err(e) ==> is.failures@.len() == was.failures@.len() + 1 && is.failures@.last()@
                == last_part(item.dst@) + ": "@ + error_text(e@)
            &&& copied ==> after.pending == Some(TransferEvent::ItemFinished { index: before.index })
            &&& outcome is Err ==> (after.pending matches Some(TransferEvent::ItemFailed { index, .. }) && index
                == before.index)
            &&& !stopped ==> !after.started
        }),
{
}

/// The next step of a run is about the item it has come to: a skipped one is
/// reported with its reason, a folder is made at its destination, a file is
/// announced by its name and size and then copied. A cancelled run, and one
/// behind its last item, is done.
pub proof fn a_run_takes_its_items_in_order(
    items: Seq<TransferItem>,
    before: TransferRun,
    step: RunStep,
    after: TransferRun,
)
    requires
        stepped(items, before, step, after),
    ensures
        before.summary.cancelled ==> step is Done,
        !before.summary.cancelled ==> (before.pending matches Some(event) ==> step == (RunStep::Report { event })
            && after.pending is None),
        !before.summary.cancelled && before.pending is None && before.index >= items.len() ==> step is Done,
        !before.summary.cancelled && before.pending is None && before.index < items.len() ==> {
            let item = items[before.index as int];
            &&& item.skip matches Some(why) ==> (step matches RunStep::Report { event } && event == (
            TransferEvent::ItemSkipped { index: before.index, reason: why }))
            &&& item.skip is Some && before.index < usize::MAX && before.summary.skipped < usize::MAX ==> after.index
                == before.index + 1 && after.summary.skipped == before.summary.skipped + 1
            &&& item.skip is None ==> after.index == before.index && after.summary == before.summary
            &&& item.skip is None && item.is_dir ==> step == (RunStep::MakeDir { index: before.index, dst: item.dst })
            &&& item.skip is None && !item.is_dir && before.started ==> step == (RunStep::Copy { index: before.index })
            &&& item.skip is None && !item.is_dir && !before.started ==> after.started && (step
                matches RunStep::Report { event } && (event matches TransferEvent::ItemStarted { index, name, size }
                && index == before.index && name@ == last_part(item.dst@) && size == item.size))
        },
        after.summary.files == before.summary.files && after.summary.bytes == before.summary.bytes,
{
}

/// A run that is told to stop is cancelled, and one that was cancelled stays so.
pub proof fn a_run_stops_when_told_to(before: TransferRun, go_on: bool, after: TransferRun)
    requires
        answered(before, go_on, after),
    ensures
        after.summary.cancelled <==> before.summary.cancelled || !go_on,
        after.index == before.index,
        after.summary.files == before.summary.files,
        after.summary.failures == before.summary.failures,
{
}

/// A file that is there already is asked about, unless it is left alone anyway; a
/// folder is merged into without a question.
pub proof fn only_a_file_collides(items: Seq<TransferItem>, i: int)
    requires
        0 <= i < items.len(),
        items.len() <= usize::MAX,
    ensures
        conflict_places(items).contains(i as usize) <==> items[i].exists && !items[i].is_dir && items[i].skip is None,
    decreases items.len(),
{
    let front = items.drop_last();
    let places = conflict_places(items);
    lemma_places_in_range(front);
    let rest = conflict_places(front);
    if i < items.len() - 1 {
        only_a_file_collides(front, i);
        if rest.contains(i as usize) {
            let k = choose|k: int| 0 <= k < rest.len() && rest[k] == i as usize;
            assert(places[k] == rest[k]);
        }
        if places.contains(i as usize) {
            let k = choose|k: int| 0 <= k < places.len() && places[k] == i as usize;
            assert(k < rest.len());
            assert(rest[k] == places[k]);
        }
    } else {
        if items[i].collides() {
            assert(places[places.len() - 1] == i as usize);
        } else {
            if places.contains(i as usize) {
                let k = choose|k: int| 0 <= k < places.len() && places[k] == i as usize;
                assert(rest[k] < front.len());
            }
        }
    }
}

proof fn lemma_places_in_range(items: Seq<TransferItem>)
    requires
        items.len() <= usize::MAX,
    ensures
        forall|k: int| 0 <= k < conflict_places(items).len() ==> #[trigger] conflict_places(items)[k] < items.len(),
    decreases items.len(),
{
    if items.len() > 0 {
        lemma_places_in_range(items.drop_last());
        let front = conflict_places(items.drop_last());
        assert forall|k: int| 0 <= k < conflict_places(items).len() implies #[trigger] conflict_places(items)[k]
            < items.len() by {
            if k < front.len() {
                assert(conflict_places(items)[k] == front[k]);
            }
        }
    }
}

/// A link is listed where it would go, and never copied.
pub proof fn a_link_is_never_copied(item: TransferItem, src: Seq<char>, dst: Seq<char>)
    requires
        is_symlink_item(item, src, dst),
    ensures
        item.skip == Some(SkipReason::Symlink),
        !item.moves() && !item.collides() && !item.is_dir && item.size == 0,
        item.src@ == src && item.dst@ == dst,
{
}

/// A selected folder waits to be entered, a selected file goes to its destination
/// at once, both under their own names in the directory of the transfer.
pub proof fn a_selection_is_planned(walk: &mut Walk, src: &str, is_dir: bool, r: Option<String>)
    requires
        call_ensures(Walk::add_source, (walk, src, is_dir), r),
    ensures
        final(walk).plan == old(walk).plan,
        is_dir ==> r is None && final(walk).queue@.len() == old(walk).queue@.len() + 1 && final(walk).queue@.last().0@
            == src@ && final(walk).queue@.last().1@ == destination(
            old(walk).direction,
            old(walk).dest_dir@,
            component(src@),
        ),
        !is_dir ==> final(walk).queue == old(walk).queue && (r matches Some(dst) && dst@ == destination(
            old(walk).direction,
            old(walk).dest_dir@,
            component(src@),
        )),
{
}

/// A folder that is entered is the first thing planned of it; what it holds lands
/// inside it: a folder waits, a file goes there, a link is listed and left.
pub proof fn a_folder_is_planned_before_what_it_holds(
    entered: &mut Walk,
    inside: &mut Walk,
    src: &str,
    name: &str,
    kind: ChildKind,
    folder: Option<(String, String)>,
    file: Option<String>,
    dst: String,
)
    requires
        call_ensures(Walk::enter, (entered,), folder),
        old(inside).current matches Some((_, d)) && d == dst,
        call_ensures(Walk::child, (inside, src, name, kind), file),
    ensures
        folder is Some <==> old(entered).queue@.len() > 0,
        folder matches Some((s, d)) ==> {
            &&& final(entered).plan.items@.len() == old(entered).plan.items@.len() + 1
            &&& final(entered).plan.items@.last().is_dir && final(entered).plan.items@.last().src == s
            &&& final(entered).plan.items@.last().dst == d
            &&& final(entered).plan.items@.last().skip is None
        },
        kind == ChildKind::File ==> (file matches Some(path) && path@ == dst@ + seq!['/'] + name@),
        kind == ChildKind::Dir ==> file is None && final(inside).queue@.last().0@ == src@
            && final(inside).queue@.last().1@ == dst@ + seq!['/'] + name@ && final(inside).plan == old(inside).plan,
        kind == ChildKind::Symlink ==> file is None && final(inside).plan.items@.last().skip == Some(
            SkipReason::Symlink,
        ) && final(inside).plan.items@.last().dst@ == dst@ + seq!['/'] + name@,
{
}

/// A planned file has its size and is known to be there or not; the total grows by
/// its size.
pub proof fn a_planned_file_has_its_size(
    walk: &mut Walk,
    src: String,
    dst: String,
    size: u64,
    there: bool,
    r: TransferEvent,
)
    requires
        call_ensures(Walk::push_file, (walk, src, dst, size, there), r),
    ensures
        final(walk).plan.total_bytes == old(walk).plan.total_bytes + size,
        ({
            let item = final(walk).plan.items@.last();
            &&& item.src == src && item.dst == dst && item.size == size && item.exists == there
            &&& !item.is_dir && item.skip is None
        }),
        r matches TransferEvent::Scanning { bytes, .. } && bytes == final(walk).plan.total_bytes,
{
}

/// A directory is made where there is none, used where there is one, and what
/// stands in its way is an error.
pub proof fn a_directory_is_made_once(dst: &str, found: Result<Option<Attrs>, AppError>, r: Result<bool, AppError>)
    requires
        call_ensures(dir_needed, (dst, found), r),
    ensures
        r == Ok::<bool, AppError>(true) <==> found == Ok::<Option<Attrs>, AppError>(None),
        found matches Ok(Some(a)) ==> (a.permissions is None ==> r is Err),
        found matches Err(e) ==> r == Err::<bool, AppError>(e),
{
}

/// A skipped collision is left alone, one that is overwritten is not; for all of
/// them at once the questions are over, and a cancelled question ends the transfer.
pub proof fn an_answer_is_for_its_collision(
    asked: &mut ConflictWalk,
    plan: &mut TransferPlan,
    choice: OverwriteChoice,
    all: bool,
    r: bool,
)
    requires
        old(asked).about(*old(plan)),
        old(asked).position < old(asked).conflicts@.len(),
        call_ensures(ConflictWalk::answer, (asked, plan, choice, all), r),
    ensures
        r <==> choice != OverwriteChoice::Cancel,
        choice != OverwriteChoice::Skip ==> final(plan).items@ == old(plan).items@,
        choice != OverwriteChoice::Cancel && all ==> final(asked).position == old(asked).conflicts@.len(),
        choice != OverwriteChoice::Cancel && !all ==> final(asked).position == old(asked).position + 1,
        choice == OverwriteChoice::Skip && !all ==> ({
            let at = old(asked).conflicts@[old(asked).position as int] as int;
            final(plan).items@ == old(plan).items@.update(
                at,
                (TransferItem { skip: Some(SkipReason::Exists), ..old(plan).items@[at] }),
            )
        }),
{
    let p = old(asked).position as int;
    let one = old(asked).conflicts@.subrange(p, p + 1);
    assert(one.drop_last() =~= Seq::empty());
    assert(one.last() == old(asked).conflicts@[p]);
    assert(skipped_at(old(plan).items@, one.drop_last()) == old(plan).items@);
}

} // verus!
