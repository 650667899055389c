//! The bounded crawler's decisions: what to do with a root, what to do with
//! each listed child, and when the driver must drain or block so that the
//! number of in-flight units stays bounded. The driver performs the listing,
//! hashing and joining; every choice it acts on is made here.
use vstd::prelude::*;
use crate::fileops::PathSet;

verus! {

/// Above this many in-flight units the driver first drains every already
/// completed unit, and, if still above it, blocks on the oldest outstanding
/// one: the backpressure that caps open files and resident memory.
pub const FLUSH_THRESHOLD: usize = 128;

/// What to do with a requested root.
#[derive(Debug, PartialEq, Eq, Structural)]
pub enum RootAction {
    /// The root itself is excluded: nothing is walked.
    SkipExcluded,
    /// A directory, and not through a symlink: traverse it breadth-first.
    TraverseDir,
    /// Anything else: one unit of work for the root alone, no traversal.
    SingleUnit,
}

/// What to do with a requested root, at the specification level.
pub open spec fn root_action_spec(
    path: Seq<char>,
    is_dir: bool,
    is_symlink: bool,
    exclude: Set<Seq<char>>,
) -> RootAction {
    if exclude.contains(path) {
        RootAction::SkipExcluded
    } else if is_dir && !is_symlink {
        RootAction::TraverseDir
    } else {
        RootAction::SingleUnit
    }
}

/// Decides what to do with a requested root: an excluded root is skipped
/// whole, a real directory is traversed, anything else is one unit of work.
pub fn classify_root(path: &String, is_dir: bool, is_symlink: bool, exclude: &PathSet) -> (r:
    RootAction)
    ensures
        r == root_action_spec(path@, is_dir, is_symlink, exclude@),
{
    if exclude.contains(path) {
        RootAction::SkipExcluded
    } else if is_dir && !is_symlink {
        RootAction::TraverseDir
    } else {
        RootAction::SingleUnit
    }
}

/// What to do with one listed child.
#[derive(Debug, PartialEq, Eq, Structural)]
pub enum ChildAction {
    /// The child is excluded: no unit of work, no traversal, ever.
    Skip,
    /// Dispatch one unit of work for it; `traverse` says it is a real
    /// directory and its own children are to be listed later.
    Spawn { traverse: bool },
}

/// What to do with one listed child, at the specification level. An excluded
/// path is skipped: no walk ever produces a record for it.
pub open spec fn child_action_spec(
    path: Seq<char>,
    is_dir: bool,
    is_symlink: bool,
    exclude: Set<Seq<char>>,
) -> ChildAction {
    if exclude.contains(path) {
        ChildAction::Skip
    } else {
        ChildAction::Spawn { traverse: is_dir && !is_symlink }
    }
}

/// The crawler's bookkeeping: the queue of directories still to list, first
/// in first out, and how many dispatched units are still outstanding.
pub struct Walker {
    /// Directories whose children are still to be listed, oldest first.
    pub dqueue: Vec<String>,
    /// Units dispatched and not yet joined.
    pub in_flight: usize,
}

impl Walker {
    pub fn new() -> (r: Walker)
        ensures
            r.dqueue@ =~= Seq::<String>::empty(),
            r.in_flight == 0,
    {
        Walker { dqueue: Vec::new(), in_flight: 0 }
    }

    /// Queues a directory for listing; the traversal stays breadth-first
    /// because the queue is drained from the front.
    pub fn enqueue_dir(&mut self, path: &String)
        ensures
            final(self).dqueue@ == old(self).dqueue@.push(*path),
            final(self).in_flight == old(self).in_flight,
    {
        self.dqueue.push(path.clone());
        proof {
            assert(self.dqueue@.last() == *path);
        }
    }

    /// The oldest queued directory, removed from the queue; `None` once the
    /// traversal has nothing left to list.
    pub fn next_dir(&mut self) -> (r: Option<String>)
        ensures
            match r {
                Some(d) => old(self).dqueue@.len() > 0 && d == old(self).dqueue@[0]
                    && final(self).dqueue@ == old(self).dqueue@.subrange(
                    1,
                    old(self).dqueue@.len() as int,
                ),
                None => old(self).dqueue@.len() == 0 && *final(self) == *old(self),
            },
            final(self).in_flight == old(self).in_flight,
    {
        if self.dqueue.len() == 0 {
            None
        } else {
            Some(self.dqueue.remove(0))
        }
    }

    /// Decides what to do with one listed child and books the decision: an
    /// excluded child changes nothing; any other child costs one in-flight
    /// unit, and a real directory is also queued for traversal.
    pub fn on_child(&mut self, path: &String, is_dir: bool, is_symlink: bool, exclude: &PathSet)
        -> (r: ChildAction)
        requires
            old(self).in_flight < usize::MAX,
        ensures
            r == child_action_spec(path@, is_dir, is_symlink, exclude@),
            r is Skip ==> *final(self) == *old(self),
            r matches ChildAction::Spawn { traverse } ==> final(self).in_flight == old(self).in_flight + 1 && (
            if traverse {
                final(self).dqueue@ == old(self).dqueue@.push(*path)
            } else {
                final(self).dqueue@ == old(self).dqueue@
            }),
    {
        if exclude.contains(path) {
            ChildAction::Skip
        } else {
            let traverse = is_dir && !is_symlink;
            if traverse {
                self.enqueue_dir(path);
            }
            self.in_flight = self.in_flight + 1;
            ChildAction::Spawn { traverse }
        }
    }

    /// Books one unit dispatched outside the child path: the single unit a
    /// non-directory root gets.
    pub fn note_spawned(&mut self)
        requires
            old(self).in_flight < usize::MAX,
        ensures
            final(self).in_flight == old(self).in_flight + 1,
            final(self).dqueue@ == old(self).dqueue@,
    {
        self.in_flight = self.in_flight + 1;
    }

    /// Books one unit joined, completed or failed: a per-unit failure is
    /// logged by the driver and costs the batch one record, never the walk.
    pub fn unit_joined(&mut self)
        requires
            old(self).in_flight > 0,
        ensures
            final(self).in_flight == old(self).in_flight - 1,
            final(self).dqueue@ == old(self).dqueue@,
    {
        self.in_flight = self.in_flight - 1;
    }

    /// Whether the driver must now drain completed units — and, if this still
    /// holds afterwards, block on the oldest outstanding one.
    pub fn over_threshold(&self) -> (r: bool)
        ensures
            r == (self.in_flight > FLUSH_THRESHOLD),
    {
        self.in_flight > FLUSH_THRESHOLD
    }
}

} // verus!
