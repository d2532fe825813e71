//! One scan from start to end as a state machine: what each event of the walk
//! leads to, and which message goes out on the stream.

use vstd::prelude::*;
use crate::scanner::progress::ScanMessage;
use crate::scanner::walker::{
    admitted, finish_scan, record_entry, recorded, ScanEntry, SharedProgress,
};
use crate::tree::arena::DiskTree;
use crate::tree::model::{
    aggregated, children_sorted, same_but_totals, with_mtime, Slots,
};
use crate::tree::node::{NodeId, NodeKind, NodeView, Timestamp};

verus! {

/// How far a scan has come.
#[derive(Debug, Clone, Copy, PartialEq, Eq, Structural)]
pub enum ScanPhase {
    /// The walk is on; entries are being recorded.
    Walking,
    /// The walk is over; sizes are about to be aggregated.
    Finalizing,
    /// The tree is complete.
    Completed,
    /// The scan was stopped; the tree is partial and not aggregated.
    Cancelled,
}

/// The messages of a scan that mark its phases; progress reports come between them.
#[derive(Debug, Clone, Copy, PartialEq, Eq, Structural)]
pub enum Milestone {
    Started,
    Finalizing,
    Completed,
    Cancelled,
}

/// What the walk reports.
#[derive(Debug, Clone)]
pub enum WalkEvent {
    /// An entry, with what was found out about it.
    Entry(ScanEntry),
    /// An entry that the walker could not list, or whose metadata could not be read.
    Unreadable,
}

/// What a step of the walk asks of the caller.
#[derive(Debug, Clone)]
pub enum Step {
    /// Nothing; go on.
    Passed,
    /// A directory was added under this identifier: file it, so that its children find it.
    Directory(NodeId),
    /// The scan was cancelled: send this message and stop.
    Stop(ScanMessage),
}

/// A scan in progress: the tree that is being built and the phase reached.
pub struct ScanSession {
    tree: DiskTree,
    same_filesystem: bool,
    root_device: u64,
    phase: ScanPhase,
}

/// The milestones that have gone out once a scan is in a phase.
pub open spec fn milestones(phase: ScanPhase) -> Seq<Milestone> {
    match phase {
        ScanPhase::Walking => seq![Milestone::Started],
        ScanPhase::Finalizing => seq![Milestone::Started, Milestone::Finalizing],
        ScanPhase::Completed => seq![
            Milestone::Started,
            Milestone::Finalizing,
            Milestone::Completed,
        ],
        ScanPhase::Cancelled => seq![Milestone::Started, Milestone::Cancelled],
    }
}

/// The milestone that a message marks; `None` for a progress report or an error.
pub open spec fn milestone_of(message: ScanMessage) -> Option<Milestone> {
    match message {
        ScanMessage::StartedDirectory(_) => Some(Milestone::Started),
        ScanMessage::Finalizing => Some(Milestone::Finalizing),
        ScanMessage::Completed => Some(Milestone::Completed),
        ScanMessage::Cancelled => Some(Milestone::Cancelled),
        ScanMessage::Progress(_) => None,
        ScanMessage::Error(_) => None,
    }
}

/// Number of times `m` occurs among the first `n` of `ms`.
pub open spec fn occurrences(ms: Seq<Milestone>, m: Milestone, n: int) -> nat
    decreases n,
{
    if n <= 0 {
        0
    } else {
        occurrences(ms, m, n - 1) + if ms[n - 1] == m { 1nat } else { 0nat }
    }
}

/// The rules of the stream: it begins with `Started`; `Completed` and `Cancelled`
/// end it and never both occur; and `Completed` comes after exactly one `Finalizing`.
pub open spec fn stream_ok(ms: Seq<Milestone>) -> bool {
    let n = ms.len() as int;
    &&& n >= 1 && ms[0] == Milestone::Started
    &&& forall|k: int|
        0 <= k < n && (#[trigger] ms[k] == Milestone::Completed || ms[k] == Milestone::Cancelled)
            ==> k == n - 1
    &&& ms.last() == Milestone::Completed ==> occurrences(ms, Milestone::Finalizing, n - 1) == 1
    &&& occurrences(ms, Milestone::Finalizing, n) <= 1
}

/// Whatever phase a scan is in, the milestones it has sent obey the rules of the stream.
pub proof fn lemma_stream_ok(phase: ScanPhase)
    ensures
        stream_ok(milestones(phase)),
{
    let ms = milestones(phase);
    reveal_with_fuel(occurrences, 4);
    assert(occurrences(ms, Milestone::Finalizing, 0) == 0);
}

impl ScanSession {
    pub closed spec fn spec_tree(&self) -> DiskTree {
        self.tree
    }

    pub closed spec fn spec_phase(&self) -> ScanPhase {
        self.phase
    }

    pub closed spec fn spec_same_filesystem(&self) -> bool {
        self.same_filesystem
    }

    pub closed spec fn spec_root_device(&self) -> u64 {
        self.root_device
    }

    /// The tree under construction is well formed.
    pub open spec fn wf(&self) -> bool {
        self.spec_tree().wf()
    }

    /// Begin a scan of `root_path`: the tree holds its root, which carries the
    /// modification time of the root directory where that could be read. The
    /// message announces the scan.
    pub fn start(
        root_path: String,
        root_mtime: Option<Timestamp>,
        same_filesystem: bool,
        root_device: u64,
    ) -> (r: (ScanSession, ScanMessage))
        ensures
            r.0.wf(),
            r.0.spec_phase() == ScanPhase::Walking,
            r.0.spec_same_filesystem() == same_filesystem,
            r.0.spec_root_device() == root_device,
            r.0.spec_tree().spec_root_path() == root_path@,
            r.0.spec_tree()@ == with_mtime(
                seq![
                    Some(
                        NodeView::fresh(
                            NodeId(0),
                            crate::paths::root_name(root_path@),
                            NodeKind::Directory,
                            root_path@,
                            None,
                            0,
                        ),
                    ),
                ],
                0,
                root_mtime,
            ),
            r.1 == ScanMessage::StartedDirectory(root_path),
    {
        let mut tree = DiskTree::new(root_path.clone());
        tree.set_mtime(NodeId(0), root_mtime);
        let session = ScanSession { tree, same_filesystem, root_device, phase: ScanPhase::Walking };
        (session, ScanMessage::StartedDirectory(root_path))
    }

    pub fn phase(&self) -> (p: ScanPhase)
        ensures
            p == self.spec_phase(),
    {
        self.phase
    }

    pub fn tree(&self) -> (t: &DiskTree)
        ensures
            *t == self.spec_tree(),
    {
        &self.tree
    }

    /// Take in one event of the walk. `cancelled` is what the cancellation token
    /// said just before. A cancelled scan stops at once, its tree as it is; an
    /// unreadable entry is counted as an error; any other entry is recorded where
    /// it is admitted. Outside the walking phase nothing happens.
    pub fn step(&mut self, progress: &SharedProgress, cancelled: bool, event: WalkEvent) -> (r: Step)
        requires
            old(self).wf(),
        ensures
            final(self).wf(),
            final(self).spec_same_filesystem() == old(self).spec_same_filesystem(),
            final(self).spec_root_device() == old(self).spec_root_device(),
            final(self).spec_tree().spec_root_path() == old(self).spec_tree().spec_root_path(),
            old(self).spec_phase() != ScanPhase::Walking ==> r is Passed && final(self).spec_phase()
                == old(self).spec_phase() && final(self).spec_tree() == old(self).spec_tree(),
            old(self).spec_phase() == ScanPhase::Walking && cancelled ==> {
                &&& r is Stop
                &&& r->Stop_0 == ScanMessage::Cancelled
                &&& final(self).spec_phase() == ScanPhase::Cancelled
                &&& final(self).spec_tree() == old(self).spec_tree()
            },
            old(self).spec_phase() == ScanPhase::Walking && !cancelled ==> {
                &&& final(self).spec_phase() == ScanPhase::Walking
                &&& match event {
                    WalkEvent::Unreadable => r is Passed && final(self).spec_tree() == old(self).spec_tree(),
                    WalkEvent::Entry(e) => if admitted(
                        old(self).spec_tree()@,
                        old(self).spec_tree().spec_root_path(),
                        old(self).spec_same_filesystem(),
                        old(self).spec_root_device(),
                        e,
                    ) {
                        &&& final(self).spec_tree()@ == recorded(old(self).spec_tree()@, e)
                        &&& if e.is_dir {
                            r is Directory && r->Directory_0 == NodeId(
                                old(self).spec_tree()@.len() as usize,
                            )
                        } else {
                            r is Passed
                        }
                    } else {
                        r is Passed && final(self).spec_tree()@ == old(self).spec_tree()@
                    },
                }
            },
    {
        match self.phase {
            ScanPhase::Walking => {},
            _ => {
                return Step::Passed;
            },
        }
        if cancelled {
            self.phase = ScanPhase::Cancelled;
            return Step::Stop(ScanMessage::Cancelled);
        }
        match event {
            WalkEvent::Unreadable => {
                progress.add_error();
                Step::Passed
            },
            WalkEvent::Entry(entry) => {
                let is_dir = entry.is_dir;
                match record_entry(
                    &mut self.tree,
                    progress,
                    self.same_filesystem,
                    self.root_device,
                    entry,
                ) {
                    Some(id) => if is_dir {
                        Step::Directory(id)
                    } else {
                        Step::Passed
                    },
                    None => Step::Passed,
                }
            },
        }
    }

    /// The walk is over. From the walking phase the scan goes on to finalizing,
    /// and the message says so; from any other phase nothing happens.
    pub fn end_of_walk(&mut self) -> (r: Option<ScanMessage>)
        ensures
            final(self).spec_tree() == old(self).spec_tree(),
            final(self).spec_same_filesystem() == old(self).spec_same_filesystem(),
            final(self).spec_root_device() == old(self).spec_root_device(),
            if old(self).spec_phase() == ScanPhase::Walking {
                r == Some(ScanMessage::Finalizing) && final(self).spec_phase()
                    == ScanPhase::Finalizing
            } else {
                r is None && final(self).spec_phase() == old(self).spec_phase()
            },
    {
        match self.phase {
            ScanPhase::Walking => {
                self.phase = ScanPhase::Finalizing;
                Some(ScanMessage::Finalizing)
            },
            _ => None,
        }
    }

    /// Finish the scan: sizes are aggregated bottom-up and children sorted by
    /// size, and the message says that the tree is complete. Outside the
    /// finalizing phase nothing happens.
    pub fn finish(&mut self) -> (r: Option<ScanMessage>)
        requires
            old(self).wf(),
        ensures
            final(self).wf(),
            final(self).spec_tree().spec_root_path() == old(self).spec_tree().spec_root_path(),
            if old(self).spec_phase() == ScanPhase::Finalizing {
                &&& r == Some(ScanMessage::Completed)
                &&& final(self).spec_phase() == ScanPhase::Completed
                &&& exists|mid: Slots|
                    {
                        &&& #[trigger] same_but_totals(old(self).spec_tree()@, mid)
                        &&& forall|i: int| 0 <= i < mid.len() ==> aggregated(mid, i)
                        &&& children_sorted(mid, final(self).spec_tree()@)
                    }
            } else {
                &&& r is None
                &&& final(self).spec_phase() == old(self).spec_phase()
                &&& final(self).spec_tree() == old(self).spec_tree()
            },
    {
        match self.phase {
            ScanPhase::Finalizing => {
                finish_scan(&mut self.tree);
                self.phase = ScanPhase::Completed;
                Some(ScanMessage::Completed)
            },
            _ => None,
        }
    }

    /// The tree that the scan has built: complete once the scan has completed,
    /// partial and not aggregated after a cancellation.
    pub fn into_tree(self) -> (t: DiskTree)
        ensures
            t == self.spec_tree(),
    {
        self.tree
    }
}

/// Every message that a session hands out marks the step from the milestones of
/// the phase before to those of the phase after.
pub proof fn lemma_milestones_grow(before: ScanPhase, after: ScanPhase, message: ScanMessage)
    requires
        (before == ScanPhase::Walking && after == ScanPhase::Cancelled && message
            == ScanMessage::Cancelled) || (before == ScanPhase::Walking && after
            == ScanPhase::Finalizing && message == ScanMessage::Finalizing) || (before
            == ScanPhase::Finalizing && after == ScanPhase::Completed && message
            == ScanMessage::Completed),
    ensures
        milestone_of(message) is Some,
        milestones(after) == milestones(before).push(milestone_of(message)->0),
        stream_ok(milestones(after)),
{
    assert(milestones(after) =~= milestones(before).push(milestone_of(message)->0));
    lemma_stream_ok(after);
}

} // verus!
