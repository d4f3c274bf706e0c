use vstd::prelude::*;

use crate::ignore::ignored_by;
use crate::walk::{
    entry_of, Entry, EntryKind, EntryView, Probe, RequestView, WalkError, WalkErrorView,
    WalkRequest,
};

verus! {

/// Where a walk stands.
#[derive(Clone, Debug)]
pub enum Phase {
    /// Waiting for the next discovered path.
    Scanning,
    /// Waiting for the status of this path.
    Querying(String),
    /// The walk has ended, by exhaustion or by an error.
    Finished,
}

pub enum PhaseView {
    Scanning,
    Querying(Seq<char>),
    Finished,
}

impl View for Phase {
    type V = PhaseView;

    open spec fn view(&self) -> PhaseView {
        match self {
            Phase::Scanning => PhaseView::Scanning,
            Phase::Querying(p) => PhaseView::Querying(p@),
            Phase::Finished => PhaseView::Finished,
        }
    }
}

/// What the traversal and the status queries report to the walker.
#[derive(Clone, Debug)]
pub enum WalkEvent {
    /// The traversal discovered this path.
    Found(String),
    /// The traversal failed to list a directory at this path.
    Unreadable(String),
    /// The status query of the pending path answered.
    Probed(Probe),
    /// The traversal has no more paths.
    Exhausted,
}

pub enum EventView {
    Found(Seq<char>),
    Unreadable(Seq<char>),
    Probed(Probe),
    Exhausted,
}

impl View for WalkEvent {
    type V = EventView;

    open spec fn view(&self) -> EventView {
        match self {
            WalkEvent::Found(p) => EventView::Found(p@),
            WalkEvent::Unreadable(p) => EventView::Unreadable(p@),
            WalkEvent::Probed(k) => EventView::Probed(*k),
            WalkEvent::Exhausted => EventView::Exhausted,
        }
    }
}

/// What the walker asks of its driver next.
#[derive(Clone, Debug)]
pub enum WalkAction {
    /// Query the status of this path and report it with `Probed`.
    Query(String),
    /// Hand this entry to the sink, then go on with the traversal.
    Emit(Entry),
    /// Nothing to report; go on with the traversal.
    Skip,
    /// The walk is over with this error.
    Fail(WalkError),
    /// The walk is over.
    Stop,
}

pub enum ActionView {
    Query(Seq<char>),
    Emit(EntryView),
    Skip,
    Fail(WalkErrorView),
    Stop,
}

impl View for WalkAction {
    type V = ActionView;

    open spec fn view(&self) -> ActionView {
        match self {
            WalkAction::Query(p) => ActionView::Query(p@),
            WalkAction::Emit(e) => ActionView::Emit(e@),
            WalkAction::Skip => ActionView::Skip,
            WalkAction::Fail(e) => ActionView::Fail(e@),
            WalkAction::Stop => ActionView::Stop,
        }
    }
}

/// A status answer is expected exactly while a path is pending; a finished
/// walk takes any event.
pub open spec fn fits(phase: PhaseView, ev: EventView) -> bool {
    match phase {
        PhaseView::Scanning => !(ev is Probed),
        PhaseView::Querying(_) => ev is Probed,
        PhaseView::Finished => true,
    }
}

/// One step of a walk: the next phase and the action for the driver.
pub open spec fn next(req: RequestView, phase: PhaseView, ev: EventView) -> (PhaseView, ActionView) {
    match phase {
        PhaseView::Finished => (PhaseView::Finished, ActionView::Stop),
        PhaseView::Scanning => match ev {
            EventView::Found(p) => if ignored_by(p, req.ignored) {
                (PhaseView::Scanning, ActionView::Skip)
            } else {
                (PhaseView::Querying(p), ActionView::Query(p))
            },
            EventView::Unreadable(p) => (
                PhaseView::Finished,
                ActionView::Fail(WalkErrorView::Traversal(p)),
            ),
            EventView::Exhausted => (PhaseView::Finished, ActionView::Stop),
            EventView::Probed(_) => (PhaseView::Scanning, ActionView::Skip),
        },
        PhaseView::Querying(p) => match ev {
            EventView::Probed(Probe::File) => (
                PhaseView::Scanning,
                ActionView::Emit(entry_of(req, p, EntryKind::File)),
            ),
            EventView::Probed(Probe::Directory) => (
                PhaseView::Scanning,
                ActionView::Emit(entry_of(req, p, EntryKind::Directory)),
            ),
            EventView::Probed(Probe::Other) => (PhaseView::Scanning, ActionView::Skip),
            EventView::Probed(Probe::Missing) => (
                PhaseView::Finished,
                ActionView::Fail(WalkErrorView::StatusQuery(p)),
            ),
            _ => (phase, ActionView::Skip),
        },
    }
}

/// The decisions of a walk, driven by events from a traversal and from
/// status queries that its caller performs.
pub struct Walker {
    pub phase: Phase,
}

impl Walker {
    pub fn new() -> (r: Walker)
        ensures
            r.phase@ == PhaseView::Scanning,
    {
        Walker { phase: Phase::Scanning }
    }

    /// Whether the walker takes `ev` in its current phase.
    pub fn accepts(&self, ev: &WalkEvent) -> (r: bool)
        ensures
            r == fits(self.phase@, ev@),
    {
        match (&self.phase, ev) {
            (Phase::Scanning, WalkEvent::Probed(_)) => false,
            (Phase::Scanning, _) => true,
            (Phase::Querying(_), WalkEvent::Probed(_)) => true,
            (Phase::Querying(_), _) => false,
            (Phase::Finished, _) => true,
        }
    }

    /// Whether the walk has ended.
    pub fn is_finished(&self) -> (r: bool)
        ensures
            r == (self.phase@ is Finished),
    {
        match self.phase {
            Phase::Finished => true,
            _ => false,
        }
    }

    /// Takes one event and says what to do next.
    pub fn step(&mut self, request: &WalkRequest, ev: WalkEvent) -> (r: WalkAction)
        requires
            fits(old(self).phase@, ev@),
        ensures
            (final(self).phase@, r@) == next(request@, old(self).phase@, ev@),
    {
        match ev {
            WalkEvent::Found(p) => {
                if let Phase::Finished = self.phase {
                    return WalkAction::Stop;
                }
                if request.excludes(p.as_str()) {
                    WalkAction::Skip
                } else {
                    self.phase = Phase::Querying(p.clone());
                    WalkAction::Query(p)
                }
            },
            WalkEvent::Unreadable(p) => {
                if let Phase::Finished = self.phase {
                    return WalkAction::Stop;
                }
                self.phase = Phase::Finished;
                WalkAction::Fail(WalkError::Traversal(p))
            },
            WalkEvent::Exhausted => {
                self.phase = Phase::Finished;
                WalkAction::Stop
            },
            WalkEvent::Probed(probe) => {
                let pending = match &self.phase {
                    Phase::Querying(p) => Some(p.clone()),
                    _ => None,
                };
                match pending {
                    Some(p) => match probe {
                        Probe::File => {
                            self.phase = Phase::Scanning;
                            WalkAction::Emit(request.entry(p, EntryKind::File))
                        },
                        Probe::Directory => {
                            self.phase = Phase::Scanning;
                            WalkAction::Emit(request.entry(p, EntryKind::Directory))
                        },
                        Probe::Other => {
                            self.phase = Phase::Scanning;
                            WalkAction::Skip
                        },
                        Probe::Missing => {
                            self.phase = Phase::Finished;
                            WalkAction::Fail(WalkError::StatusQuery(p))
                        },
                    },
                    None => WalkAction::Stop,
                }
            },
        }
    }
}

} // verus!
