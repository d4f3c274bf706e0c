use vstd::prelude::*;

use crate::walk::{Entry, EntryView, Probe, RequestView, WalkError, WalkErrorView, WalkRequest};
use crate::walker::{next, ActionView, EventView, PhaseView, WalkAction, WalkEvent, Walker};

verus! {

/// One item of a traversal, in traversal order, with the answer that a
/// status query on it gives.
#[derive(Clone, Debug)]
pub enum Visit {
    Node(String, Probe),
    /// A directory at this path could not be listed.
    Unreadable(String),
}

pub enum VisitView {
    Node(Seq<char>, Probe),
    Unreadable(Seq<char>),
}

impl View for Visit {
    type V = VisitView;

    open spec fn view(&self) -> VisitView {
        match self {
            Visit::Node(p, k) => VisitView::Node(p@, *k),
            Visit::Unreadable(p) => VisitView::Unreadable(p@),
        }
    }
}

pub open spec fn visits_view(vs: Seq<Visit>) -> Seq<VisitView> {
    vs.map_values(|v: Visit| v@)
}

pub open spec fn entries_view(es: Seq<Entry>) -> Seq<EntryView> {
    es.map_values(|e: Entry| e@)
}

/// What a walk has reported so far.
pub struct WalkState {
    pub phase: PhaseView,
    pub entries: Seq<EntryView>,
    pub error: Option<WalkErrorView>,
}

pub open spec fn initial() -> WalkState {
    WalkState { phase: PhaseView::Scanning, entries: Seq::empty(), error: None }
}

/// The state after the driver carries out `a` in phase `phase`.
pub open spec fn apply(st: WalkState, phase: PhaseView, a: ActionView) -> WalkState {
    match a {
        ActionView::Emit(e) => WalkState { phase, entries: st.entries.push(e), error: st.error },
        ActionView::Fail(err) => WalkState { phase, entries: st.entries, error: Some(err) },
        _ => WalkState { phase, entries: st.entries, error: st.error },
    }
}

/// The state after one visit: the path is discovered, and, when the walker
/// asks for it, its status is answered.
pub open spec fn feed(req: RequestView, st: WalkState, v: VisitView) -> WalkState {
    match v {
        VisitView::Node(p, probe) => {
            let (ph1, a1) = next(req, st.phase, EventView::Found(p));
            if a1 is Query {
                let (ph2, a2) = next(req, ph1, EventView::Probed(probe));
                apply(st, ph2, a2)
            } else {
                apply(st, ph1, a1)
            }
        },
        VisitView::Unreadable(p) => {
            let (ph1, a1) = next(req, st.phase, EventView::Unreadable(p));
            apply(st, ph1, a1)
        },
    }
}

/// The state after a whole sequence of visits.
pub open spec fn run(req: RequestView, vs: Seq<VisitView>) -> WalkState
    decreases vs.len(),
{
    if vs.len() == 0 {
        initial()
    } else {
        feed(req, run(req, vs.drop_last()), vs.last())
    }
}

/// The outcome of a walk: the entries reported, in order, and the error that
/// ended it early, if any.
#[derive(Clone, Debug)]
pub struct WalkReport {
    pub entries: Vec<Entry>,
    pub error: Option<WalkError>,
}

/// Records an action's outcome.
fn record(entries: &mut Vec<Entry>, error: &mut Option<WalkError>, a: WalkAction)
    ensures
        (match a@ {
            ActionView::Emit(e) => entries_view(final(entries)@) == entries_view(old(entries)@).push(e)
                && *final(error) == *old(error),
            ActionView::Fail(err) => final(entries)@ == old(entries)@ && final(error).is_some()
                && final(error).unwrap()@ == err,
            _ => final(entries)@ == old(entries)@ && *final(error) == *old(error),
        }),
{
    match a {
        WalkAction::Emit(e) => {
            let ghost before = entries@;
            entries.push(e);
            assert(entries_view(entries@) =~= entries_view(before).push(e@));
        },
        WalkAction::Fail(err) => {
            *error = Some(err);
        },
        _ => {},
    }
}

/// Walks a recorded traversal: the same decisions as a live walk, for every
/// traversal order and every answer of the status queries.
pub fn walk_listing(request: &WalkRequest, visits: &Vec<Visit>) -> (r: WalkReport)
    ensures
        entries_view(r.entries@) == run(request@, visits_view(visits@)).entries,
        r.error.is_some() == run(request@, visits_view(visits@)).error.is_some(),
        r.error.is_some() ==> r.error.unwrap()@ == run(request@, visits_view(visits@)).error.unwrap(),
{
    let ghost req = request@;
    let ghost vs = visits_view(visits@);
    let mut walker = Walker::new();
    let mut entries: Vec<Entry> = Vec::new();
    let mut error: Option<WalkError> = None;
    let mut i: usize = 0;
    assert(vs.take(0) =~= Seq::<VisitView>::empty());
    assert(entries_view(entries@) =~= Seq::<EntryView>::empty());
    while i < visits.len()
        invariant
            req == request@,
            vs == visits_view(visits@),
            i <= visits@.len(),
            walker.phase@ == run(req, vs.take(i as int)).phase,
            !(walker.phase@ is Querying),
            entries_view(entries@) == run(req, vs.take(i as int)).entries,
            error.is_some() == run(req, vs.take(i as int)).error.is_some(),
            error.is_some() ==> error.unwrap()@ == run(req, vs.take(i as int)).error.unwrap(),
        decreases visits@.len() - i,
    {
        assert(vs.take(i + 1).drop_last() =~= vs.take(i as int));
        assert(vs.take(i + 1).last() == visits@[i as int]@);
        match &visits[i] {
            Visit::Node(p, probe) => {
                let a = walker.step(request, WalkEvent::Found(p.clone()));
                match a {
                    WalkAction::Query(_) => {
                        let b = walker.step(request, WalkEvent::Probed(*probe));
                        record(&mut entries, &mut error, b);
                    },
                    _ => {
                        record(&mut entries, &mut error, a);
                    },
                }
            },
            Visit::Unreadable(p) => {
                let a = walker.step(request, WalkEvent::Unreadable(p.clone()));
                record(&mut entries, &mut error, a);
            },
        }
        i = i + 1;
    }
    assert(vs.take(i as int) =~= vs);
    WalkReport { entries, error }
}

} // verus!
