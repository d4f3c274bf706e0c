use vstd::prelude::*;

use crate::ignore::ignored_by;
use crate::listing::{run, visits_view, Visit, VisitView, WalkState};
use crate::text::{contains, occurs_at, replace_all};
use crate::walk::{entry_of, remap, EntryKind, EntryView, Probe, RequestView, WalkErrorView, WalkRequest};
use crate::walker::PhaseView;

verus! {

/// The path that a visit is about.
pub open spec fn visit_path(v: VisitView) -> Seq<char> {
    match v {
        VisitView::Node(p, _) => p,
        VisitView::Unreadable(p) => p,
    }
}

/// A visit whose status query finds a regular file or a directory.
pub open spec fn classified(v: VisitView) -> bool {
    match v {
        VisitView::Node(_, probe) => probe == Probe::File || probe == Probe::Directory,
        VisitView::Unreadable(_) => false,
    }
}

/// The kind of a classified visit.
pub open spec fn visit_kind(v: VisitView) -> EntryKind {
    match v {
        VisitView::Node(_, Probe::File) => EntryKind::File,
        _ => EntryKind::Directory,
    }
}

/// How many entries carry path `p`.
pub open spec fn count_path(es: Seq<EntryView>, p: Seq<char>) -> nat
    decreases es.len(),
{
    if es.len() == 0 {
        0
    } else {
        count_path(es.drop_last(), p) + if es.last().path == p {
            1nat
        } else {
            0nat
        }
    }
}

/// No entry carries `p`, so none is counted.
proof fn lemma_count_absent(es: Seq<EntryView>, p: Seq<char>)
    requires
        forall|k: int| 0 <= k < es.len() ==> es[k].path != p,
    ensures
        count_path(es, p) == 0,
    decreases es.len(),
{
    if es.len() > 0 {
        lemma_count_absent(es.drop_last(), p);
    }
}

/// One classified visit while scanning: reported unless ignored.
proof fn lemma_feed_classified(req: RequestView, vs: Seq<VisitView>)
    requires
        vs.len() > 0,
        classified(vs.last()),
        run(req, vs.drop_last()).phase is Scanning,
        run(req, vs.drop_last()).error is None,
    ensures
        run(req, vs).phase is Scanning,
        run(req, vs).error is None,
        run(req, vs).entries == if ignored_by(visit_path(vs.last()), req.ignored) {
            run(req, vs.drop_last()).entries
        } else {
            run(req, vs.drop_last()).entries.push(
                entry_of(req, visit_path(vs.last()), visit_kind(vs.last())),
            )
        },
{
}

/// Each path of `vs` is carried by exactly one entry of `es` if no ignore
/// entry is a substring of it, and by none otherwise.
#[verifier::opaque]
pub open spec fn counts_once(req: RequestView, vs: Seq<VisitView>, es: Seq<EntryView>) -> bool {
    forall|i: int|
        0 <= i < vs.len() ==> count_path(es, visit_path(#[trigger] vs[i])) == if ignored_by(
            visit_path(vs[i]),
            req.ignored,
        ) {
            0nat
        } else {
            1nat
        }
}

/// Each visit that no ignore entry matches has its entry in `es`.
#[verifier::opaque]
pub open spec fn covers(req: RequestView, vs: Seq<VisitView>, es: Seq<EntryView>) -> bool {
    forall|i: int|
        0 <= i < vs.len() && !ignored_by(visit_path(vs[i]), req.ignored) ==> exists|k: int|
            0 <= k < es.len() && es[k] == entry_of(
                req,
                visit_path(#[trigger] vs[i]),
                visit_kind(vs[i]),
            )
}

/// Each entry of `es` is the entry of a visit that no ignore entry matches.
#[verifier::opaque]
pub open spec fn only_reported(req: RequestView, vs: Seq<VisitView>, es: Seq<EntryView>) -> bool {
    forall|k: int|
        0 <= k < es.len() ==> exists|j: int|
            0 <= j < vs.len() && !ignored_by(visit_path(vs[j]), req.ignored)
                && #[trigger] es[k] == entry_of(req, visit_path(vs[j]), visit_kind(vs[j]))
}

/// `st` reports each path of `vs` once if no ignore entry is a substring of
/// it and never otherwise, each report carrying the visit's own kind, and no
/// error has ended the walk.
pub open spec fn reports_each_once(req: RequestView, vs: Seq<VisitView>, st: WalkState) -> bool {
    &&& st.error is None
    &&& st.phase is Scanning
    &&& counts_once(req, vs, st.entries)
    &&& covers(req, vs, st.entries)
    &&& only_reported(req, vs, st.entries)
}

/// Every visit is classified and no two visits share a path.
pub open spec fn clean_listing(vs: Seq<VisitView>) -> bool {
    &&& forall|i: int| 0 <= i < vs.len() ==> classified(#[trigger] vs[i])
    &&& forall|i: int, j: int|
        0 <= i < vs.len() && 0 <= j < vs.len() && i != j ==> visit_path(#[trigger] vs[i])
            != visit_path(#[trigger] vs[j])
}

/// The counts stay exact when one more classified visit is walked.
proof fn lemma_extend_count(req: RequestView, vs: Seq<VisitView>, before: WalkState, after: WalkState)
    requires
        vs.len() > 0,
        clean_listing(vs),
        reports_each_once(req, vs.drop_last(), before),
        after.phase is Scanning,
        after.error is None,
        after.entries == if ignored_by(visit_path(vs.last()), req.ignored) {
            before.entries
        } else {
            before.entries.push(entry_of(req, visit_path(vs.last()), visit_kind(vs.last())))
        },
    ensures
        counts_once(req, vs, after.entries),
{
    reveal(counts_once);
    reveal(only_reported);
    let pre = vs.drop_last();
    let n = vs.len() - 1;
    let last = vs[n];
    let p = visit_path(last);
    assert forall|k: int| 0 <= k < before.entries.len() implies before.entries[k].path != p by {
        let j = choose|j: int|
            0 <= j < pre.len() && !ignored_by(visit_path(pre[j]), req.ignored)
                && #[trigger] before.entries[k] == entry_of(req, visit_path(pre[j]), visit_kind(pre[j]));
        assert(pre[j] == vs[j]);
    }
    lemma_count_absent(before.entries, p);
    if !ignored_by(p, req.ignored) {
        assert(after.entries.drop_last() =~= before.entries);
    }
    assert forall|i: int| 0 <= i < vs.len() implies count_path(
        after.entries,
        visit_path(#[trigger] vs[i]),
    ) == if ignored_by(visit_path(vs[i]), req.ignored) {
        0nat
    } else {
        1nat
    } by {
        if i < n {
            assert(pre[i] == vs[i]);
        }
    }
}

/// Every visit that is not ignored still has its entry after one more visit.
proof fn lemma_extend_cover(req: RequestView, vs: Seq<VisitView>, before: WalkState, after: WalkState)
    requires
        vs.len() > 0,
        clean_listing(vs),
        reports_each_once(req, vs.drop_last(), before),
        after.phase is Scanning,
        after.error is None,
        after.entries == if ignored_by(visit_path(vs.last()), req.ignored) {
            before.entries
        } else {
            before.entries.push(entry_of(req, visit_path(vs.last()), visit_kind(vs.last())))
        },
    ensures
        covers(req, vs, after.entries),
{
    reveal(covers);
    let pre = vs.drop_last();
    let n = vs.len() - 1;
    let last = vs[n];
    let p = visit_path(last);
    assert forall|i: int|
        0 <= i < vs.len() && !ignored_by(visit_path(vs[i]), req.ignored) implies exists|k: int|
            0 <= k < after.entries.len() && after.entries[k] == entry_of(
                req,
                visit_path(#[trigger] vs[i]),
                visit_kind(vs[i]),
            ) by {
        if i < n {
            assert(pre[i] == vs[i]);
            let k = choose|k: int|
                0 <= k < before.entries.len() && before.entries[k] == entry_of(
                    req,
                    visit_path(#[trigger] pre[i]),
                    visit_kind(pre[i]),
                );
            assert(after.entries[k] == before.entries[k]);
        } else {
            assert(after.entries[before.entries.len() as int] == entry_of(req, p, visit_kind(last)));
        }
    }
}

/// Every entry still comes from a visit that is not ignored after one more
/// visit.
proof fn lemma_extend_sound(req: RequestView, vs: Seq<VisitView>, before: WalkState, after: WalkState)
    requires
        vs.len() > 0,
        clean_listing(vs),
        reports_each_once(req, vs.drop_last(), before),
        after.phase is Scanning,
        after.error is None,
        after.entries == if ignored_by(visit_path(vs.last()), req.ignored) {
            before.entries
        } else {
            before.entries.push(entry_of(req, visit_path(vs.last()), visit_kind(vs.last())))
        },
    ensures
        only_reported(req, vs, after.entries),
{
    reveal(only_reported);
    let pre = vs.drop_last();
    let n = vs.len() - 1;
    let last = vs[n];
    let p = visit_path(last);
    assert forall|k: int| 0 <= k < after.entries.len() implies exists|j: int|
        0 <= j < vs.len() && !ignored_by(visit_path(vs[j]), req.ignored)
            && #[trigger] after.entries[k] == entry_of(req, visit_path(vs[j]), visit_kind(vs[j])) by {
        if k < before.entries.len() {
            assert(after.entries[k] == before.entries[k]);
            let j = choose|j: int|
                0 <= j < pre.len() && !ignored_by(visit_path(pre[j]), req.ignored)
                    && #[trigger] before.entries[k] == entry_of(
                    req,
                    visit_path(pre[j]),
                    visit_kind(pre[j]),
                );
            assert(pre[j] == vs[j]);
        } else {
            assert(after.entries[k] == entry_of(req, p, visit_kind(vs[n])));
        }
    }
}

/// Over a traversal that visits each path once and classifies every node,
/// the walk reports each path once if no ignore entry is a substring of it,
/// and never otherwise; each report carries the node's own kind and remapped
/// path, and no error ends the walk.
pub proof fn lemma_each_path_once(req: RequestView, vs: Seq<VisitView>)
    requires
        clean_listing(vs),
    ensures
        reports_each_once(req, vs, run(req, vs)),
    decreases vs.len(),
{
    if vs.len() > 0 {
        let pre = vs.drop_last();
        assert forall|i: int| 0 <= i < pre.len() implies classified(#[trigger] pre[i]) by {
            assert(pre[i] == vs[i]);
        }
        assert forall|i: int, j: int|
            0 <= i < pre.len() && 0 <= j < pre.len() && i != j implies visit_path(
                #[trigger] pre[i],
            ) != visit_path(#[trigger] pre[j]) by {
            assert(pre[i] == vs[i] && pre[j] == vs[j]);
        }
        lemma_each_path_once(req, pre);
        lemma_feed_classified(req, vs);
        lemma_extend_count(req, vs, run(req, pre), run(req, vs));
        lemma_extend_cover(req, vs, run(req, pre), run(req, vs));
        lemma_extend_sound(req, vs, run(req, pre), run(req, vs));
    } else {
        reveal(counts_once);
        reveal(covers);
        reveal(only_reported);
    }
}

/// Walking the same traversal twice under requests that agree on source,
/// destination and ignore list gives the same report, whatever their labels.
pub proof fn lemma_walk_repeatable(a: WalkRequest, b: WalkRequest, vs: Seq<Visit>)
    requires
        a@ == b@,
    ensures
        run(a@, visits_view(vs)) == run(b@, visits_view(vs)),
{
}

/// An ignore entry that is a substring of a directory's path is a substring
/// of every path below it, so each descendant, judged on its own path, is
/// excluded as well.
pub proof fn lemma_ignored_below(dir: Seq<char>, child: Seq<char>, ignored: Seq<Seq<char>>)
    requires
        dir.len() <= child.len(),
        child.take(dir.len() as int) == dir,
        ignored_by(dir, ignored),
    ensures
        ignored_by(child, ignored),
{
    let k = choose|k: int| 0 <= k < ignored.len() && contains(dir, ignored[k]);
    let i = choose|i: int| occurs_at(dir, ignored[k], i);
    let m = ignored[k].len();
    assert(child.subrange(i, i + m) =~= dir.subrange(i, i + m));
    assert(occurs_at(child, ignored[k], i));
}

/// Once a walk has finished, later visits change nothing.
proof fn lemma_finished_stays(req: RequestView, vs: Seq<VisitView>, j: int)
    requires
        0 <= j <= vs.len(),
        run(req, vs.take(j)).phase is Finished,
    ensures
        run(req, vs) == run(req, vs.take(j)),
    decreases vs.len(),
{
    if vs.len() == j {
        assert(vs.take(j) =~= vs);
    } else {
        assert(vs.drop_last().take(j) =~= vs.take(j));
        lemma_finished_stays(req, vs.drop_last(), j);
    }
}

/// A status query that fails on a path that is not ignored ends the walk
/// with an error naming that path, and no entry is reported after it.
pub proof fn lemma_failure_ends_walk(req: RequestView, vs: Seq<VisitView>, k: int, p: Seq<char>)
    requires
        0 <= k < vs.len(),
        run(req, vs.take(k)).phase is Scanning,
        vs[k] == VisitView::Node(p, Probe::Missing),
        !ignored_by(p, req.ignored),
    ensures
        run(req, vs).phase is Finished,
        run(req, vs).error == Some(WalkErrorView::StatusQuery(p)),
        run(req, vs).entries == run(req, vs.take(k)).entries,
{
    assert(vs.take(k + 1).drop_last() =~= vs.take(k));
    assert(vs.take(k + 1).last() == vs[k]);
    lemma_finished_stays(req, vs, k + 1);
}

/// A path that starts with a non-empty source is remapped to the
/// destination followed by the rest of the path, itself remapped.
pub proof fn lemma_remap_under_source(req: RequestView, rest: Seq<char>)
    requires
        req.source.len() > 0,
    ensures
        remap(req, req.source + rest) == req.destination + remap(req, rest),
{
    let s = req.source + rest;
    assert(s.take(req.source.len() as int) =~= req.source);
    assert(s.skip(req.source.len() as int) =~= rest);
    assert(replace_all(s, req.source, req.destination) == req.destination + replace_all(
        rest,
        req.source,
        req.destination,
    ));
}

} // verus!
