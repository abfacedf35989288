use vstd::prelude::*;

use crate::snapshot::{same_state, SessionSnapshot, SnapshotView};

verus! {

pub open spec fn snapshot_views(s: Seq<SessionSnapshot>) -> Seq<SnapshotView> {
    s.map_values(|x: SessionSnapshot| x@)
}

/// Some snapshot of `previous` shows the same state as `s`.
pub open spec fn seen_in(previous: Seq<SnapshotView>, s: SnapshotView) -> bool {
    exists|j: int| 0 <= j < previous.len() && same_state(#[trigger] previous[j], s)
}

/// The snapshots of `current`, in order, whose state appears nowhere in `previous`.
pub open spec fn detect_new_spec(current: Seq<SnapshotView>, previous: Seq<SnapshotView>) -> Seq<
    SnapshotView,
> {
    current.filter(|s: SnapshotView| !seen_in(previous, s))
}

/// Whether some snapshot of `previous` shows the same state as `s`.
pub fn contains_state(previous: &Vec<SessionSnapshot>, s: &SessionSnapshot) -> (r: bool)
    ensures
        r == seen_in(snapshot_views(previous@), s@),
{
    let ghost prev = snapshot_views(previous@);
    let mut j: usize = 0;
    while j < previous.len()
        invariant
            j <= previous.len(),
            prev == snapshot_views(previous@),
            forall|k: int| 0 <= k < j ==> !same_state(#[trigger] prev[k], s@),
        decreases previous.len() - j,
    {
        if previous[j].same_state_as(s) {
            assert(same_state(prev[j as int], s@));
            return true;
        }
        j += 1;
    }
    false
}

/// The snapshots of `current` that show a state not found in `previous`,
/// in the order of `current`.
pub fn detect_new(current: &Vec<SessionSnapshot>, previous: &Vec<SessionSnapshot>) -> (r: Vec<
    SessionSnapshot,
>)
    ensures
        snapshot_views(r@) == detect_new_spec(snapshot_views(current@), snapshot_views(previous@)),
{
    let ghost cur = snapshot_views(current@);
    let ghost prev = snapshot_views(previous@);
    let mut fresh: Vec<SessionSnapshot> = Vec::new();
    let mut i: usize = 0;
    while i < current.len()
        invariant
            i <= current.len(),
            cur == snapshot_views(current@),
            prev == snapshot_views(previous@),
            snapshot_views(fresh@) == detect_new_spec(cur.take(i as int), prev),
        decreases current.len() - i,
    {
        proof {
            reveal(Seq::filter);
        }
        let unseen = !contains_state(previous, &current[i]);
        let ghost before = fresh@;
        if unseen {
            fresh.push(current[i].duplicate());
            assert(snapshot_views(fresh@) =~= snapshot_views(before).push(cur[i as int]));
        }
        assert(cur.take(i + 1).drop_last() =~= cur.take(i as int));
        assert(cur.take(i + 1).last() == cur[i as int]);
        i += 1;
    }
    assert(cur.take(current.len() as int) =~= cur);
    fresh
}

/// A pass that shows, position by position, the same states as the previous
/// pass detects nothing new.
pub proof fn lemma_unchanged_pass_detects_nothing(
    current: Seq<SnapshotView>,
    previous: Seq<SnapshotView>,
)
    requires
        current.len() == previous.len(),
        forall|i: int| 0 <= i < current.len() ==> same_state(#[trigger] current[i], previous[i]),
    ensures
        detect_new_spec(current, previous) == Seq::<SnapshotView>::empty(),
{
    let pred = |s: SnapshotView| !seen_in(previous, s);
    let fresh = current.filter(pred);
    if fresh.len() > 0 {
        broadcast use vstd::seq_lib::group_filter_ensures;

        assert(fresh.contains(fresh[0]));
        current.lemma_filter_contains_rev(pred, fresh[0]);
        let k = choose|k: int| 0 <= k < current.len() && current[k] == fresh[0];
        assert(same_state(previous[k], current[k]));
        assert(seen_in(previous, fresh[0]));
    }
    assert(fresh =~= Seq::<SnapshotView>::empty());
}

/// Snapshots that differ only in their thumbnails are alike to change
/// detection: each is seen exactly where the other is, and one never counts as
/// new after the other.
pub proof fn lemma_thumbnail_ignored(a: SnapshotView, b: SnapshotView, previous: Seq<SnapshotView>)
    requires
        same_state(a, b),
    ensures
        seen_in(previous, a) == seen_in(previous, b),
        detect_new_spec(seq![a], previous) =~= (if seen_in(previous, b) {
            Seq::<SnapshotView>::empty()
        } else {
            seq![a]
        }),
        detect_new_spec(seq![b], seq![a]) == Seq::<SnapshotView>::empty(),
{
    if seen_in(previous, a) {
        let j = choose|j: int| 0 <= j < previous.len() && same_state(previous[j], a);
        assert(same_state(previous[j], b));
    }
    if seen_in(previous, b) {
        let j = choose|j: int| 0 <= j < previous.len() && same_state(previous[j], b);
        assert(same_state(previous[j], a));
    }
    reveal_with_fuel(Seq::filter, 2);
    assert(seq![a].drop_last() =~= Seq::<SnapshotView>::empty());
    assert(seq![b].drop_last() =~= Seq::<SnapshotView>::empty());
    assert(same_state(seq![a][0], b));
    assert(seen_in(seq![a], b));
}

} // verus!
