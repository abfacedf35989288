use vstd::prelude::*;

use crate::detect::{
    detect_new, detect_new_spec, lemma_unchanged_pass_detects_nothing, seen_in, snapshot_views,
};
use crate::notification::{request_for, request_views, NotificationRequest, RequestView};
use crate::registry::{
    entry_views, is_disabled, is_known, register, register_all, toggled, SourceEntry,
    SourceRegistry,
};
use crate::snapshot::{SessionSnapshot, SnapshotView};

verus! {

/// What the event loop consumes, in arrival order.
#[derive(Clone, Copy, Debug, PartialEq, Eq, Structural)]
pub enum Event {
    /// The sessions, or what one of them shows, may have changed.
    Update,
    /// The registry changed and should be written out.
    ConfigChanged,
    /// Stop the loop.
    Quit,
    /// The user flipped the source at this position of the tray menu.
    ToggleSource(usize),
    /// The user asked to forget every known source.
    ClearKnown,
}

/// What the caller does after handing an event to the loop.
pub enum Action {
    /// Enumerate the sessions and hand the snapshots to `Notifier::observe`.
    Refresh,
    /// Overwrite the stored configuration with these entries.
    Persist(Vec<SourceEntry>),
    /// Leave the loop.
    Stop,
    /// Nothing beyond queueing the follow-up events.
    Idle,
}

/// The loop's answer to one event: an action, and events to put at the back
/// of the queue.
pub struct Step {
    pub action: Action,
    pub follow_ups: Vec<Event>,
}

/// The outcome of one refresh pass.
pub struct PassOutcome {
    /// The notifications to show, in order.
    pub notifications: Vec<NotificationRequest>,
    /// One `ConfigChanged` per source registered during the pass.
    pub follow_ups: Vec<Event>,
}

/// Mathematical model of the loop's state.
pub struct NotifierView {
    pub registry: Seq<(Seq<char>, bool)>,
    pub previous: Seq<SnapshotView>,
    pub running: bool,
}

pub open spec fn source_ids(s: Seq<SnapshotView>) -> Seq<Seq<char>> {
    s.map_values(|x: SnapshotView| x.source_id)
}

/// A detected snapshot is announced unless its source was switched off.
pub open spec fn announced(reg: Seq<(Seq<char>, bool)>) -> spec_fn(SnapshotView) -> bool {
    |s: SnapshotView| !is_disabled(reg, s.source_id)
}

pub open spec fn announcements(reg: Seq<(Seq<char>, bool)>, fresh: Seq<SnapshotView>) -> Seq<
    RequestView,
> {
    fresh.filter(announced(reg)).map_values(|s: SnapshotView| request_for(s))
}

/// The registry after a pass: each source of a newly detected snapshot is
/// registered, in order.
pub open spec fn pass_registry(
    reg: Seq<(Seq<char>, bool)>,
    previous: Seq<SnapshotView>,
    current: Seq<SnapshotView>,
) -> Seq<(Seq<char>, bool)> {
    register_all(reg, source_ids(detect_new_spec(current, previous)))
}

/// The notifications of a pass: one per newly detected snapshot whose source
/// was not switched off when the pass began.
pub open spec fn pass_notifications(
    reg: Seq<(Seq<char>, bool)>,
    previous: Seq<SnapshotView>,
    current: Seq<SnapshotView>,
) -> Seq<RequestView> {
    announcements(reg, detect_new_spec(current, previous))
}

pub open spec fn config_changes(n: nat) -> Seq<Event> {
    Seq::new(n, |k: int| Event::ConfigChanged)
}

/// The state after an event is handled.
pub open spec fn after_event(m: NotifierView, e: Event) -> NotifierView {
    if !m.running {
        m
    } else {
        match e {
            Event::Quit => NotifierView { running: false, ..m },
            Event::ToggleSource(i) => NotifierView { registry: toggled(m.registry, i as int), ..m },
            Event::ClearKnown => NotifierView { registry: Seq::empty(), ..m },
            _ => m,
        }
    }
}

/// The state after a refresh pass that enumerated `current`.
pub open spec fn after_pass(m: NotifierView, current: Seq<SnapshotView>) -> NotifierView {
    NotifierView {
        registry: pass_registry(m.registry, m.previous, current),
        previous: current,
        running: m.running,
    }
}

/// Registering identifiers only appends enabled entries, and leaves each of
/// them known.
pub proof fn lemma_register_all_extends(reg: Seq<(Seq<char>, bool)>, ids: Seq<Seq<char>>)
    ensures
        register_all(reg, ids).len() >= reg.len(),
        register_all(reg, ids).subrange(0, reg.len() as int) == reg,
        forall|i: int|
            reg.len() <= i < register_all(reg, ids).len() ==> (#[trigger] register_all(
                reg,
                ids,
            )[i]).1,
        forall|i: int| 0 <= i < ids.len() ==> is_known(register_all(reg, ids), #[trigger] ids[i]),
    decreases ids.len(),
{
    if ids.len() > 0 {
        let prior = register_all(reg, ids.drop_last());
        lemma_register_all_extends(reg, ids.drop_last());
        let last = ids.last();
        let after = register_all(reg, ids);
        assert(after == register(prior, last));
        assert forall|i: int| 0 <= i < ids.len() implies is_known(after, #[trigger] ids[i]) by {
            if i < ids.len() - 1 {
                assert(ids.drop_last()[i] == ids[i]);
                assert(is_known(prior, ids[i]));
                let j = choose|j: int| 0 <= j < prior.len() && #[trigger] prior[j].0 == ids[i];
                assert(after[j] == prior[j]);
            } else if !is_known(prior, last) {
                assert(after[prior.len() as int].0 == last);
            }
        }
        assert(after.subrange(0, reg.len() as int) =~= prior.subrange(0, reg.len() as int));
    }
}

/// Registering identifiers never switches a source on or off.
pub proof fn lemma_register_all_keeps_disabled(
    reg: Seq<(Seq<char>, bool)>,
    ids: Seq<Seq<char>>,
    id: Seq<char>,
)
    ensures
        is_disabled(register_all(reg, ids), id) == is_disabled(reg, id),
{
    let after = register_all(reg, ids);
    lemma_register_all_extends(reg, ids);
    if is_disabled(after, id) {
        let j = choose|j: int| 0 <= j < after.len() && #[trigger] after[j].0 == id && !after[j].1;
        assert(j < reg.len());
        assert(after.subrange(0, reg.len() as int)[j] == after[j]);
        assert(reg[j].0 == id && !reg[j].1);
    }
    if is_disabled(reg, id) {
        let j = choose|j: int| 0 <= j < reg.len() && #[trigger] reg[j].0 == id && !reg[j].1;
        assert(after.subrange(0, reg.len() as int)[j] == after[j]);
        assert(after[j].0 == id && !after[j].1);
    }
}

/// A source never seen before, whose snapshot a pass detects as new, ends the
/// pass registered and enabled, is announced in that same pass, and makes the
/// pass ask for a configuration write.
pub proof fn lemma_new_source_announced(m: NotifierView, current: Seq<SnapshotView>, k: int)
    requires
        0 <= k < current.len(),
        !seen_in(m.previous, current[k]),
        !is_known(m.registry, current[k].source_id),
    ensures
        is_known(after_pass(m, current).registry, current[k].source_id),
        !is_disabled(after_pass(m, current).registry, current[k].source_id),
        pass_notifications(m.registry, m.previous, current).contains(request_for(current[k])),
        config_changes(
            (after_pass(m, current).registry.len() - m.registry.len()) as nat,
        ).contains(Event::ConfigChanged),
{
    broadcast use vstd::seq_lib::group_filter_ensures;

    let s = current[k];
    let id = s.source_id;
    let reg = m.registry;
    let fresh = detect_new_spec(current, m.previous);
    let ids = source_ids(fresh);
    let after = register_all(reg, ids);
    assert(fresh.contains(s));
    let t = choose|t: int| 0 <= t < fresh.len() && fresh[t] == s;
    assert(ids[t] == id);
    lemma_register_all_extends(reg, ids);
    lemma_register_all_keeps_disabled(reg, ids, id);
    assert(!is_disabled(reg, id));
    assert(announced(reg)(fresh[t]));
    let shown = fresh.filter(announced(reg));
    assert(shown.contains(s));
    let u = choose|u: int| 0 <= u < shown.len() && shown[u] == s;
    let notes = shown.map_values(|x: SnapshotView| request_for(x));
    assert(notes[u] == request_for(s));
    if after.len() == reg.len() {
        assert(after =~= after.subrange(0, reg.len() as int));
        assert(is_known(after, ids[t]));
    }
    let n = (after.len() - reg.len()) as nat;
    assert(config_changes(n)[0] == Event::ConfigChanged);
}

/// Once a source is switched off, a pass announces nothing from it and leaves
/// it switched off; a following pass over the same sessions detects nothing.
pub proof fn lemma_disabled_source_silent(m: NotifierView, current: Seq<SnapshotView>, id: Seq<char>)
    requires
        is_disabled(m.registry, id),
    ensures
        forall|i: int|
            0 <= i < pass_notifications(m.registry, m.previous, current).len() ==> (
            #[trigger] pass_notifications(m.registry, m.previous, current)[i]).source_id != id,
        is_disabled(after_pass(m, current).registry, id),
        detect_new_spec(current, after_pass(m, current).previous) == Seq::<SnapshotView>::empty(),
{
    broadcast use vstd::seq_lib::group_filter_ensures;

    let reg = m.registry;
    let fresh = detect_new_spec(current, m.previous);
    let shown = fresh.filter(announced(reg));
    assert forall|i: int|
        0 <= i < pass_notifications(reg, m.previous, current).len() implies (
        #[trigger] pass_notifications(reg, m.previous, current)[i]).source_id != id by {
        assert(announced(reg)(shown[i]));
    }
    lemma_register_all_keeps_disabled(reg, source_ids(fresh), id);
    lemma_unchanged_pass_detects_nothing(current, current);
}

/// After the known sources are cleared, a source that had been switched off
/// and now shows a state the last pass did not is registered again, enabled,
/// and announced.
pub proof fn lemma_cleared_source_is_new(m: NotifierView, current: Seq<SnapshotView>, k: int)
    requires
        m.running,
        0 <= k < current.len(),
        is_disabled(m.registry, current[k].source_id),
        !seen_in(m.previous, current[k]),
    ensures
        after_event(m, Event::ClearKnown).registry == Seq::<(Seq<char>, bool)>::empty(),
        is_known(after_pass(after_event(m, Event::ClearKnown), current).registry, current[k].source_id),
        !is_disabled(
            after_pass(after_event(m, Event::ClearKnown), current).registry,
            current[k].source_id,
        ),
        pass_notifications(
            after_event(m, Event::ClearKnown).registry,
            after_event(m, Event::ClearKnown).previous,
            current,
        ).contains(request_for(current[k])),
{
    let cleared = after_event(m, Event::ClearKnown);
    assert(!is_known(cleared.registry, current[k].source_id));
    lemma_new_source_announced(cleared, current, k);
}

/// The event loop's state: the known sources, the snapshots of the last pass,
/// and whether it still runs.
pub struct Notifier {
    registry: SourceRegistry,
    previous: Vec<SessionSnapshot>,
    running: bool,
}

impl View for Notifier {
    type V = NotifierView;

    closed spec fn view(&self) -> NotifierView {
        NotifierView {
            registry: self.registry@,
            previous: snapshot_views(self.previous@),
            running: self.running,
        }
    }
}

impl Notifier {
    pub closed spec fn wf(&self) -> bool {
        self.registry.wf()
    }

    /// A running loop over `registry`, with no snapshot seen yet.
    pub fn new(registry: SourceRegistry) -> (r: Notifier)
        requires
            registry.wf(),
        ensures
            r.wf(),
            r@ == (NotifierView {
                registry: registry@,
                previous: Seq::empty(),
                running: true,
            }),
    {
        let r = Notifier { registry, previous: Vec::new(), running: true };
        assert(snapshot_views(r.previous@) =~= Seq::<SnapshotView>::empty());
        r
    }

    /// The events that start the loop: a first refresh, then a write of the
    /// configuration so that it exists even when nothing changes.
    pub fn startup_events() -> (r: Vec<Event>)
        ensures
            r@ == seq![Event::Update, Event::ConfigChanged],
    {
        let mut r: Vec<Event> = Vec::new();
        r.push(Event::Update);
        r.push(Event::ConfigChanged);
        r
    }

    pub fn registry(&self) -> (r: &SourceRegistry)
        requires
            self.wf(),
        ensures
            r.wf(),
            r@ == self@.registry,
    {
        &self.registry
    }

    /// The snapshots of the last pass, the state the next pass is compared with.
    pub fn previous(&self) -> (r: &Vec<SessionSnapshot>)
        ensures
            snapshot_views(r@) == self@.previous,
    {
        &self.previous
    }

    pub fn is_running(&self) -> (r: bool)
        ensures
            r == self@.running,
    {
        self.running
    }

    /// Reacts to one event taken from the front of the queue.
    pub fn handle(&mut self, event: Event) -> (r: Step)
        requires
            old(self).wf(),
        ensures
            final(self).wf(),
            final(self)@ == after_event(old(self)@, event),
            !old(self)@.running ==> r.action is Stop && r.follow_ups@.len() == 0,
            old(self)@.running ==> match event {
                Event::Update => r.action is Refresh && r.follow_ups@.len() == 0,
                Event::ConfigChanged => (r.action matches Action::Persist(e) && entry_views(e@)
                    == old(self)@.registry) && r.follow_ups@.len() == 0,
                Event::Quit => r.action is Stop && r.follow_ups@.len() == 0,
                Event::ToggleSource(_) => r.action is Idle && r.follow_ups@ == seq![
                    Event::ConfigChanged,
                ],
                Event::ClearKnown => r.action is Idle && r.follow_ups@ == seq![
                    Event::ConfigChanged,
                ],
            },
    {
        let mut follow_ups: Vec<Event> = Vec::new();
        if !self.running {
            return Step { action: Action::Stop, follow_ups };
        }
        let action = match event {
            Event::Update => Action::Refresh,
            Event::ConfigChanged => Action::Persist(self.registry.entries()),
            Event::Quit => {
                self.running = false;
                Action::Stop
            },
            Event::ToggleSource(index) => {
                self.registry.toggle(index);
                follow_ups.push(Event::ConfigChanged);
                Action::Idle
            },
            Event::ClearKnown => {
                self.registry.clear();
                follow_ups.push(Event::ConfigChanged);
                Action::Idle
            },
        };
        Step { action, follow_ups }
    }

    /// One refresh pass over the snapshots `current` just enumerated: finds
    /// the new states, registers their sources, announces those not switched
    /// off, and keeps `current` as the state to compare the next pass with.
    pub fn observe(&mut self, current: Vec<SessionSnapshot>) -> (r: PassOutcome)
        requires
            old(self).wf(),
        ensures
            final(self).wf(),
            final(self)@ == after_pass(old(self)@, snapshot_views(current@)),
            request_views(r.notifications@) == pass_notifications(
                old(self)@.registry,
                old(self)@.previous,
                snapshot_views(current@),
            ),
            r.follow_ups@ == config_changes(
                (final(self)@.registry.len() - old(self)@.registry.len()) as nat,
            ),
    {
        let ghost reg0 = self.registry@;
        let fresh = detect_new(&current, &self.previous);
        let ghost fv = snapshot_views(fresh@);
        let mut notifications: Vec<NotificationRequest> = Vec::new();
        let mut follow_ups: Vec<Event> = Vec::new();
        let mut i: usize = 0;
        proof {
            assert(source_ids(fv.take(0)) =~= Seq::<Seq<char>>::empty());
            assert(fv.take(0) =~= Seq::<SnapshotView>::empty());
            reveal(Seq::filter);
            assert(announcements(reg0, fv.take(0)) =~= Seq::<RequestView>::empty());
            assert(request_views(notifications@) =~= Seq::<RequestView>::empty());
            assert(follow_ups@ =~= config_changes(0));
        }
        while i < fresh.len()
            invariant
                i <= fresh.len(),
                fv == snapshot_views(fresh@),
                self.registry.wf(),
                self.running == old(self).running,
                self.registry@ == register_all(reg0, source_ids(fv.take(i as int))),
                self.registry@.len() >= reg0.len(),
                request_views(notifications@) == announcements(reg0, fv.take(i as int)),
                follow_ups@ == config_changes((self.registry@.len() - reg0.len()) as nat),
            decreases fresh.len() - i,
        {
            let s = &fresh[i];
            let ghost ids_before = source_ids(fv.take(i as int));
            let ghost ids_after = source_ids(fv.take(i + 1));
            proof {
                assert(ids_after.drop_last() =~= ids_before);
                assert(ids_after.last() == s.source_id@);
            }
            let registered = self.registry.register_if_new(&s.source_id);
            if registered {
                follow_ups.push(Event::ConfigChanged);
                assert(follow_ups@ =~= config_changes((self.registry@.len() - reg0.len()) as nat));
            }
            let flag = self.registry.is_enabled(&s.source_id);
            proof {
                lemma_register_all_keeps_disabled(reg0, ids_after, s.source_id@);
                lemma_register_all_extends(reg0, ids_after);
                let now = self.registry@;
                assert(is_known(now, ids_after[i as int]));
                let k = choose|k: int| 0 <= k < now.len() && #[trigger] now[k].0 == s.source_id@;
                if now[k].1 {
                    assert forall|j: int| 0 <= j < now.len() && #[trigger] now[j].0 == s.source_id@
                        implies now[j].1 by {
                        if j != k {
                            assert(now[j].0 != now[k].0);
                        }
                    }
                    assert(!is_disabled(now, s.source_id@));
                } else {
                    assert(is_disabled(now, s.source_id@));
                }
                assert(flag == Some(now[k].1));
            }
            let ghost notes_before = notifications@;
            if flag == Some(true) {
                notifications.push(NotificationRequest::from_snapshot(s));
                assert(request_views(notifications@) =~= request_views(notes_before).push(
                    request_for(fv[i as int]),
                ));
            }
            proof {
                reveal(Seq::filter);
                assert(fv.take(i + 1).drop_last() =~= fv.take(i as int));
                assert(fv.take(i + 1).last() == fv[i as int]);
                let before = fv.take(i as int).filter(announced(reg0));
                if announced(reg0)(fv[i as int]) {
                    assert(before.push(fv[i as int]).map_values(|s: SnapshotView| request_for(s))
                        =~= before.map_values(|s: SnapshotView| request_for(s)).push(
                        request_for(fv[i as int]),
                    ));
                }
            }
            i += 1;
        }
        proof {
            assert(fv.take(fresh.len() as int) =~= fv);
            assert(self.registry@ == register_all(reg0, source_ids(fv)));
        }
        self.previous = current;
        PassOutcome { notifications, follow_ups }
    }
}

} // verus!
