use vstd::prelude::*;

verus! {

/// One media source the user has seen, and whether its notifications are shown.
pub struct SourceEntry {
    pub source_id: String,
    pub enabled: bool,
}

impl View for SourceEntry {
    type V = (Seq<char>, bool);

    open spec fn view(&self) -> (Seq<char>, bool) {
        (self.source_id@, self.enabled)
    }
}

impl SourceEntry {
    pub fn new(source_id: String, enabled: bool) -> (r: SourceEntry)
        ensures
            r@ == (source_id@, enabled),
    {
        SourceEntry { source_id, enabled }
    }

    pub fn duplicate(&self) -> (r: SourceEntry)
        ensures
            r@ == self@,
    {
        SourceEntry { source_id: self.source_id.clone(), enabled: self.enabled }
    }
}

pub open spec fn entry_views(s: Seq<SourceEntry>) -> Seq<(Seq<char>, bool)> {
    s.map_values(|e: SourceEntry| e@)
}

/// No source identifier occurs twice.
pub open spec fn unique_ids(reg: Seq<(Seq<char>, bool)>) -> bool {
    forall|i: int, j: int| 0 <= i < j < reg.len() ==> #[trigger] reg[i].0 != #[trigger] reg[j].0
}

pub open spec fn is_known(reg: Seq<(Seq<char>, bool)>, id: Seq<char>) -> bool {
    exists|i: int| 0 <= i < reg.len() && #[trigger] reg[i].0 == id
}

/// The source is listed, with its notifications switched off.
pub open spec fn is_disabled(reg: Seq<(Seq<char>, bool)>, id: Seq<char>) -> bool {
    exists|i: int| 0 <= i < reg.len() && #[trigger] reg[i].0 == id && !reg[i].1
}

/// The flag of a listed source; `None` for one never seen.
pub open spec fn flag_of(reg: Seq<(Seq<char>, bool)>, id: Seq<char>) -> Option<bool> {
    if is_known(reg, id) {
        Some(reg[choose|i: int| 0 <= i < reg.len() && #[trigger] reg[i].0 == id].1)
    } else {
        None
    }
}

/// Registering a source: a new one is appended, enabled; a known one changes nothing.
pub open spec fn register(reg: Seq<(Seq<char>, bool)>, id: Seq<char>) -> Seq<(Seq<char>, bool)> {
    if is_known(reg, id) {
        reg
    } else {
        reg.push((id, true))
    }
}

/// Registering each identifier of `ids` in turn.
pub open spec fn register_all(reg: Seq<(Seq<char>, bool)>, ids: Seq<Seq<char>>) -> Seq<
    (Seq<char>, bool),
>
    decreases ids.len(),
{
    if ids.len() == 0 {
        reg
    } else {
        register(register_all(reg, ids.drop_last()), ids.last())
    }
}

/// Flipping the flag at `index`; an index past the end changes nothing.
pub open spec fn toggled(reg: Seq<(Seq<char>, bool)>, index: int) -> Seq<(Seq<char>, bool)> {
    if 0 <= index < reg.len() {
        reg.update(index, (reg[index].0, !reg[index].1))
    } else {
        reg
    }
}

/// What a saved list of entries loads back as: the list itself, or nothing
/// when an identifier occurs twice.
pub open spec fn reloaded(entries: Seq<(Seq<char>, bool)>) -> Option<Seq<(Seq<char>, bool)>> {
    if unique_ids(entries) {
        Some(entries)
    } else {
        None
    }
}

/// The known sources, in the order they were first seen.
pub struct SourceRegistry {
    entries: Vec<SourceEntry>,
}

impl View for SourceRegistry {
    type V = Seq<(Seq<char>, bool)>;

    closed spec fn view(&self) -> Seq<(Seq<char>, bool)> {
        entry_views(self.entries@)
    }
}

impl SourceRegistry {
    pub open spec fn wf(&self) -> bool {
        unique_ids(self@)
    }

    pub fn new() -> (r: SourceRegistry)
        ensures
            r.wf(),
            r@ == Seq::<(Seq<char>, bool)>::empty(),
    {
        let r = SourceRegistry { entries: Vec::new() };
        assert(r@ =~= Seq::<(Seq<char>, bool)>::empty());
        r
    }

    /// A registry holding `entries` in order; `None` when an identifier occurs twice.
    pub fn from_entries(entries: Vec<SourceEntry>) -> (r: Option<SourceRegistry>)
        ensures
            r is Some <==> unique_ids(entry_views(entries@)),
            r matches Some(reg) ==> reg.wf() && reg@ == entry_views(entries@),
            r matches Some(reg) ==> Some(reg@) == reloaded(entry_views(entries@)),
    {
        let ghost v = entry_views(entries@);
        let mut i: usize = 0;
        while i < entries.len()
            invariant
                i <= entries.len(),
                v == entry_views(entries@),
                forall|a: int, b: int| 0 <= a < b < i ==> #[trigger] v[a].0 != #[trigger] v[b].0,
            decreases entries.len() - i,
        {
            let mut j: usize = 0;
            while j < i
                invariant
                    j <= i < entries.len(),
                    v == entry_views(entries@),
                    forall|a: int, b: int| 0 <= a < b < i ==> #[trigger] v[a].0 != #[trigger] v[b].0,
                    forall|a: int| 0 <= a < j ==> #[trigger] v[a].0 != v[i as int].0,
                decreases i - j,
            {
                if entries[j].source_id == entries[i].source_id {
                    assert(v[j as int].0 == v[i as int].0);
                    return None;
                }
                j += 1;
            }
            i += 1;
        }
        let r = SourceRegistry { entries };
        Some(r)
    }

    /// The registry a loaded configuration describes: its entries when they
    /// were read and no identifier repeats, else an empty registry.
    pub fn restore(loaded: Option<Vec<SourceEntry>>) -> (r: SourceRegistry)
        ensures
            r.wf(),
            r@ == (match loaded {
                Some(e) => if unique_ids(entry_views(e@)) {
                    entry_views(e@)
                } else {
                    Seq::<(Seq<char>, bool)>::empty()
                },
                None => Seq::<(Seq<char>, bool)>::empty(),
            }),
    {
        match loaded {
            Some(e) => match SourceRegistry::from_entries(e) {
                Some(reg) => reg,
                None => SourceRegistry::new(),
            },
            None => SourceRegistry::new(),
        }
    }

    /// A copy of the entries, in order, as they are saved.
    pub fn entries(&self) -> (r: Vec<SourceEntry>)
        ensures
            entry_views(r@) == self@,
    {
        let mut out: Vec<SourceEntry> = Vec::new();
        let mut i: usize = 0;
        while i < self.entries.len()
            invariant
                i <= self.entries.len(),
                entry_views(out@) == entry_views(self.entries@).take(i as int),
            decreases self.entries.len() - i,
        {
            let ghost before = out@;
            out.push(self.entries[i].duplicate());
            assert(entry_views(out@) =~= entry_views(before).push(self.entries@[i as int]@));
            assert(entry_views(self.entries@).take(i + 1) =~= entry_views(self.entries@).take(
                i as int,
            ).push(self.entries@[i as int]@));
            i += 1;
        }
        assert(entry_views(self.entries@).take(self.entries.len() as int) =~= entry_views(
            self.entries@,
        ));
        out
    }

    pub fn len(&self) -> (r: usize)
        ensures
            r == self@.len(),
    {
        self.entries.len()
    }

    /// Where `id` stands in the registry, if it is there.
    pub fn position(&self, id: &String) -> (r: Option<usize>)
        ensures
            r matches Some(i) ==> i < self@.len() && self@[i as int].0 == id@ && forall|k: int|
                0 <= k < i ==> #[trigger] self@[k].0 != id@,
            r is None <==> !is_known(self@, id@),
    {
        let ghost v = self@;
        let mut i: usize = 0;
        while i < self.entries.len()
            invariant
                i <= self.entries.len(),
                v == self@,
                v == entry_views(self.entries@),
                forall|k: int| 0 <= k < i ==> #[trigger] v[k].0 != id@,
            decreases self.entries.len() - i,
        {
            if self.entries[i].source_id == *id {
                assert(v[i as int].0 == id@);
                return Some(i);
            }
            i += 1;
        }
        None
    }

    pub fn is_known(&self, id: &String) -> (r: bool)
        ensures
            r == is_known(self@, id@),
    {
        self.position(id).is_some()
    }

    /// The flag of `id`, or `None` for a source never registered.
    pub fn is_enabled(&self, id: &String) -> (r: Option<bool>)
        requires
            self.wf(),
        ensures
            r == flag_of(self@, id@),
    {
        match self.position(id) {
            Some(i) => {
                let ghost k = choose|k: int| 0 <= k < self@.len() && #[trigger] self@[k].0 == id@;
                assert(k == i) by {
                    if k < i {
                        assert(self@[k].0 != self@[i as int].0);
                    } else if i < k {
                        assert(self@[i as int].0 != self@[k].0);
                    }
                }
                Some(self.entries[i].enabled)
            },
            None => None,
        }
    }

    /// Adds `id`, enabled, unless it is already known; true when it was added.
    pub fn register_if_new(&mut self, id: &String) -> (r: bool)
        requires
            old(self).wf(),
        ensures
            final(self).wf(),
            r == !is_known(old(self)@, id@),
            final(self)@ == register(old(self)@, id@),
    {
        match self.position(id) {
            Some(_) => false,
            None => {
                let ghost before = self.entries@;
                self.entries.push(SourceEntry { source_id: id.clone(), enabled: true });
                assert(entry_views(self.entries@) =~= entry_views(before).push((id@, true)));
                true
            },
        }
    }

    /// Flips the flag at `index`; true when `index` named an entry.
    pub fn toggle(&mut self, index: usize) -> (r: bool)
        requires
            old(self).wf(),
        ensures
            final(self).wf(),
            r == (index < old(self)@.len()),
            final(self)@ == toggled(old(self)@, index as int),
    {
        if index < self.entries.len() {
            let ghost before = self.entries@;
            let flag = self.entries[index].enabled;
            self.entries[index].enabled = !flag;
            assert(entry_views(self.entries@) =~= toggled(entry_views(before), index as int));
            true
        } else {
            false
        }
    }

    /// Forgets every source.
    pub fn clear(&mut self)
        ensures
            final(self).wf(),
            final(self)@ == Seq::<(Seq<char>, bool)>::empty(),
    {
        self.entries.clear();
        assert(entry_views(self.entries@) =~= Seq::<(Seq<char>, bool)>::empty());
    }
}

/// A registry saved as its list of entries loads back as the same ordered
/// list with the same flags.
pub proof fn lemma_saved_entries_reload(reg: SourceRegistry)
    requires
        reg.wf(),
    ensures
        reloaded(reg@) == Some(reg@),
{
}

} // verus!
