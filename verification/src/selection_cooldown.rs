//! Bounded dynamic cooldowns of accounts, credentials and quota groups.
//!
//! The module keeps only in-process, single-owner cooldown state of fixed capacity. It
//! parses no HTTP, `Retry-After`, error text or header, and makes no retry, network, thread,
//! task, queue or persistent state.
use vstd::prelude::*;

use crate::health::HealthTick;
use crate::ids::SnapshotVersion;

verus! {

/// The most accounts whose cooldowns the registry tracks at once.
pub const MAX_TRACKED_ACCOUNTS: usize = 64;

/// The most credentials whose cooldowns the registry tracks at once.
pub const MAX_TRACKED_CREDENTIALS: usize = 64;

/// The most quota groups whose cooldowns the registry tracks at once.
pub const MAX_TRACKED_QUOTA_GROUPS: usize = 64;

/// One cooldown: a stable resource identifier and the tick until which it holds.
#[derive(Clone, Copy, Debug, PartialEq, Eq, Structural)]
pub struct CooldownEntry {
    pub id: u64,
    pub until: HealthTick,
}

/// Whether the identifiers of `s` strictly increase.
pub open spec fn ids_increase(s: Seq<CooldownEntry>) -> bool {
    forall|i: int, j: int| 0 <= i < j < s.len() ==> #[trigger] s[i].id < #[trigger] s[j].id
}

/// The entries of `s` still in force after `now`, in order.
pub open spec fn unexpired(s: Seq<CooldownEntry>, now: HealthTick) -> Seq<CooldownEntry>
    decreases s.len(),
{
    if s.len() == 0 {
        Seq::empty()
    } else {
        let p = unexpired(s.drop_last(), now);
        if s.last().until.value() > now.value() {
            p.push(s.last())
        } else {
            p
        }
    }
}

/// Whether `s` holds an entry for `id`.
pub open spec fn holds_id(s: Seq<CooldownEntry>, id: u64) -> bool {
    exists|i: int| 0 <= i < s.len() && #[trigger] s[i].id == id
}

/// The deadline `s` holds for `id`, if any.
pub open spec fn deadline_of(s: Seq<CooldownEntry>, id: u64) -> Option<HealthTick> {
    if holds_id(s, id) {
        Some(s[choose|i: int| 0 <= i < s.len() && #[trigger] s[i].id == id].until)
    } else {
        None
    }
}

/// The later of two ticks.
pub open spec fn later(a: HealthTick, b: HealthTick) -> HealthTick {
    if a.value() >= b.value() {
        a
    } else {
        b
    }
}

proof fn lemma_unexpired_facts(s: Seq<CooldownEntry>, now: HealthTick)
    requires
        ids_increase(s),
    ensures
        ids_increase(unexpired(s, now)),
        unexpired(s, now).len() <= s.len(),
        forall|x: u64|
            #[trigger] deadline_of(unexpired(s, now), x) == match deadline_of(s, x) {
                Some(t) => if t.value() > now.value() {
                    Some(t)
                } else {
                    None
                },
                None => None,
            },
        forall|k: int|
            0 <= k < unexpired(s, now).len() ==> exists|i: int| 0 <= i < s.len() && s[i] == #[trigger] unexpired(s, now)[k],
    decreases s.len(),
{
    if s.len() > 0 {
        let d = s.drop_last();
        assert(ids_increase(d));
        lemma_unexpired_facts(d, now);
        let p = unexpired(d, now);
        assert forall|k: int| 0 <= k < unexpired(s, now).len() implies exists|i: int|
            0 <= i < s.len() && s[i] == #[trigger] unexpired(s, now)[k] by {
            if k < p.len() {
                let i = choose|i: int| 0 <= i < d.len() && d[i] == #[trigger] p[k];
                assert(s[i] == d[i]);
            } else {
                assert(s[s.len() - 1] == s.last());
            }
        }
        if s.last().until.value() > now.value() {
            assert forall|i: int, j: int| 0 <= i < j < unexpired(s, now).len() implies #[trigger] unexpired(s, now)[i].id
                < #[trigger] unexpired(s, now)[j].id by {
                if j == p.len() {
                    let a = choose|a: int| 0 <= a < d.len() && d[a] == #[trigger] p[i];
                    assert(s[a] == d[a]);
                }
            }
        }
        assert forall|x: u64| #[trigger] deadline_of(unexpired(s, now), x) == match deadline_of(s, x) {
            Some(t) => if t.value() > now.value() {
                Some(t)
            } else {
                None
            },
            None => None,
        } by {
            let u = unexpired(s, now);
            if holds_id(s, x) {
                let c = choose|i: int| 0 <= i < s.len() && #[trigger] s[i].id == x;
                if c == s.len() - 1 {
                    assert(!holds_id(d, x)) by {
                        if holds_id(d, x) {
                            let e = choose|i: int| 0 <= i < d.len() && #[trigger] d[i].id == x;
                            assert(s[e].id == x);
                        }
                    }
                    if s.last().until.value() > now.value() {
                        assert(u[u.len() - 1].id == x);
                        assert(holds_id(u, x));
                        let f = choose|i: int| 0 <= i < u.len() && #[trigger] u[i].id == x;
                        if f < u.len() - 1 {
                            assert(u[f] == p[f]);
                            assert(deadline_of(p, x) is Some);
                        }
                    } else {
                        assert(u == p);
                    }
                } else {
                    assert(d[c].id == x);
                    assert(holds_id(d, x));
                    let e = choose|i: int| 0 <= i < d.len() && #[trigger] d[i].id == x;
                    assert(e == c) by {
                        if e != c {
                            assert(s[e].id == x && s[c].id == x);
                        }
                    }
                    if s.last().until.value() > now.value() {
                        assert(s.last().id != x) by {
                            assert(s[c].id < s[s.len() - 1].id);
                        }
                        if holds_id(p, x) {
                            let f = choose|i: int| 0 <= i < u.len() && #[trigger] u[i].id == x;
                            let g = choose|i: int| 0 <= i < p.len() && #[trigger] p[i].id == x;
                            assert(u[g] == p[g]);
                            if f != g {
                                if f < g {
                                    assert(u[f].id < u[g].id);
                                } else {
                                    assert(u[g].id < u[f].id);
                                }
                            }
                        } else {
                            assert(!holds_id(u, x)) by {
                                if holds_id(u, x) {
                                    let f = choose|i: int| 0 <= i < u.len() && #[trigger] u[i].id == x;
                                    assert(f < p.len());
                                    assert(u[f] == p[f]);
                                }
                            }
                        }
                    }
                }
            } else {
                assert(!holds_id(d, x)) by {
                    if holds_id(d, x) {
                        let e = choose|i: int| 0 <= i < d.len() && #[trigger] d[i].id == x;
                        assert(s[e].id == x);
                    }
                }
                assert(!holds_id(u, x)) by {
                    if holds_id(u, x) {
                        let f = choose|i: int| 0 <= i < u.len() && #[trigger] u[i].id == x;
                        if f < p.len() {
                            assert(u[f] == p[f]);
                        } else {
                            assert(u[f] == s.last());
                            assert(s[s.len() - 1].id == x);
                        }
                    }
                }
            }
        }
    }
}

/// A dense, ordered cooldown table of fixed capacity.
///
/// Lookups search by bisection. An expired entry never counts on the read path, and is
/// reclaimed on the next write to the same table.
pub struct CooldownTable {
    entries: Vec<CooldownEntry>,
    capacity: usize,
}

impl CooldownTable {
    #[verifier::type_invariant]
    spec fn inv(self) -> bool {
        self.entries@.len() <= self.capacity && ids_increase(self.entries@)
    }

    /// The entries, in increasing identifier order.
    pub closed spec fn spec_entries(&self) -> Seq<CooldownEntry> {
        self.entries@
    }

    /// The capacity.
    pub closed spec fn spec_capacity(&self) -> usize {
        self.capacity
    }

    /// Makes an empty table of `capacity` slots.
    pub fn new(capacity: usize) -> (r: Self)
        ensures
            r.spec_entries().len() == 0,
            r.spec_capacity() == capacity,
    {
        CooldownTable { entries: Vec::new(), capacity }
    }

    /// Whether the table holds `id` and its cooldown lasts past `now`.
    pub fn is_active(&self, id: u64, now: HealthTick) -> (r: bool)
        ensures
            r == (deadline_of(self.spec_entries(), id) matches Some(t) && t.value() > now.value()),
    {
        match self.find(id) {
            Ok(index) => self.entries[index].until.get() > now.get(),
            Err(_) => false,
        }
    }

    /// Bisects for `id`: its index, or where it would go.
    fn find(&self, id: u64) -> (r: Result<usize, usize>)
        ensures
            match r {
                Ok(i) => i < self.spec_entries().len() && self.spec_entries()[i as int].id == id && deadline_of(
                    self.spec_entries(),
                    id,
                ) == Some(self.spec_entries()[i as int].until),
                Err(i) => i <= self.spec_entries().len() && !holds_id(self.spec_entries(), id) && (forall|k: int|
                    0 <= k < i ==> #[trigger] self.spec_entries()[k].id < id) && (forall|k: int|
                    i <= k < self.spec_entries().len() ==> #[trigger] self.spec_entries()[k].id > id),
            },
    {
        proof {
            use_type_invariant(self);
        }
        let mut low: usize = 0;
        let mut high: usize = self.entries.len();
        while low < high
            invariant
                0 <= low <= high <= self.entries@.len(),
                ids_increase(self.entries@),
                forall|k: int| 0 <= k < low ==> #[trigger] self.entries@[k].id < id,
                forall|k: int| high <= k < self.entries@.len() ==> #[trigger] self.entries@[k].id > id,
            decreases high - low,
        {
            let middle = low + (high - low) / 2;
            let m = self.entries[middle].id;
            if m < id {
                low = middle + 1;
            } else if m > id {
                high = middle;
            } else {
                proof {
                    let s = self.entries@;
                    let c = choose|i: int| 0 <= i < s.len() && #[trigger] s[i].id == id;
                    if c != middle {
                        if c < middle {
                            assert(s[c].id < s[middle as int].id);
                        } else {
                            assert(s[middle as int].id < s[c].id);
                        }
                    }
                }
                return Ok(middle);
            }
        }
        Err(low)
    }

    fn prune_expired(&mut self, now: HealthTick)
        ensures
            final(self).spec_entries() == unexpired(old(self).spec_entries(), now),
            final(self).spec_capacity() == old(self).spec_capacity(),
    {
        proof {
            use_type_invariant(&*self);
            lemma_unexpired_facts(self.entries@, now);
        }
        let ghost s = self.entries@;
        let mut kept: Vec<CooldownEntry> = Vec::new();
        let mut i: usize = 0;
        while i < self.entries.len()
            invariant
                0 <= i <= s.len(),
                self.entries@ == s,
                kept@ == unexpired(s.take(i as int), now),
            decreases s.len() - i,
        {
            let entry = self.entries[i];
            proof {
                assert(s.take(i + 1).drop_last() =~= s.take(i as int));
                assert(s.take(i + 1).last() == entry);
            }
            if entry.until.get() > now.get() {
                kept.push(entry);
            }
            i += 1;
        }
        proof {
            assert(s.take(s.len() as int) =~= s);
        }
        self.entries = kept;
    }

    /// Records a cooldown until `until`: the later deadline for a known `id`, or a new entry.
    /// Expired entries are reclaimed first. Returns `true` where no slot is free; the caller
    /// must then raise the global overflow cooldown.
    pub fn record(&mut self, id: u64, until: HealthTick, now: HealthTick) -> (full: bool)
        ensures
            ({
                let p = unexpired(old(self).spec_entries(), now);
                &&& full == (!holds_id(p, id) && p.len() >= old(self).spec_capacity())
                &&& final(self).spec_capacity() == old(self).spec_capacity()
                &&& final(self).spec_entries().len() == if holds_id(p, id) || full {
                    p.len()
                } else {
                    p.len() + 1
                }
                &&& forall|x: u64|
                    #[trigger] deadline_of(final(self).spec_entries(), x) == if x == id && !full {
                        match deadline_of(p, id) {
                            Some(t) => Some(later(t, until)),
                            None => Some(until),
                        }
                    } else {
                        deadline_of(p, x)
                    }
            }),
    {
        proof {
            use_type_invariant(&*self);
            lemma_unexpired_facts(self.entries@, now);
        }
        self.prune_expired(now);
        proof {
            use_type_invariant(&*self);
        }
        let ghost p = self.entries@;
        match self.find(id) {
            Ok(index) => {
                if until.get() > self.entries[index].until.get() {
                    let entry = CooldownEntry { id, until };
                    let mut entries: Vec<CooldownEntry> = Vec::new();
                    std::mem::swap(&mut entries, &mut self.entries);
                    entries.set(index, entry);
                    proof {
                        let s = entries@;
                        assert forall|x: u64| #[trigger] deadline_of(s, x) == if x == id {
                            Some(later(p[index as int].until, until))
                        } else {
                            deadline_of(p, x)
                        } by {
                            if x == id {
                                assert(s[index as int].id == id);
                                let c = choose|i: int| 0 <= i < s.len() && #[trigger] s[i].id == id;
                                if c != index {
                                    assert(p[c].id == id);
                                    assert(p[c].id != p[index as int].id) by {
                                        if c < index {
                                            assert(p[c].id < p[index as int].id);
                                        } else {
                                            assert(p[index as int].id < p[c].id);
                                        }
                                    }
                                }
                            } else {
                                if holds_id(s, x) {
                                    let c = choose|i: int| 0 <= i < s.len() && #[trigger] s[i].id == x;
                                    assert(p[c].id == x);
                                    let d = choose|i: int| 0 <= i < p.len() && #[trigger] p[i].id == x;
                                    assert(d == c) by {
                                        if d < c {
                                            assert(p[d].id < p[c].id);
                                        } else if c < d {
                                            assert(p[c].id < p[d].id);
                                        }
                                    }
                                } else {
                                    assert(!holds_id(p, x)) by {
                                        if holds_id(p, x) {
                                            let d = choose|i: int| 0 <= i < p.len() && #[trigger] p[i].id == x;
                                            assert(s[d].id == x);
                                        }
                                    }
                                }
                            }
                        }
                        assert(ids_increase(s)) by {
                            assert forall|i: int, j: int| 0 <= i < j < s.len() implies #[trigger] s[i].id < #[trigger] s[j].id by {
                                assert(p[i].id < p[j].id);
                            }
                        }
                    }
                    self.entries = entries;
                }
                false
            },
            Err(index) => {
                if self.entries.len() < self.capacity {
                    let entry = CooldownEntry { id, until };
                    let mut entries: Vec<CooldownEntry> = Vec::new();
                    std::mem::swap(&mut entries, &mut self.entries);
                    entries.insert(index, entry);
                    proof {
                        let s = entries@;
                        assert(s == p.insert(index as int, entry));
                        assert(ids_increase(s)) by {
                            assert forall|i: int, j: int| 0 <= i < j < s.len() implies #[trigger] s[i].id < #[trigger] s[j].id by {
                                if j < index {
                                    assert(p[i].id < p[j].id);
                                } else if j == index {
                                    assert(p[i].id < id);
                                } else if i < index {
                                    assert(p[i].id < id && p[j - 1].id > id);
                                } else if i == index {
                                    assert(p[j - 1].id > id);
                                } else {
                                    assert(p[i - 1].id < p[j - 1].id);
                                }
                            }
                        }
                        assert forall|x: u64| #[trigger] deadline_of(s, x) == if x == id {
                            Some(until)
                        } else {
                            deadline_of(p, x)
                        } by {
                            if x == id {
                                assert(s[index as int].id == id);
                                let c = choose|i: int| 0 <= i < s.len() && #[trigger] s[i].id == id;
                                if c != index {
                                    if c < index {
                                        assert(s[c].id < s[index as int].id);
                                    } else {
                                        assert(s[index as int].id < s[c].id);
                                    }
                                }
                            } else if holds_id(s, x) {
                                let c = choose|i: int| 0 <= i < s.len() && #[trigger] s[i].id == x;
                                let k = if c < index {
                                    c
                                } else {
                                    c - 1
                                };
                                assert(p[k] == s[c]);
                                let d = choose|i: int| 0 <= i < p.len() && #[trigger] p[i].id == x;
                                assert(d == k) by {
                                    if d < k {
                                        assert(p[d].id < p[k].id);
                                    } else if k < d {
                                        assert(p[k].id < p[d].id);
                                    }
                                }
                            } else {
                                assert(!holds_id(p, x)) by {
                                    if holds_id(p, x) {
                                        let d = choose|i: int| 0 <= i < p.len() && #[trigger] p[i].id == x;
                                        if d < index {
                                            assert(s[d].id == x);
                                        } else {
                                            assert(s[d + 1].id == x);
                                        }
                                    }
                                }
                            }
                        }
                    }
                    self.entries = entries;
                    false
                } else {
                    true
                }
            },
        }
    }
}

/// The resource table that a cooldown applies to.
#[derive(Clone, Copy, Debug, PartialEq, Eq, Structural)]
pub enum ResourceTable {
    Account,
    Credential,
    QuotaGroup,
}

/// The in-process, single-owner, fixed-capacity registry of resource cooldowns.
///
/// It keeps state by stable account, credential and quota group identifiers within one
/// monotonic snapshot version. The first entry of a higher version clears all older
/// cooldowns at once; a late observation or request of a lower version is refused and cannot
/// roll the current generation back. A table that runs out of slots while cooldowns remain
/// raises the global overflow cooldown.
pub struct SelectionCooldownRegistry {
    last_tick: HealthTick,
    generation: Option<SnapshotVersion>,
    accounts: CooldownTable,
    credentials: CooldownTable,
    quota_groups: CooldownTable,
    overflow_until: HealthTick,
}

impl SelectionCooldownRegistry {
    /// The largest tick seen.
    pub closed spec fn spec_last_tick(&self) -> HealthTick {
        self.last_tick
    }

    /// The active generation.
    pub closed spec fn spec_generation(&self) -> Option<SnapshotVersion> {
        self.generation
    }

    /// The table of `table`.
    pub closed spec fn spec_table(&self, table: ResourceTable) -> CooldownTable {
        match table {
            ResourceTable::Account => self.accounts,
            ResourceTable::Credential => self.credentials,
            ResourceTable::QuotaGroup => self.quota_groups,
        }
    }

    /// The global overflow cooldown.
    pub closed spec fn spec_overflow_until(&self) -> HealthTick {
        self.overflow_until
    }

    /// Makes a registry without any resource cooldown.
    pub fn new() -> (r: Self)
        ensures
            r.spec_last_tick().value() == 0,
            r.spec_generation() is None,
            r.spec_overflow_until().value() == 0,
            r.spec_table(ResourceTable::Account).spec_entries().len() == 0,
            r.spec_table(ResourceTable::Account).spec_capacity() == MAX_TRACKED_ACCOUNTS,
            r.spec_table(ResourceTable::Credential).spec_entries().len() == 0,
            r.spec_table(ResourceTable::Credential).spec_capacity() == MAX_TRACKED_CREDENTIALS,
            r.spec_table(ResourceTable::QuotaGroup).spec_entries().len() == 0,
            r.spec_table(ResourceTable::QuotaGroup).spec_capacity() == MAX_TRACKED_QUOTA_GROUPS,
    {
        SelectionCooldownRegistry {
            last_tick: HealthTick::new(0),
            generation: None,
            accounts: CooldownTable::new(MAX_TRACKED_ACCOUNTS),
            credentials: CooldownTable::new(MAX_TRACKED_CREDENTIALS),
            quota_groups: CooldownTable::new(MAX_TRACKED_QUOTA_GROUPS),
            overflow_until: HealthTick::new(0),
        }
    }

    /// Returns the table of `table`.
    pub fn table(&self, table: ResourceTable) -> (r: &CooldownTable)
        ensures
            *r == self.spec_table(table),
    {
        match table {
            ResourceTable::Account => &self.accounts,
            ResourceTable::Credential => &self.credentials,
            ResourceTable::QuotaGroup => &self.quota_groups,
        }
    }

    /// Returns the global overflow cooldown.
    pub fn overflow_until(&self) -> (r: HealthTick)
        ensures
            r == self.spec_overflow_until(),
    {
        self.overflow_until
    }

    /// Clamps `now` to the largest tick seen, so a clock rollback cannot lift a cooldown
    /// early.
    pub fn observe_now(&mut self, now: HealthTick) -> (r: HealthTick)
        ensures
            final(self).spec_last_tick() == later(old(self).spec_last_tick(), now),
            r == final(self).spec_last_tick(),
            final(self).spec_generation() == old(self).spec_generation(),
            final(self).spec_overflow_until() == old(self).spec_overflow_until(),
            forall|t: ResourceTable| #[trigger] final(self).spec_table(t) == old(self).spec_table(t),
    {
        if now.get() > self.last_tick.get() {
            self.last_tick = now;
        }
        self.last_tick
    }

    /// Activates a higher immutable generation and refuses any input that would roll back to
    /// a lower one. A higher generation clears every table and the overflow cooldown.
    pub fn activate_generation(&mut self, generation: SnapshotVersion) -> (r: bool)
        ensures
            r == match old(self).spec_generation() {
                None => true,
                Some(active) => generation.value() >= active.value(),
            },
            r ==> final(self).spec_generation() == Some(generation),
            !r ==> final(self).spec_generation() == old(self).spec_generation(),
            final(self).spec_last_tick() == old(self).spec_last_tick(),
            (match old(self).spec_generation() {
                Some(active) => generation.value() > active.value(),
                None => false,
            }) ==> final(self).spec_overflow_until().value() == 0 && forall|t: ResourceTable|
                #[trigger] final(self).spec_table(t).spec_entries().len() == 0 && final(self).spec_table(
                    t,
                ).spec_capacity() == old(self).spec_table(t).spec_capacity(),
            !(match old(self).spec_generation() {
                Some(active) => generation.value() > active.value(),
                None => false,
            }) ==> final(self).spec_overflow_until() == old(self).spec_overflow_until() && forall|t: ResourceTable|
                #[trigger] final(self).spec_table(t) == old(self).spec_table(t),
    {
        match self.generation {
            None => {
                self.generation = Some(generation);
                true
            },
            Some(active) => {
                if generation.get() == active.get() {
                    proof {
                        SnapshotVersion::lemma_value_injective(generation, active);
                    }
                    true
                } else if generation.get() > active.get() {
                    self.generation = Some(generation);
                    self.accounts = CooldownTable::new(self.accounts.capacity);
                    self.credentials = CooldownTable::new(self.credentials.capacity);
                    self.quota_groups = CooldownTable::new(self.quota_groups.capacity);
                    self.overflow_until = HealthTick::new(0);
                    true
                } else {
                    false
                }
            },
        }
    }

    /// Records one cooldown in `table`; a full table raises the global overflow cooldown to
    /// `until` where that is later.
    pub fn record_entry(&mut self, table: ResourceTable, id: u64, until: HealthTick, now: HealthTick)
        ensures
            ({
                let p = unexpired(old(self).spec_table(table).spec_entries(), now);
                let full = !holds_id(p, id) && p.len() >= old(self).spec_table(table).spec_capacity();
                &&& final(self).spec_overflow_until() == if full && until.value() > old(
                    self,
                ).spec_overflow_until().value() {
                    until
                } else {
                    old(self).spec_overflow_until()
                }
                &&& forall|x: u64|
                    #[trigger] deadline_of(final(self).spec_table(table).spec_entries(), x) == if x == id && !full {
                        match deadline_of(p, id) {
                            Some(t) => Some(later(t, until)),
                            None => Some(until),
                        }
                    } else {
                        deadline_of(p, x)
                    }
                &&& final(self).spec_table(table).spec_capacity() == old(self).spec_table(table).spec_capacity()
                &&& forall|t: ResourceTable| t != table ==> #[trigger] final(self).spec_table(t) == old(self).spec_table(t)
                &&& final(self).spec_generation() == old(self).spec_generation()
                &&& final(self).spec_last_tick() == old(self).spec_last_tick()
            }),
    {
        let full = match table {
            ResourceTable::Account => self.accounts.record(id, until, now),
            ResourceTable::Credential => self.credentials.record(id, until, now),
            ResourceTable::QuotaGroup => self.quota_groups.record(id, until, now),
        };
        if full && until.get() > self.overflow_until.get() {
            self.overflow_until = until;
        }
    }
}

} // verus!
