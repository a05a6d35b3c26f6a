//! The smallest dynamic cooldown contract of sites and model deployments.
//!
//! The module keeps only in-process, single-owner, bounded cooldown state and derives from it
//! an eligibility view of one routing snapshot. It parses no HTTP, `Retry-After`, error body or
//! header, and handles no account, credential, quota, secret, probe, thread, lock, database or
//! network.
use vstd::prelude::*;

use crate::ids::RouteTargetId;
use crate::route::{allowed, same_snapshot, RoutePlan, RouteTarget, RoutingSnapshot};
use crate::MAX_ROUTE_TARGETS;

verus! {

/// Fixed number of cooldown slots the registry keeps for sites.
pub const MAX_HEALTH_SITES: usize = MAX_ROUTE_TARGETS;

/// Fixed number of cooldown slots the registry keeps for model deployments.
pub const MAX_HEALTH_DEPLOYMENTS: usize = MAX_ROUTE_TARGETS;

/// A monotonic tick supplied by the caller.
///
/// The value is bound to no wall-clock unit. The registry remembers the largest tick it has
/// seen and clamps any rollback to it, so a rollback cannot lift a cooldown early.
#[derive(Clone, Copy, Debug, PartialEq, Eq, Structural, PartialOrd, Ord)]
pub struct HealthTick(u64);

impl HealthTick {
    /// Builds a tick from a caller-defined value.
    pub fn new(value: u64) -> (r: Self)
        ensures
            r.value() == value,
    {
        HealthTick(value)
    }

    /// Returns the raw tick value.
    pub fn get(self) -> (r: u64)
        ensures
            r == self.value(),
    {
        self.0
    }

    /// The raw tick value.
    pub closed spec fn value(self) -> u64 {
        self.0
    }
}

/// The smallest scope a cooldown applies to.
#[derive(Clone, Copy, Debug, PartialEq, Eq, Structural)]
pub enum RateLimitScope {
    /// Cools only the model deployment of the resolved target.
    Deployment,
    /// Cools the whole site of the resolved target.
    Site,
    /// A source that cannot be classified safely cools the site of the resolved target.
    Unknown,
}

#[derive(Clone, Copy)]
struct CooldownSlot {
    id: u64,
    until: u64,
}

/// Whether `slot` holds identifier `id` with a deadline after `t`.
spec fn holds(slot: Option<CooldownSlot>, id: u64, t: u64) -> bool {
    slot matches Some(e) && e.id == id && e.until > t
}

/// Whether `slot` holds identifier `id`.
spec fn has_id(slot: Option<CooldownSlot>, id: u64) -> bool {
    slot matches Some(e) && e.id == id
}

/// Whether `slot` is taken by another identifier than `id`.
spec fn taken_by_other(slot: Option<CooldownSlot>, id: u64) -> bool {
    slot matches Some(e) && e.id != id
}

/// Whether `slot` is taken by another identifier than `id` that still cools after `now`.
spec fn live_other(slot: Option<CooldownSlot>, id: u64, now: u64) -> bool {
    slot matches Some(e) && e.id != id && e.until > now
}

/// Whether a slot holds identifier `id` with a deadline after `t`.
spec fn slot_active(slots: Seq<Option<CooldownSlot>>, id: u64, t: u64) -> bool {
    exists|k: int| 0 <= k < slots.len() && holds(#[trigger] slots[k], id, t)
}

/// Whether no slot holds `id` and no slot is free.
spec fn no_room(slots: Seq<Option<CooldownSlot>>, id: u64) -> bool {
    forall|k: int| 0 <= k < slots.len() ==> taken_by_other(#[trigger] slots[k], id)
}

/// Whether every slot holds another identifier that is still cooling after `now`.
spec fn full_without(slots: Seq<Option<CooldownSlot>>, id: u64, now: u64) -> bool {
    forall|k: int| 0 <= k < slots.len() ==> live_other(#[trigger] slots[k], id, now)
}

/// The slots once every entry whose deadline is not after `now` has been freed.
spec fn pruned(slots: Seq<Option<CooldownSlot>>, now: u64) -> Seq<Option<CooldownSlot>> {
    Seq::new(
        slots.len(),
        |k: int|
            match slots[k] {
                Some(e) => if e.until <= now {
                    None
                } else {
                    Some(e)
                },
                None => None,
            },
    )
}

/// The larger of two ticks.
pub open spec fn later(a: u64, b: u64) -> u64 {
    if a >= b {
        a
    } else {
        b
    }
}

/// In-process, single-owner, fixed-capacity dynamic cooldown state.
///
/// A registry is owned serially by its host; it takes no lock and starts no background work.
/// When one kind of slot is full of live cooldowns, a new hit raises the global overflow
/// cooldown instead of being dropped silently.
pub struct HealthRegistry {
    last_tick: u64,
    site_cooldowns: [Option<CooldownSlot>; MAX_HEALTH_SITES],
    deployment_cooldowns: [Option<CooldownSlot>; MAX_HEALTH_DEPLOYMENTS],
    overflow_until: u64,
}

impl HealthRegistry {
    /// The largest tick the registry has observed.
    pub closed spec fn spec_last_tick(&self) -> u64 {
        self.last_tick
    }

    /// Whether site `site` is cooling at tick `t`, by its own slot or by the global overflow.
    pub closed spec fn site_blocked(&self, site: u64, t: u64) -> bool {
        self.overflow_until > t || slot_active(self.site_cooldowns@, site, t)
    }

    /// Whether deployment `id` is cooling at tick `t`, by its own slot or by the global overflow.
    pub closed spec fn deployment_blocked(&self, id: u64, t: u64) -> bool {
        self.overflow_until > t || slot_active(self.deployment_cooldowns@, id, t)
    }

    /// Whether, at tick `now`, every site slot holds another site that is still cooling.
    pub closed spec fn site_table_full(&self, site: u64, now: u64) -> bool {
        full_without(self.site_cooldowns@, site, now)
    }

    /// Whether, at tick `now`, every deployment slot holds another deployment still cooling.
    pub closed spec fn deployment_table_full(&self, id: u64, now: u64) -> bool {
        full_without(self.deployment_cooldowns@, id, now)
    }

    /// Builds a registry with no cooldown.
    pub fn new() -> (r: Self)
        ensures
            r.spec_last_tick() == 0,
            forall|x: u64, t: u64| !r.site_blocked(x, t) && !r.deployment_blocked(x, t),
    {
        let r = HealthRegistry {
            last_tick: 0,
            site_cooldowns: [None; MAX_HEALTH_SITES],
            deployment_cooldowns: [None; MAX_HEALTH_DEPLOYMENTS],
            overflow_until: 0,
        };
        assert forall|x: u64, t: u64| !r.site_blocked(x, t) && !r.deployment_blocked(x, t) by {
            assert(!slot_active(r.site_cooldowns@, x, t));
            assert(!slot_active(r.deployment_cooldowns@, x, t));
        }
        r
    }

    /// Records the cooldown that a trusted rate-limit observation reports for `target`.
    ///
    /// A deadline that is not after the clamped clock records nothing. Otherwise the
    /// deployment (for `Deployment`) or the site (for `Site` and `Unknown`) cools until the
    /// deadline, or, when its table is full of other live cooldowns, every candidate does.
    pub fn record_rate_limit(&mut self, target: RouteTarget, scope: RateLimitScope, deadline: HealthTick, now: HealthTick)
        ensures
            recorded(*old(self), *final(self), target, scope, deadline, now),
    {
        self.record_target_cooldown(target, scope, deadline, now);
    }

    /// Derives the dynamic eligibility view of `snapshot` at tick `now`.
    ///
    /// The view is bound to this snapshot instance; planning with it for another snapshot
    /// fails closed.
    pub fn eligibility_for<'s, 'c>(&mut self, snapshot: &'s RoutingSnapshot<'c>, now: HealthTick) -> (r:
        RouteEligibility<'s, 'c>)
        ensures
            granted(*old(self), *final(self), *snapshot, now, r),
    {
        let ghost old_self = *self;
        let ghost raw_now = now.value();
        let now = self.observe_now(now);
        self.prune_expired(now);
        let mut allowed_mask: u16 = 0;
        let overflow_active = self.overflow_until > now;
        let candidates = snapshot.candidates();
        let n = candidates.len();
        let mut index: usize = 0;
        proof {
            assert forall|i: u16| i < 16 implies (0u16 & (1u16 << i)) == 0 by {
                assert((0u16 & (1u16 << i)) == 0) by (bit_vector);
            }
        }
        while index < n
            invariant
                n == candidates@.len(),
                candidates@ == snapshot.spec_candidates(),
                n <= MAX_ROUTE_TARGETS,
                0 <= index <= n,
                now == later(old_self.spec_last_tick(), raw_now),
                self.last_tick == now,
                overflow_active == (self.overflow_until > now),
                forall|x: u64| #[trigger]
                    self.site_blocked(x, now) == old_self.site_blocked(x, now),
                forall|x: u64| #[trigger]
                    self.deployment_blocked(x, now) == old_self.deployment_blocked(x, now),
                forall|i: int|
                    0 <= i < index ==> (allowed(allowed_mask, i) <==> admitted(
                        old_self,
                        #[trigger] candidates@[i].spec_target(),
                        now,
                    )),
                forall|i: int| index <= i < 16 ==> !#[trigger] allowed(allowed_mask, i),
            decreases n - index,
        {
            let target = candidates[index].target();
            let site_active = Self::is_active(&self.site_cooldowns, target.site().get(), now);
            let deployment_active = Self::is_active(&self.deployment_cooldowns, target.deployment().get(), now);
            let ghost before = allowed_mask;
            proof {
                assert(self.site_blocked(target.spec_site().value(), now) == old_self.site_blocked(
                    target.spec_site().value(),
                    now,
                ));
                assert(self.deployment_blocked(target.spec_deployment().value(), now)
                    == old_self.deployment_blocked(target.spec_deployment().value(), now));
            }
            if !overflow_active && !site_active && !deployment_active {
                allowed_mask = allowed_mask | (1u16 << (index as u16));
            }
            proof {
                let j = index as u16;
                assert forall|i: int| 0 <= i < 16 implies (#[trigger] allowed(allowed_mask, i) <==> (allowed(
                    before,
                    i,
                ) || (i == index && !overflow_active && !site_active && !deployment_active))) by {
                    let b = i as u16;
                    let m = before;
                    assert(((m | (1u16 << j)) & (1u16 << b) != 0) == ((m & (1u16 << b) != 0) || b == j))
                        by (bit_vector)
                        requires
                            b < 16,
                            j < 16,
                    ;
                }
            }
            index += 1;
        }
        RouteEligibility { snapshot, allowed_mask }
    }

    fn record_target_cooldown(&mut self, target: RouteTarget, scope: RateLimitScope, until: HealthTick, now: HealthTick)
        ensures
            recorded(*old(self), *final(self), target, scope, until, now),
    {
        let ghost old_self = *self;
        let now = self.observe_now(now);
        self.prune_expired(now);
        if until.0 <= now {
            return;
        }
        match scope {
            RateLimitScope::Deployment => {
                Self::record_entry(
                    &mut self.deployment_cooldowns,
                    &mut self.overflow_until,
                    target.deployment().get(),
                    until.0,
                );
                proof {
                    assert forall|y: u64, t: u64| t >= now implies slot_active(self.site_cooldowns@, y, t)
                        == slot_active(old_self.site_cooldowns@, y, t) by {
                        lemma_pruned_active(old_self.site_cooldowns@, now, y, t);
                    }
                    assert forall|x: u64, t: u64| t >= now implies slot_active(
                        pruned(old_self.deployment_cooldowns@, now),
                        x,
                        t,
                    ) == slot_active(old_self.deployment_cooldowns@, x, t) by {
                        lemma_pruned_active(old_self.deployment_cooldowns@, now, x, t);
                    }
                    lemma_pruned_full(old_self.deployment_cooldowns@, now, target.spec_deployment().value());
                }
            },
            RateLimitScope::Site | RateLimitScope::Unknown => {
                Self::record_entry(&mut self.site_cooldowns, &mut self.overflow_until, target.site().get(), until.0);
                proof {
                    assert forall|y: u64, t: u64| t >= now implies slot_active(self.deployment_cooldowns@, y, t)
                        == slot_active(old_self.deployment_cooldowns@, y, t) by {
                        lemma_pruned_active(old_self.deployment_cooldowns@, now, y, t);
                    }
                    assert forall|x: u64, t: u64| t >= now implies slot_active(
                        pruned(old_self.site_cooldowns@, now),
                        x,
                        t,
                    ) == slot_active(old_self.site_cooldowns@, x, t) by {
                        lemma_pruned_active(old_self.site_cooldowns@, now, x, t);
                    }
                    lemma_pruned_full(old_self.site_cooldowns@, now, target.spec_site().value());
                }
            },
        }
    }

    fn observe_now(&mut self, now: HealthTick) -> (r: u64)
        ensures
            r == later(old(self).last_tick, now.value()),
            final(self).last_tick == r,
            final(self).site_cooldowns == old(self).site_cooldowns,
            final(self).deployment_cooldowns == old(self).deployment_cooldowns,
            final(self).overflow_until == old(self).overflow_until,
    {
        if now.0 > self.last_tick {
            self.last_tick = now.0;
        }
        self.last_tick
    }

    fn prune_expired(&mut self, now: u64)
        ensures
            final(self).last_tick == old(self).last_tick,
            final(self).site_cooldowns@ == pruned(old(self).site_cooldowns@, now),
            final(self).deployment_cooldowns@ == pruned(old(self).deployment_cooldowns@, now),
            final(self).overflow_until == (if old(self).overflow_until <= now {
                0
            } else {
                old(self).overflow_until
            }),
            forall|x: u64, t: u64|
                t >= now ==> #[trigger] final(self).site_blocked(x, t) == old(self).site_blocked(x, t),
            forall|x: u64, t: u64|
                t >= now ==> #[trigger] final(self).deployment_blocked(x, t) == old(self).deployment_blocked(x, t),
    {
        let ghost old_self = *self;
        Self::prune_slots(&mut self.site_cooldowns, now);
        Self::prune_slots(&mut self.deployment_cooldowns, now);
        if self.overflow_until <= now {
            self.overflow_until = 0;
        }
        proof {
            assert forall|x: u64, t: u64| t >= now implies #[trigger] self.site_blocked(x, t)
                == old_self.site_blocked(x, t) by {
                lemma_pruned_active(old_self.site_cooldowns@, now, x, t);
            }
            assert forall|x: u64, t: u64| t >= now implies #[trigger] self.deployment_blocked(x, t)
                == old_self.deployment_blocked(x, t) by {
                lemma_pruned_active(old_self.deployment_cooldowns@, now, x, t);
            }
        }
    }

    fn prune_slots(slots: &mut [Option<CooldownSlot>; MAX_ROUTE_TARGETS], now: u64)
        ensures
            final(slots)@ == pruned(old(slots)@, now),
    {
        let ghost original = slots@;
        let mut k: usize = 0;
        while k < MAX_ROUTE_TARGETS
            invariant
                original.len() == MAX_ROUTE_TARGETS,
                slots@.len() == MAX_ROUTE_TARGETS,
                0 <= k <= MAX_ROUTE_TARGETS,
                forall|j: int| 0 <= j < k ==> #[trigger] slots@[j] == pruned(original, now)[j],
                forall|j: int| k <= j < MAX_ROUTE_TARGETS ==> #[trigger] slots@[j] == original[j],
            decreases MAX_ROUTE_TARGETS - k,
        {
            let expired = match slots[k] {
                Some(e) => e.until <= now,
                None => false,
            };
            if expired {
                slots[k] = None;
            }
            k += 1;
        }
        assert(slots@ =~= pruned(original, now));
    }

    #[verifier::loop_isolation(false)]
    fn record_entry(
        slots: &mut [Option<CooldownSlot>; MAX_ROUTE_TARGETS],
        overflow_until: &mut u64,
        id: u64,
        until: u64,
    )
        ensures
            no_room(old(slots)@, id) ==> final(slots)@ == old(slots)@ && *final(overflow_until) == later(
                *old(overflow_until),
                until,
            ),
            !no_room(old(slots)@, id) ==> *final(overflow_until) == *old(overflow_until) && forall|x: u64, t: u64|
                #[trigger] slot_active(final(slots)@, x, t) == (slot_active(old(slots)@, x, t) || (x == id && until
                    > t)),
    {
        let ghost original = slots@;
        let mut k: usize = 0;
        while k < MAX_ROUTE_TARGETS
            invariant
                slots@ == original,
                original.len() == MAX_ROUTE_TARGETS,
                0 <= k <= MAX_ROUTE_TARGETS,
                forall|j: int| 0 <= j < k ==> !has_id(#[trigger] original[j], id),
            decreases MAX_ROUTE_TARGETS - k,
        {
            if let Some(existing) = slots[k] {
                if existing.id == id {
                    if until > existing.until {
                        slots[k] = Some(CooldownSlot { id, until });
                    }
                    proof {
                        assert(!no_room(original, id)) by {
                            assert(has_id(original[k as int], id));
                        }
                        assert forall|x: u64, t: u64| #[trigger] slot_active(slots@, x, t) == (slot_active(
                            original,
                            x,
                            t,
                        ) || (x == id && until > t)) by {
                            if slot_active(original, x, t) {
                                let q = choose|q: int|
                                    0 <= q < original.len() && holds(#[trigger] original[q], x, t);
                                assert(holds(slots@[q], x, t));
                            }
                            if x == id && until > t {
                                assert(holds(slots@[k as int], x, t));
                            }
                            if slot_active(slots@, x, t) {
                                let q = choose|q: int|
                                    0 <= q < slots@.len() && holds(#[trigger] slots@[q], x, t);
                                if q != k {
                                    assert(holds(original[q], x, t));
                                }
                            }
                        }
                    }
                    return;
                }
            }
            k += 1;
        }
        let mut k: usize = 0;
        while k < MAX_ROUTE_TARGETS
            invariant
                slots@ == original,
                original.len() == MAX_ROUTE_TARGETS,
                0 <= k <= MAX_ROUTE_TARGETS,
                forall|j: int| 0 <= j < MAX_ROUTE_TARGETS ==> !has_id(#[trigger] original[j], id),
                forall|j: int| 0 <= j < k ==> #[trigger] original[j] is Some,
            decreases MAX_ROUTE_TARGETS - k,
        {
            if slots[k].is_none() {
                slots[k] = Some(CooldownSlot { id, until });
                proof {
                    assert(!no_room(original, id)) by {
                        assert(original[k as int] is None);
                    }
                    assert forall|x: u64, t: u64| #[trigger] slot_active(slots@, x, t) == (slot_active(
                        original,
                        x,
                        t,
                    ) || (x == id && until > t)) by {
                        if slot_active(original, x, t) {
                            let q = choose|q: int|
                                0 <= q < original.len() && holds(#[trigger] original[q], x, t);
                            assert(holds(slots@[q], x, t));
                        }
                        if x == id && until > t {
                            assert(holds(slots@[k as int], x, t));
                        }
                        if slot_active(slots@, x, t) {
                            let q = choose|q: int|
                                0 <= q < slots@.len() && holds(#[trigger] slots@[q], x, t);
                            if q != k {
                                assert(holds(original[q], x, t));
                            }
                        }
                    }
                }
                return;
            }
            k += 1;
        }
        if until > *overflow_until {
            *overflow_until = until;
        }
    }

    fn is_active(slots: &[Option<CooldownSlot>; MAX_ROUTE_TARGETS], id: u64, now: u64) -> (r: bool)
        ensures
            r == slot_active(slots@, id, now),
    {
        let mut k: usize = 0;
        while k < MAX_ROUTE_TARGETS
            invariant
                slots@.len() == MAX_ROUTE_TARGETS,
                0 <= k <= MAX_ROUTE_TARGETS,
                forall|j: int| 0 <= j < k ==> !holds(#[trigger] slots@[j], id, now),
            decreases MAX_ROUTE_TARGETS - k,
        {
            if let Some(entry) = slots[k] {
                if entry.id == id && entry.until > now {
                    assert(holds(slots@[k as int], id, now));
                    return true;
                }
            }
            k += 1;
        }
        false
    }
}

impl Default for HealthRegistry {
    fn default() -> (r: Self)
        ensures
            r.spec_last_tick() == 0,
            forall|x: u64, t: u64| !r.site_blocked(x, t) && !r.deployment_blocked(x, t),
    {
        HealthRegistry::new()
    }
}

proof fn lemma_pruned_active(slots: Seq<Option<CooldownSlot>>, now: u64, x: u64, t: u64)
    requires
        t >= now,
    ensures
        slot_active(pruned(slots, now), x, t) == slot_active(slots, x, t),
{
    let p = pruned(slots, now);
    if slot_active(slots, x, t) {
        let q = choose|q: int| 0 <= q < slots.len() && holds(#[trigger] slots[q], x, t);
        assert(holds(p[q], x, t));
    }
    if slot_active(p, x, t) {
        let q = choose|q: int| 0 <= q < p.len() && holds(#[trigger] p[q], x, t);
        assert(holds(slots[q], x, t));
    }
}

proof fn lemma_pruned_full(slots: Seq<Option<CooldownSlot>>, now: u64, id: u64)
    ensures
        no_room(pruned(slots, now), id) == full_without(slots, id, now),
{
    let p = pruned(slots, now);
    if no_room(p, id) {
        assert forall|k: int| 0 <= k < slots.len() implies live_other(#[trigger] slots[k], id, now) by {
            assert(taken_by_other(p[k], id));
        }
    }
    if full_without(slots, id, now) {
        assert forall|k: int| 0 <= k < p.len() implies taken_by_other(#[trigger] p[k], id) by {
            assert(live_other(slots[k], id, now));
        }
    }
}

/// Whether `target` may be tried at tick `now` according to `registry`.
pub open spec fn admitted(registry: HealthRegistry, target: RouteTarget, now: u64) -> bool {
    !registry.site_blocked(target.spec_site().value(), now) && !registry.deployment_blocked(
        target.spec_deployment().value(),
        now,
    )
}

/// What `record_rate_limit` guarantees of the registry before (`r0`) and after (`r1`) it.
pub open spec fn recorded(
    r0: HealthRegistry,
    r1: HealthRegistry,
    target: RouteTarget,
    scope: RateLimitScope,
    deadline: HealthTick,
    now: HealthTick,
) -> bool {
    let n = later(r0.spec_last_tick(), now.value());
    let until = deadline.value();
    let site = target.spec_site().value();
    let dep = target.spec_deployment().value();
    &&& r1.spec_last_tick() == n
    &&& until <= n ==> forall|x: u64, t: u64|
        t >= n ==> #[trigger] r1.site_blocked(x, t) == r0.site_blocked(x, t) && r1.deployment_blocked(x, t)
            == r0.deployment_blocked(x, t)
    &&& until > n && scope == RateLimitScope::Deployment ==> {
        let full = r0.deployment_table_full(dep, n);
        &&& forall|x: u64, t: u64|
            t >= n ==> #[trigger] r1.deployment_blocked(x, t) == (r0.deployment_blocked(x, t) || (t < until && (x
                == dep || full)))
        &&& forall|x: u64, t: u64|
            t >= n ==> #[trigger] r1.site_blocked(x, t) == (r0.site_blocked(x, t) || (t < until && full))
    }
    &&& until > n && scope != RateLimitScope::Deployment ==> {
        let full = r0.site_table_full(site, n);
        &&& forall|x: u64, t: u64|
            t >= n ==> #[trigger] r1.site_blocked(x, t) == (r0.site_blocked(x, t) || (t < until && (x == site
                || full)))
        &&& forall|x: u64, t: u64|
            t >= n ==> #[trigger] r1.deployment_blocked(x, t) == (r0.deployment_blocked(x, t) || (t < until
                && full))
    }
}

/// What `eligibility_for` guarantees of the registry before (`r0`) and after (`r1`) it and of
/// the view `e` it returns for `snapshot`.
pub open spec fn granted(
    r0: HealthRegistry,
    r1: HealthRegistry,
    snapshot: RoutingSnapshot,
    now: HealthTick,
    e: RouteEligibility,
) -> bool {
    let n = later(r0.spec_last_tick(), now.value());
    let c = snapshot.spec_candidates();
    &&& r1.spec_last_tick() == n
    &&& forall|x: u64, t: u64|
        t >= n ==> #[trigger] r1.site_blocked(x, t) == r0.site_blocked(x, t) && r1.deployment_blocked(x, t)
            == r0.deployment_blocked(x, t)
    &&& e.spec_snapshot() == snapshot
    &&& forall|i: int|
        0 <= i < 16 ==> (#[trigger] allowed(e.spec_mask(), i) <==> (i < c.len() && admitted(
            r0,
            c[i].spec_target(),
            n,
        )))
}

/// Law: a recorded cooldown keeps every candidate that shares the cooled deployment (or, for a
/// site or unknown scope, the cooled site) out of the eligibility derived at any later reading
/// of the clock whose clamped value is still before the deadline; a clock rollback cannot lift
/// it, because readings are clamped to the largest tick seen.
pub proof fn lemma_cooldown_blocks_until_deadline(
    r0: HealthRegistry,
    r1: HealthRegistry,
    r2: HealthRegistry,
    target: RouteTarget,
    scope: RateLimitScope,
    deadline: HealthTick,
    now: HealthTick,
    snapshot: RoutingSnapshot,
    later_now: HealthTick,
    e: RouteEligibility,
    i: int,
)
    requires
        recorded(r0, r1, target, scope, deadline, now),
        granted(r1, r2, snapshot, later_now, e),
        deadline.value() > later(r0.spec_last_tick(), now.value()),
        later(r1.spec_last_tick(), later_now.value()) < deadline.value(),
        0 <= i < snapshot.spec_candidates().len(),
        scope == RateLimitScope::Deployment ==> snapshot.spec_candidates()[i].spec_target().spec_deployment()
            == target.spec_deployment(),
        scope != RateLimitScope::Deployment ==> snapshot.spec_candidates()[i].spec_target().spec_site()
            == target.spec_site(),
    ensures
        !allowed(e.spec_mask(), i),
{
    let n2 = later(r1.spec_last_tick(), later_now.value());
    let c = snapshot.spec_candidates()[i].spec_target();
    if scope == RateLimitScope::Deployment {
        assert(r1.deployment_blocked(c.spec_deployment().value(), n2));
    } else {
        assert(r1.site_blocked(c.spec_site().value(), n2));
    }
    if 0 <= i < 16 {
        assert(!admitted(r1, c, n2));
    }
}

/// A dynamic allow mask bound to one routing snapshot instance; callers cannot forge one.
///
/// The view only expresses site and deployment cooldowns; it selects no account or credential
/// and never re-enables a statically disabled or cooling target.
#[derive(Clone, Copy)]
pub struct RouteEligibility<'s, 'c> {
    snapshot: &'s RoutingSnapshot<'c>,
    allowed_mask: u16,
}

impl<'s, 'c> RouteEligibility<'s, 'c> {
    /// The snapshot the view was derived from.
    pub closed spec fn spec_snapshot(&self) -> RoutingSnapshot<'c> {
        *self.snapshot
    }

    /// The allow mask: bit `i` lets candidate `i` through.
    pub closed spec fn spec_mask(&self) -> u16 {
        self.allowed_mask
    }

    /// Whether the view was derived from this very snapshot instance.
    pub(crate) fn matches_snapshot(&self, snapshot: &RoutingSnapshot<'c>) -> (r: bool)
        ensures
            r ==> self.spec_snapshot() == *snapshot,
    {
        same_snapshot(self.snapshot, snapshot)
    }

    /// Returns the allow mask.
    pub(crate) fn mask(&self) -> (r: u16)
        ensures
            r == self.spec_mask(),
    {
        self.allowed_mask
    }

    /// Whether candidate `index` of the bound snapshot is allowed.
    pub fn allows_index(&self, index: usize) -> (r: bool)
        ensures
            r == (index < self.spec_snapshot().spec_candidates().len() && allowed(self.spec_mask(), index as int)),
    {
        let n = self.snapshot.candidates().len();
        index < n && (self.allowed_mask & (1u16 << (index as u16))) != 0
    }

    /// Whether the plan was produced from the same snapshot instance as the view.
    pub(crate) fn supports_plan(&self, plan: &RoutePlan<'_, 'c>) -> (r: bool)
        ensures
            r ==> self.spec_snapshot() == plan.spec_snapshot(),
    {
        same_snapshot(self.snapshot, plan.snapshot_ref())
    }

    /// Whether the view allows the candidate of the bound snapshot that carries `target`.
    pub(crate) fn allows_plan_target(&self, target: RouteTargetId) -> (r: bool)
        ensures
            r <==> exists|i: int|
                0 <= i < self.spec_snapshot().spec_candidates().len() && #[trigger] self.spec_snapshot().spec_candidates()[i].spec_target().spec_id() == target
                    && (forall|j: int| 0 <= j < i ==> self.spec_snapshot().spec_candidates()[j].spec_target().spec_id()
                    != target) && allowed(self.spec_mask(), i),
    {
        let candidates = self.snapshot.candidates();
        let mut index: usize = 0;
        while index < candidates.len()
            invariant
                candidates@ == self.spec_snapshot().spec_candidates(),
                0 <= index <= candidates@.len(),
                forall|j: int| 0 <= j < index ==> candidates@[j].spec_target().spec_id() != target,
            decreases candidates@.len() - index,
        {
            if candidates[index].target().id() == target {
                return self.allows_index(index);
            }
            index += 1;
        }
        false
    }
}

} // verus!
