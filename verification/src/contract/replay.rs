//! Bounded, atomic and fail-closed consumption of one-shot nonces.
use vstd::prelude::*;

use crate::contract::error::NonceReject;
use crate::contract::ids::{IssuerEpoch, OneShotNonce};

verus! {

/// Each kind of proof replays in a namespace of its own.
#[derive(Clone, Copy, Debug, PartialEq, Eq, Structural, Hash)]
pub enum NonceNamespace {
    /// Managed context attestation nonces.
    ManagedAttestation,
    /// Fixed single-deployment capability authorization nonces.
    CapabilityAuthorization,
}

/// The host port that consumes one-shot nonces atomically.
///
/// An implementation must not split the check from the insertion, must treat the time it is
/// given as a non-decreasing high-water mark, and must never revive an expired nonce because
/// its own clock or storage went back.
pub trait OneShotNonceStore: Sized {
    /// Whether one consumption of `nonce` in `namespace` and `issuer_epoch`, expiring at
    /// `expires_at_millis` and presented at `now_millis`, takes the store from `before` to
    /// `after` with the result `r`; each verified store states its own rule, and a store that
    /// states none promises nothing.
    closed spec fn consumes(
        before: Self,
        after: Self,
        namespace: NonceNamespace,
        issuer_epoch: IssuerEpoch,
        nonce: OneShotNonce,
        expires_at_millis: u64,
        now_millis: u64,
        r: Result<(), NonceReject>,
    ) -> bool {
        true
    }

    /// Consumes a nonce atomically, by the store's own rule.
    fn consume(
        &mut self,
        namespace: NonceNamespace,
        issuer_epoch: IssuerEpoch,
        nonce: OneShotNonce,
        expires_at_millis: u64,
        now_millis: u64,
    ) -> (r: Result<(), NonceReject>)
        ensures
            Self::consumes(*old(self), *final(self), namespace, issuer_epoch, nonce, expires_at_millis, now_millis, r),
    ;
}

#[derive(Clone, Copy)]
struct NonceEntry {
    namespace: NonceNamespace,
    issuer_epoch: u64,
    nonce: [u8; 16],
    expires_at_millis: u64,
}

/// What a stored entry records: namespace, issuing epoch, nonce bytes and expiry.
pub type NonceRecord = (NonceNamespace, u64, Seq<u8>, u64);

spec fn record_of(e: NonceEntry) -> NonceRecord {
    (e.namespace, e.issuer_epoch, e.nonce@, e.expires_at_millis)
}

/// The records whose expiry is after the high-water mark `hw`.
pub open spec fn live(records: Seq<NonceRecord>, hw: u64) -> Seq<NonceRecord> {
    records.filter(|r: NonceRecord| r.3 > hw)
}

/// Whether `records` hold the key made of `namespace`, `epoch` and `nonce`.
pub open spec fn holds_key(records: Seq<NonceRecord>, namespace: NonceNamespace, epoch: u64, nonce: Seq<u8>) -> bool {
    exists|i: int|
        0 <= i < records.len() && #[trigger] records[i].0 == namespace && records[i].1 == epoch && records[i].2
            == nonce
}

/// The larger of two instants.
/// Whether two records are for one key: the same namespace, epoch and nonce.
pub open spec fn same_key(a: NonceRecord, b: NonceRecord) -> bool {
    a.0 == b.0 && a.1 == b.1 && a.2 == b.2
}

/// Whether no key occurs twice among the records.
pub open spec fn keys_distinct(records: Seq<NonceRecord>) -> bool {
    forall|i: int, j: int| 0 <= i < j < records.len() ==> !same_key(#[trigger] records[i], #[trigger] records[j])
}

/// Keeping some of the records keeps their keys distinct, and keeps only records that were
/// there.
proof fn lemma_filter_keeps_keys_distinct(s: Seq<NonceRecord>, p: spec_fn(NonceRecord) -> bool)
    requires
        keys_distinct(s),
    ensures
        keys_distinct(s.filter(p)),
        forall|i: int| 0 <= i < s.filter(p).len() ==> s.contains(#[trigger] s.filter(p)[i]),
    decreases s.len(),
{
    reveal(Seq::filter);
    if s.len() > 0 {
        let d = s.drop_last();
        assert forall|i: int, j: int| 0 <= i < j < d.len() implies !same_key(#[trigger] d[i], #[trigger] d[j]) by {
            assert(d[i] == s[i] && d[j] == s[j]);
        }
        lemma_filter_keeps_keys_distinct(d, p);
        let f = d.filter(p);
        assert forall|i: int| 0 <= i < f.len() implies s.contains(#[trigger] f[i]) by {
            assert(d.contains(f[i]));
            let k = choose|k: int| 0 <= k < d.len() && d[k] == f[i];
            assert(s[k] == f[i]);
        }
        if p(s.last()) {
            let out = f.push(s.last());
            assert(s.filter(p) == out);
            assert forall|i: int, j: int| 0 <= i < j < out.len() implies !same_key(#[trigger] out[i], #[trigger] out[j]) by {
                if j < f.len() {
                    assert(out[i] == f[i] && out[j] == f[j]);
                } else {
                    assert(out[i] == f[i]);
                    assert(d.contains(f[i]));
                    let k = choose|k: int| 0 <= k < d.len() && d[k] == f[i];
                    assert(s[k] == f[i]);
                    assert(out[j] == s[s.len() - 1]);
                    assert(!same_key(s[k], s[s.len() - 1]));
                }
            }
            assert forall|i: int| 0 <= i < out.len() implies s.contains(#[trigger] out[i]) by {
                if i < f.len() {
                    assert(out[i] == f[i]);
                } else {
                    assert(out[i] == s[s.len() - 1]);
                }
            }
        }
    }
}

pub open spec fn max_millis(a: u64, b: u64) -> u64 {
    if a >= b {
        a
    } else {
        b
    }
}

/// The single-lock, bounded in-memory nonce store.
///
/// Expired entries are dropped, the replay and capacity checks run and the insertion happens
/// in one step; a full store never evicts a live entry.
pub struct MemoryNonceStore {
    capacity: usize,
    entries: Vec<NonceEntry>,
    high_water_millis: u64,
}

impl MemoryNonceStore {
    /// The fixed capacity.
    pub closed spec fn spec_capacity(&self) -> usize {
        self.capacity
    }

    /// The largest instant ever observed.
    pub closed spec fn spec_high_water(&self) -> u64 {
        self.high_water_millis
    }

    /// The stored records, in insertion order.
    pub closed spec fn spec_records(&self) -> Seq<NonceRecord> {
        self.entries@.map_values(|e: NonceEntry| record_of(e))
    }

    #[verifier::type_invariant]
    closed spec fn inv(&self) -> bool {
        &&& self.capacity >= 1
        &&& self.entries@.len() <= self.capacity
        &&& keys_distinct(self.spec_records())
    }

    /// Builds a bounded store; a zero capacity is refused at once.
    pub fn new(capacity: usize) -> (r: Result<Self, NonceReject>)
        ensures
            capacity == 0 <==> r is Err,
            r is Err ==> r == Err::<Self, NonceReject>(NonceReject::CapacityExhausted),
            r matches Ok(s) ==> s.spec_capacity() == capacity && s.spec_high_water() == 0 && s.spec_records()
                == Seq::<NonceRecord>::empty(),
    {
        if capacity == 0 {
            return Err(NonceReject::CapacityExhausted);
        }
        let s = MemoryNonceStore { capacity, entries: Vec::new(), high_water_millis: 0 };
        assert(s.spec_records() =~= Seq::<NonceRecord>::empty());
        Ok(s)
    }

    /// The number of stored entries, no key of which occurs twice.
    pub fn len(&self) -> (r: usize)
        ensures
            r == self.spec_records().len(),
            r <= self.spec_capacity(),
            keys_distinct(self.spec_records()),
    {
        proof {
            use_type_invariant(self);
        }
        self.entries.len()
    }

    /// Whether the store holds no entry.
    pub fn is_empty(&self) -> (r: bool)
        ensures
            r == (self.spec_records().len() == 0),
    {
        self.entries.len() == 0
    }

    /// Consumes a nonce in one step.
    ///
    /// The high-water mark first rises to `now_millis` if that is later; a nonce that expires
    /// no later than the mark is refused as expired, entries that expired are dropped, a key
    /// that is still stored is refused as replayed, and a full store refuses new keys.
    #[verifier::loop_isolation(false)]
    pub fn consume(
        &mut self,
        namespace: NonceNamespace,
        issuer_epoch: IssuerEpoch,
        nonce: OneShotNonce,
        expires_at_millis: u64,
        now_millis: u64,
    ) -> (r: Result<(), NonceReject>)
        ensures
            consumed(
                *old(self),
                *final(self),
                namespace,
                issuer_epoch.value(),
                nonce.bytes(),
                expires_at_millis,
                now_millis,
                r,
            ),
    {
        proof {
            use_type_invariant(&*self);
        }
        let ghost before = self.spec_records();
        if now_millis > self.high_water_millis {
            self.high_water_millis = now_millis;
        }
        let effective_now = self.high_water_millis;
        if expires_at_millis <= effective_now {
            return Err(NonceReject::Expired);
        }
        let ghost settled = *self;
        let ghost pred = |r: NonceRecord| r.3 > effective_now;
        let mut kept: Vec<NonceEntry> = Vec::new();
        let mut i: usize = 0;
        let n = self.entries.len();
        while i < n
            invariant
                n == self.entries@.len(),
                before == self.spec_records(),
                0 <= i <= n,
                n <= self.capacity,
                kept@.len() <= i,
                kept@.map_values(|e: NonceEntry| record_of(e)) == before.take(i as int).filter(pred),
                pred == (|r: NonceRecord| r.3 > effective_now),
                *self == settled,
                settled.capacity >= 1,
                settled.high_water_millis == effective_now,
            decreases n - i,
        {
            let entry = self.entries[i];
            proof {
                reveal(Seq::filter);
                assert(before.take(i as int + 1).drop_last() =~= before.take(i as int));
                assert(before.take(i as int + 1).last() == record_of(entry));
            }
            if entry.expires_at_millis > effective_now {
                kept.push(entry);
                proof {
                    assert(kept@.map_values(|e: NonceEntry| record_of(e)) =~= before.take(i as int).filter(
                        pred,
                    ).push(record_of(entry)));
                }
            }
            i += 1;
        }
        proof {
            assert(before.take(n as int) =~= before);
        }
        let ghost live_records = live(before, effective_now);
        assert(kept@.map_values(|e: NonceEntry| record_of(e)) == live_records);
        proof {
            lemma_filter_keeps_keys_distinct(before, pred);
        }
        let nonce_bytes = nonce.as_bytes();
        let epoch = issuer_epoch.get();
        let mut j: usize = 0;
        while j < kept.len()
            invariant
                0 <= j <= kept@.len(),
                kept@.map_values(|e: NonceEntry| record_of(e)) == live_records,
                nonce_bytes@ == nonce.bytes(),
                epoch == issuer_epoch.value(),
                *self == settled,
                settled.capacity >= 1,
                settled.high_water_millis == effective_now,
                kept@.len() <= settled.capacity,
                forall|k: int|
                    0 <= k < j ==> !(#[trigger] live_records[k].0 == namespace && live_records[k].1 == epoch
                        && live_records[k].2 == nonce_bytes@),
            decreases kept@.len() - j,
        {
            let entry = kept[j];
            assert(live_records[j as int] == record_of(entry));
            if entry.namespace == namespace && entry.issuer_epoch == epoch && same_bytes(&entry.nonce, nonce_bytes) {
                assert(live_records[j as int].0 == namespace && live_records[j as int].1 == epoch
                    && live_records[j as int].2 == nonce_bytes@);
                assert(holds_key(live_records, namespace, epoch, nonce_bytes@));
                self.entries = kept;
                return Err(NonceReject::Replayed);
            }
            j += 1;
        }
        if kept.len() >= self.capacity {
            self.entries = kept;
            return Err(NonceReject::CapacityExhausted);
        }
        kept.push(NonceEntry { namespace, issuer_epoch: epoch, nonce: *nonce_bytes, expires_at_millis });
        proof {
            let fresh = (namespace, epoch, nonce.bytes(), expires_at_millis);
            let out = live_records.push(fresh);
            assert(kept@.map_values(|e: NonceEntry| record_of(e)) =~= out);
            assert forall|i: int, j: int| 0 <= i < j < out.len() implies !same_key(#[trigger] out[i], #[trigger] out[j]) by {
                assert(out[i] == live_records[i]);
                if j < live_records.len() {
                    assert(out[j] == live_records[j]);
                } else {
                    assert(!(live_records[i].0 == namespace && live_records[i].1 == epoch && live_records[i].2
                        == nonce_bytes@));
                }
            }
        }
        self.entries = kept;
        Ok(())
    }
}

impl OneShotNonceStore for MemoryNonceStore {
    open spec fn consumes(
        before: Self,
        after: Self,
        namespace: NonceNamespace,
        issuer_epoch: IssuerEpoch,
        nonce: OneShotNonce,
        expires_at_millis: u64,
        now_millis: u64,
        r: Result<(), NonceReject>,
    ) -> bool {
        consumed(before, after, namespace, issuer_epoch.value(), nonce.bytes(), expires_at_millis, now_millis, r)
    }

    fn consume(
        &mut self,
        namespace: NonceNamespace,
        issuer_epoch: IssuerEpoch,
        nonce: OneShotNonce,
        expires_at_millis: u64,
        now_millis: u64,
    ) -> (r: Result<(), NonceReject>) {
        MemoryNonceStore::consume(self, namespace, issuer_epoch, nonce, expires_at_millis, now_millis)
    }
}

fn same_bytes(a: &[u8; 16], b: &[u8; 16]) -> (r: bool)
    ensures
        r == (a@ == b@),
{
    let mut i: usize = 0;
    while i < 16
        invariant
            0 <= i <= 16,
            forall|k: int| 0 <= k < i ==> a@[k] == b@[k],
        decreases 16 - i,
    {
        if a[i] != b[i] {
            return false;
        }
        i += 1;
    }
    assert(a@ =~= b@);
    true
}

/// What one `consume` call guarantees of the store before (`s0`) and after (`s1`) it.
pub open spec fn consumed(
    s0: MemoryNonceStore,
    s1: MemoryNonceStore,
    namespace: NonceNamespace,
    epoch: u64,
    nonce: Seq<u8>,
    expires_at: u64,
    now: u64,
    r: Result<(), NonceReject>,
) -> bool {
    let hw = max_millis(s0.spec_high_water(), now);
    let kept = live(s0.spec_records(), hw);
    &&& s1.spec_high_water() == hw
    &&& s1.spec_capacity() == s0.spec_capacity()
    &&& expires_at <= hw ==> r == Err::<(), NonceReject>(NonceReject::Expired) && s1.spec_records()
        == s0.spec_records()
    &&& expires_at > hw && holds_key(kept, namespace, epoch, nonce) ==> r == Err::<(), NonceReject>(
        NonceReject::Replayed,
    ) && s1.spec_records() == kept
    &&& expires_at > hw && !holds_key(kept, namespace, epoch, nonce) && kept.len() >= s0.spec_capacity() ==> r
        == Err::<(), NonceReject>(NonceReject::CapacityExhausted) && s1.spec_records() == kept
    &&& expires_at > hw && !holds_key(kept, namespace, epoch, nonce) && kept.len() < s0.spec_capacity() ==> r
        == Ok::<(), NonceReject>(()) && s1.spec_records() == kept.push((namespace, epoch, nonce, expires_at))
}

/// Law: a proof whose nonce was consumed is refused whenever it is presented again in the
/// same namespace and epoch: as a replay while its expiry is still after the clock, as expired
/// afterwards. A clock that goes back cannot revive it, since the high-water mark never
/// decreases.
pub proof fn lemma_consumed_nonce_is_never_accepted_again(
    s0: MemoryNonceStore,
    s1: MemoryNonceStore,
    s2: MemoryNonceStore,
    namespace: NonceNamespace,
    epoch: u64,
    nonce: Seq<u8>,
    expires_at: u64,
    now: u64,
    later_now: u64,
    r2: Result<(), NonceReject>,
)
    requires
        consumed(s0, s1, namespace, epoch, nonce, expires_at, now, Ok(())),
        consumed(s1, s2, namespace, epoch, nonce, expires_at, later_now, r2),
    ensures
        r2 == Err::<(), NonceReject>(NonceReject::Replayed) || r2 == Err::<(), NonceReject>(NonceReject::Expired),
        max_millis(s1.spec_high_water(), later_now) < expires_at ==> r2 == Err::<(), NonceReject>(
            NonceReject::Replayed,
        ),
        s2.spec_high_water() >= s1.spec_high_water(),
        s1.spec_high_water() >= s0.spec_high_water(),
{
    let hw1 = s1.spec_high_water();
    let hw2 = max_millis(hw1, later_now);
    let rec = (namespace, epoch, nonce, expires_at);
    let kept1 = live(s0.spec_records(), hw1);
    assert(s1.spec_records() == kept1.push(rec));
    let last = s1.spec_records().len() - 1;
    assert(s1.spec_records()[last] == rec);
    if hw2 < expires_at {
        let p = |r: NonceRecord| r.3 > hw2;
        assert(p(s1.spec_records()[last]));
        s1.spec_records().lemma_filter_contains(p, last);
        let kept2 = live(s1.spec_records(), hw2);
        assert(kept2.contains(rec));
        let k = choose|k: int| 0 <= k < kept2.len() && kept2[k] == rec;
        assert(kept2[k].0 == namespace && kept2[k].1 == epoch && kept2[k].2 == nonce);
        assert(holds_key(kept2, namespace, epoch, nonce));
    }
}

} // verus!
