//! The four closed verification entries, the runtime that splits their capabilities, the
//! verifier clock and the MAC key rings.
use std::sync::Arc;
use vstd::prelude::*;

use crate::contract::binding::{body_digest_of, request_digest_of, semantic_headers_digest_of};
use crate::contract::claims::{AttestationClaims, AuthorizationBundle, CapabilityClaims};
use crate::contract::decode::{
    attestation_claims_valid, attestation_claims_wire, attestation_wire, bundle_valid, bundle_wire,
    capability_authorization_wire, capability_claims_valid, capability_claims_wire, decode_attestation,
    decode_authorization_bundle, decode_capability_authorization,
};
use crate::contract::error::IngressReject;
use crate::contract::limits::{MAX_ATTESTATION_BYTES, MAX_CAPABILITY_AUTHORIZATION_BYTES};
use crate::contract::mac::{
    attestation_mac_domain, authorization_bundle_digest, bundle_digest_of, capability_mac_domain, hmac_sha256, mac_message,
    verify_hmac,
};
use crate::contract::signed::{EncodedCapabilityAuthorization, SignedIngressRequest};
use crate::contract::gates::{
    capability_claims_check, gateway_consent_check, managed_authorization_check, managed_request_binding_check,
    managed_scope_check, remote_data_operation, validate_capability_claims, validate_managed_authorization,
    validate_managed_request_binding, validate_managed_scope, ActivationView, CapabilityContextView,
    CapabilityListenerContext, ManagedActivationBinding, ManagedContextView, ManagedListenerContext, validate_gateway_consent, validate_remote_data_operation,
    ConsentView, GatewayConsentAuthority, GatewayContextView, GatewayOnlyConsentSnapshot, GatewayOnlyListenerContext,
    ListenerBindingAuthority, LocalContextView, LocalListenerContext, ManagedActivationAuthority,
};
use crate::contract::ids::{IssuerEpoch, OneShotNonce, RegistryDigest};
use crate::contract::operation::{
    binding_check, binding_of, same_route_spec, RequestBinding, RequestDispatchDomain, RequestKind, RouteSpec, RouteSpecRegistry,
};
use crate::contract::error::NonceReject;
use crate::contract::replay::{max_millis, NonceNamespace, OneShotNonceStore};
use crate::contract::request::{kept_headers, RawIngressRequest};
use crate::contract::verified::{
    managed_proof_of, same_seal, VerificationDomainSeal, VerifiedAuthorization, VerifiedIngressReceiver, VerifiedIngressRequest,
    VerifiedGatewayOnlyProofBinding, VerifiedLocalProofBinding, VerifiedProof,
};

verus! {

/// The most keys one ring may hold.
pub const MAX_KEY_RING_ENTRIES: usize = 8;

/// The wall clock port of the verifier.
///
/// The verifier raises what it reads into a high-water mark of its own that never goes back.
pub trait VerifierClock {
    /// Whether `r` is a reading this clock may give; each verified clock states its own rule,
    /// and a clock that states none promises nothing.
    closed spec fn reads(&self, r: Result<u64, IngressReject>) -> bool {
        true
    }

    /// Returns Unix milliseconds; the verifier fails closed where the host cannot tell.
    fn now_millis(&self) -> (r: Result<u64, IngressReject>)
        ensures
            self.reads(r),
    ;
}

/// A fixed clock for tests, simulation and deterministic hosts.
pub struct FixedClock {
    now_millis: u64,
}

impl FixedClock {
    /// The instant the clock shows.
    pub closed spec fn spec_now(&self) -> u64 {
        self.now_millis
    }

    /// Makes a clock that shows `now_millis`.
    pub fn new(now_millis: u64) -> (r: Self)
        ensures
            r.spec_now() == now_millis,
    {
        FixedClock { now_millis }
    }

    /// Sets the next reading; a verifier still only ever raises its high-water mark.
    pub fn set(&mut self, now_millis: u64)
        ensures
            final(self).spec_now() == now_millis,
    {
        self.now_millis = now_millis;
    }
}

impl VerifierClock for FixedClock {
    open spec fn reads(&self, r: Result<u64, IngressReject>) -> bool {
        r == Ok::<u64, IngressReject>(self.spec_now())
    }

    fn now_millis(&self) -> (r: Result<u64, IngressReject>)
        ensures
            r == Ok::<u64, IngressReject>(self.spec_now()),
    {
        Ok(self.now_millis)
    }
}

/// Whether an issuing epoch and a key can verify MACs: neither is all zero.
pub open spec fn key_material_ok(epoch: u64, key: Seq<u8>) -> bool {
    epoch != 0 && exists|i: int| 0 <= i < key.len() && key[i] != 0
}

struct VerificationKeyMaterial {
    issuer_epoch: IssuerEpoch,
    key: [u8; 32],
}

impl VerificationKeyMaterial {
    fn try_new(issuer_epoch: IssuerEpoch, key: [u8; 32]) -> (r: Result<Self, IngressReject>)
        ensures
            r is Err <==> !key_material_ok(issuer_epoch.value(), key@),
            r is Err ==> r == Err::<Self, IngressReject>(IngressReject::InternalFailClosed),
            r matches Ok(m) ==> m.issuer_epoch == issuer_epoch && m.key@ == key@,
    {
        let epoch = issuer_epoch.get();
        let mut i: usize = 0;
        while i < 32 && key[i] == 0
            invariant
                0 <= i <= 32,
                key@.len() == 32,
                forall|k: int| 0 <= k < i ==> key@[k] == 0,
            decreases 32 - i,
        {
            i += 1;
        }
        if epoch == 0 || i == 32 {
            return Err(IngressReject::InternalFailClosed);
        }
        assert(key@[i as int] != 0);
        Ok(VerificationKeyMaterial { issuer_epoch, key })
    }
}

/// The in-process key that verifies managed attestations; it has no `Clone`, `Debug` or
/// byte getter.
pub struct ManagedVerificationKey(VerificationKeyMaterial);

impl ManagedVerificationKey {
    /// The issuing epoch.
    pub closed spec fn spec_epoch(&self) -> u64 {
        self.0.issuer_epoch.value()
    }

    /// The key bytes.
    pub closed spec fn spec_key(&self) -> Seq<u8> {
        self.0.key@
    }

    /// Builds a managed key; an all-zero key or epoch fails closed.
    pub fn try_new(issuer_epoch: IssuerEpoch, key: [u8; 32]) -> (r: Result<Self, IngressReject>)
        ensures
            r is Err <==> !key_material_ok(issuer_epoch.value(), key@),
            r is Err ==> r == Err::<Self, IngressReject>(IngressReject::InternalFailClosed),
            r matches Ok(k) ==> k.spec_epoch() == issuer_epoch.value() && k.spec_key() == key@,
    {
        Ok(ManagedVerificationKey(VerificationKeyMaterial::try_new(issuer_epoch, key)?))
    }
}

/// The separate key that verifies capability authorizations.
pub struct CapabilityVerificationKey(VerificationKeyMaterial);

impl CapabilityVerificationKey {
    /// The issuing epoch.
    pub closed spec fn spec_epoch(&self) -> u64 {
        self.0.issuer_epoch.value()
    }

    /// The key bytes.
    pub closed spec fn spec_key(&self) -> Seq<u8> {
        self.0.key@
    }

    /// Builds a capability key; an all-zero key or epoch fails closed.
    pub fn try_new(issuer_epoch: IssuerEpoch, key: [u8; 32]) -> (r: Result<Self, IngressReject>)
        ensures
            r is Err <==> !key_material_ok(issuer_epoch.value(), key@),
            r is Err ==> r == Err::<Self, IngressReject>(IngressReject::InternalFailClosed),
            r matches Ok(k) ==> k.spec_epoch() == issuer_epoch.value() && k.spec_key() == key@,
    {
        Ok(CapabilityVerificationKey(VerificationKeyMaterial::try_new(issuer_epoch, key)?))
    }
}

/// Whether a ring of keys with these epochs is refused: none, more than the limit, or an
/// epoch twice.
pub open spec fn ring_refused(epochs: Seq<u64>) -> bool {
    epochs.len() == 0 || epochs.len() > MAX_KEY_RING_ENTRIES || exists|i: int, j: int|
        0 <= i < j < epochs.len() && #[trigger] epochs[i] == #[trigger] epochs[j]
}

/// The key a ring holds for an epoch: that of its first entry with the epoch, if any.
pub open spec fn ring_key(entries: Seq<(u64, Seq<u8>)>, epoch: u64) -> Option<Seq<u8>>
    decreases entries.len(),
{
    if entries.len() == 0 {
        None
    } else if entries[0].0 == epoch {
        Some(entries[0].1)
    } else {
        ring_key(entries.drop_first(), epoch)
    }
}

spec fn material_entry(m: VerificationKeyMaterial) -> (u64, Seq<u8>) {
    (m.issuer_epoch.value(), m.key@)
}

spec fn material_entries(ms: Seq<VerificationKeyMaterial>) -> Seq<(u64, Seq<u8>)> {
    ms.map_values(|m: VerificationKeyMaterial| material_entry(m))
}

/// The epochs and keys of managed keys, in order.
pub open spec fn managed_entries(keys: Seq<ManagedVerificationKey>) -> Seq<(u64, Seq<u8>)> {
    keys.map_values(|k: ManagedVerificationKey| (k.spec_epoch(), k.spec_key()))
}

/// The epochs and keys of capability keys, in order.
pub open spec fn capability_entries(keys: Seq<CapabilityVerificationKey>) -> Seq<(u64, Seq<u8>)> {
    keys.map_values(|k: CapabilityVerificationKey| (k.spec_epoch(), k.spec_key()))
}

/// The epochs of ring entries, in order.
pub open spec fn entry_epochs(entries: Seq<(u64, Seq<u8>)>) -> Seq<u64> {
    entries.map_values(|e: (u64, Seq<u8>)| e.0)
}

fn validate_key_ring(materials: &[VerificationKeyMaterial]) -> (r: Result<(), IngressReject>)
    ensures
        r is Err <==> ring_refused(entry_epochs(material_entries(materials@))),
        r is Err ==> r == Err::<(), IngressReject>(IngressReject::InternalFailClosed),
{
    let ghost epochs = entry_epochs(material_entries(materials@));
    assert(epochs.len() == materials@.len());
    if materials.len() == 0 || materials.len() > MAX_KEY_RING_ENTRIES {
        return Err(IngressReject::InternalFailClosed);
    }
    let mut i: usize = 0;
    while i < materials.len()
        invariant
            0 <= i <= materials@.len(),
            epochs == entry_epochs(material_entries(materials@)),
            epochs.len() == materials@.len(),
            forall|a: int, b: int| 0 <= a < b < i ==> epochs[a] != epochs[b],
        decreases materials@.len() - i,
    {
        let mut j: usize = 0;
        while j < i
            invariant
                0 <= j <= i < materials@.len(),
                epochs == entry_epochs(material_entries(materials@)),
                epochs.len() == materials@.len(),
                forall|a: int| 0 <= a < j ==> epochs[a] != epochs[i as int],
            decreases i - j,
        {
            assert(epochs[j as int] == materials@[j as int].issuer_epoch.value());
            assert(epochs[i as int] == materials@[i as int].issuer_epoch.value());
            if materials[j].issuer_epoch.get() == materials[i].issuer_epoch.get() {
                assert(epochs[j as int] == epochs[i as int]);
                return Err(IngressReject::InternalFailClosed);
            }
            j += 1;
        }
        i += 1;
    }
    assert(!ring_refused(epochs)) by {
        assert forall|a: int, b: int| 0 <= a < b < epochs.len() implies !(#[trigger] epochs[a] == #[trigger] epochs[b]) by {
        }
    }
    Ok(())
}

fn find_key(materials: &[VerificationKeyMaterial], epoch: IssuerEpoch) -> (r: Result<&[u8], IngressReject>)
    ensures
        match ring_key(material_entries(materials@), epoch.value()) {
            Some(k) => r matches Ok(s) && s@ == k,
            None => r == Err::<&[u8], IngressReject>(IngressReject::IssuerEpochUnknown),
        },
{
    let ghost entries = material_entries(materials@);
    assert(entries.skip(0) =~= entries);
    let mut i: usize = 0;
    while i < materials.len()
        invariant
            0 <= i <= materials@.len(),
            entries == material_entries(materials@),
            ring_key(entries, epoch.value()) == ring_key(entries.skip(i as int), epoch.value()),
        decreases materials@.len() - i,
    {
        proof {
            assert(entries.skip(i as int)[0] == entries[i as int]);
            assert(entries[i as int] == material_entry(materials@[i as int]));
            assert(entries.skip(i as int).drop_first() =~= entries.skip(i + 1));
        }
        if materials[i].issuer_epoch.get() == epoch.get() {
            let found = materials[i].key.as_slice();
            return Ok(found);
        }
        i += 1;
    }
    proof {
        assert(entries.skip(i as int).len() == 0);
    }
    Err(IngressReject::IssuerEpochUnknown)
}

/// Whether ring entries are in strictly increasing epoch order.
pub open spec fn sorted_by_epoch(entries: Seq<(u64, Seq<u8>)>) -> bool {
    forall|a: int, b: int| 0 <= a < b < entries.len() ==> #[trigger] entries[a].0 < #[trigger] entries[b].0
}

/// Whether `sorted` holds exactly the entries of `entries`, in epoch order.
pub open spec fn sorted_entries_of(sorted: Seq<(u64, Seq<u8>)>, entries: Seq<(u64, Seq<u8>)>) -> bool {
    &&& sorted_by_epoch(sorted)
    &&& sorted.len() == entries.len()
    &&& forall|k: int| 0 <= k < entries.len() ==> sorted.contains(#[trigger] entries[k])
    &&& forall|j: int| 0 <= j < sorted.len() ==> entries.contains(#[trigger] sorted[j])
}

fn sort_by_epoch(materials: Vec<VerificationKeyMaterial>) -> (r: Vec<VerificationKeyMaterial>)
    requires
        !ring_refused(entry_epochs(material_entries(materials@))),
    ensures
        sorted_entries_of(material_entries(r@), material_entries(materials@)),
{
    let ghost es = material_entries(materials@);
    let ghost epochs = entry_epochs(es);
    let ghost input = materials@;
    let count: usize = materials.len();
    let mut rest = materials;
    let mut out: Vec<VerificationKeyMaterial> = Vec::new();
    let mut i: usize = 0;
    while rest.len() > 0
        invariant
            0 <= i <= input.len(),
            input.len() == count,
            es == material_entries(input),
            epochs == entry_epochs(es),
            !ring_refused(epochs),
            rest@ == input.skip(i as int),
            out@.len() == i,
            sorted_by_epoch(material_entries(out@)),
            forall|k: int| 0 <= k < i ==> material_entries(out@).contains(#[trigger] es[k]),
            forall|j: int| 0 <= j < out@.len() ==> es.take(i as int).contains(#[trigger] material_entries(out@)[j]),
        decreases rest@.len(),
    {
        let m = rest.remove(0);
        let ghost cur = material_entries(out@);
        let ghost e = material_entry(m);
        proof {
            assert(m == input[i as int]);
            assert(e == es[i as int]);
            assert forall|j: int| 0 <= j < cur.len() implies #[trigger] cur[j].0 != e.0 by {
                let k = choose|k: int| 0 <= k < i && es.take(i as int)[k] == cur[j];
                assert(es[k] == cur[j]);
                assert(epochs[k] == es[k].0 && epochs[i as int] == es[i as int].0);
                if cur[j].0 == e.0 {
                    assert(0 <= k < i < epochs.len() && epochs[k] == epochs[i as int]);
                }
            }
        }
        let mut pos: usize = 0;
        while pos < out.len() && out[pos].issuer_epoch.get() < m.issuer_epoch.get()
            invariant
                0 <= pos <= out@.len(),
                cur == material_entries(out@),
                e == material_entry(m),
                forall|k: int| 0 <= k < pos ==> #[trigger] cur[k].0 < e.0,
            decreases out@.len() - pos,
        {
            proof {
                assert(cur[pos as int] == material_entry(out@[pos as int]));
            }
            pos += 1;
        }
        proof {
            if pos < out@.len() {
                assert(cur[pos as int] == material_entry(out@[pos as int]));
                assert(cur[pos as int].0 != e.0);
                assert(cur[pos as int].0 > e.0);
            }
        }
        let ghost before = out@;
        out.insert(pos, m);
        proof {
            let after = material_entries(out@);
            assert(after.len() == cur.len() + 1);
            assert forall|j: int| 0 <= j < after.len() implies #[trigger] after[j] == (if j < pos {
                cur[j]
            } else if j == pos {
                e
            } else {
                cur[j - 1]
            }) by {
                if j < pos {
                    assert(out@[j] == before[j]);
                } else if j > pos {
                    assert(out@[j] == before[j - 1]);
                }
            }
            assert forall|a: int, b: int| 0 <= a < b < after.len() implies #[trigger] after[a].0 < #[trigger] after[b].0 by {
                if b < pos {
                    assert(after[a] == cur[a] && after[b] == cur[b]);
                } else if b == pos {
                    assert(after[a] == cur[a]);
                } else if a < pos {
                    assert(after[a] == cur[a] && after[b] == cur[b - 1]);
                    if b - 1 > pos as int {
                        assert(cur[pos as int].0 < cur[b - 1].0);
                    }
                    assert(cur[pos as int].0 > e.0 || b - 1 == pos);
                } else if a == pos {
                    assert(after[b] == cur[b - 1]);
                    if b - 1 > pos as int {
                        assert(cur[pos as int].0 < cur[b - 1].0);
                    }
                } else {
                    assert(after[a] == cur[a - 1] && after[b] == cur[b - 1]);
                }
            }
            assert forall|k: int| 0 <= k < i + 1 implies after.contains(#[trigger] es[k]) by {
                if k == i {
                    assert(after[pos as int] == es[k]);
                } else {
                    assert(cur.contains(es[k]));
                    let j = choose|j: int| 0 <= j < cur.len() && cur[j] == es[k];
                    if j < pos {
                        assert(after[j] == es[k]);
                    } else {
                        assert(after[j + 1] == es[k]);
                    }
                }
            }
            assert forall|j: int| 0 <= j < after.len() implies es.take(i + 1).contains(#[trigger] after[j]) by {
                if j == pos {
                    assert(es.take(i + 1)[i as int] == e);
                } else {
                    let jj = if j < pos { j } else { j - 1 };
                    assert(after[j] == cur[jj]);
                    assert(es.take(i as int).contains(cur[jj]));
                    let k = choose|k: int| 0 <= k < i && es.take(i as int)[k] == cur[jj];
                    assert(es.take(i + 1)[k] == cur[jj]);
                }
            }
        }
        i += 1;
        proof {
            assert(rest@ =~= input.skip(i as int));
        }
    }
    proof {
        assert(es.take(i as int) =~= es);
    }
    out
}

/// A bounded rotation window of managed keys.
pub struct ManagedVerificationKeyRing {
    keys: Vec<VerificationKeyMaterial>,
}

impl ManagedVerificationKeyRing {
    #[verifier::type_invariant]
    closed spec fn inv(self) -> bool {
        !ring_refused(entry_epochs(self.spec_entries()))
    }

    /// The epochs and keys of the ring.
    pub closed spec fn spec_entries(&self) -> Seq<(u64, Seq<u8>)> {
        material_entries(self.keys@)
    }

    /// Builds a window of at most eight keys with distinct epochs, kept in epoch order.
    pub fn try_new(keys: Vec<ManagedVerificationKey>) -> (r: Result<Self, IngressReject>)
        ensures
            r is Err <==> ring_refused(entry_epochs(managed_entries(keys@))),
            r is Err ==> r == Err::<Self, IngressReject>(IngressReject::InternalFailClosed),
            r matches Ok(ring) ==> sorted_entries_of(ring.spec_entries(), managed_entries(keys@)),
    {
        let ghost ks = keys@;
        let mut rest = keys;
        let mut materials: Vec<VerificationKeyMaterial> = Vec::new();
        let count: usize = rest.len();
        let mut i: usize = 0;
        while rest.len() > 0
            invariant
                0 <= i <= ks.len(),
                ks.len() == count,
                rest@ == ks.skip(i as int),
                materials@.len() == i,
                material_entries(materials@) == managed_entries(ks.take(i as int)),
            decreases rest@.len(),
        {
            let k = rest.remove(0);
            proof {
                assert(k == ks[i as int]);
            }
            let ghost before = materials@;
            materials.push(k.0);
            i += 1;
            proof {
                assert(rest@ =~= ks.skip(i as int));
                let mapped = material_entries(materials@);
                let want = managed_entries(ks.take(i as int));
                assert(mapped.len() == want.len());
                assert forall|j: int| 0 <= j < mapped.len() implies mapped[j] == want[j] by {
                    if j < i - 1 {
                        assert(materials@[j] == before[j]);
                        assert(ks.take(i as int)[j] == ks.take(i - 1)[j]);
                        assert(material_entries(before)[j] == managed_entries(ks.take(i - 1))[j]);
                    } else {
                        assert(materials@[j] == k.0);
                        assert(ks.take(i as int)[j] == k);
                    }
                }
                assert(mapped =~= want);
            }
        }
        proof {
            assert(ks.take(i as int) =~= ks);
        }
        validate_key_ring(materials.as_slice())?;
        let sorted = sort_by_epoch(materials);
        proof {
            let a = material_entries(sorted@);
            let b = material_entries(materials@);
            assert(entry_epochs(a).len() == a.len());
            assert(!ring_refused(entry_epochs(a))) by {
                assert forall|x: int, y: int| 0 <= x < y < entry_epochs(a).len() implies !(#[trigger] entry_epochs(a)[x]
                    == #[trigger] entry_epochs(a)[y]) by {
                    assert(a[x].0 < a[y].0);
                }
            }
        }
        Ok(ManagedVerificationKeyRing { keys: sorted })
    }

    fn key_for(&self, epoch: IssuerEpoch) -> (r: Result<&[u8], IngressReject>)
        ensures
            match ring_key(self.spec_entries(), epoch.value()) {
                Some(k) => r matches Ok(s) && s@ == k,
                None => r == Err::<&[u8], IngressReject>(IngressReject::IssuerEpochUnknown),
            },
    {
        find_key(self.keys.as_slice(), epoch)
    }
}

/// A bounded rotation window of capability keys.
pub struct CapabilityVerificationKeyRing {
    keys: Vec<VerificationKeyMaterial>,
}

impl CapabilityVerificationKeyRing {
    #[verifier::type_invariant]
    closed spec fn inv(self) -> bool {
        !ring_refused(entry_epochs(self.spec_entries()))
    }

    /// The epochs and keys of the ring.
    pub closed spec fn spec_entries(&self) -> Seq<(u64, Seq<u8>)> {
        material_entries(self.keys@)
    }

    /// Builds a window of at most eight keys with distinct epochs, kept in epoch order.
    pub fn try_new(keys: Vec<CapabilityVerificationKey>) -> (r: Result<Self, IngressReject>)
        ensures
            r is Err <==> ring_refused(entry_epochs(capability_entries(keys@))),
            r is Err ==> r == Err::<Self, IngressReject>(IngressReject::InternalFailClosed),
            r matches Ok(ring) ==> sorted_entries_of(ring.spec_entries(), capability_entries(keys@)),
    {
        let ghost ks = keys@;
        let mut rest = keys;
        let mut materials: Vec<VerificationKeyMaterial> = Vec::new();
        let count: usize = rest.len();
        let mut i: usize = 0;
        while rest.len() > 0
            invariant
                0 <= i <= ks.len(),
                ks.len() == count,
                rest@ == ks.skip(i as int),
                materials@.len() == i,
                material_entries(materials@) == capability_entries(ks.take(i as int)),
            decreases rest@.len(),
        {
            let k = rest.remove(0);
            proof {
                assert(k == ks[i as int]);
            }
            let ghost before = materials@;
            materials.push(k.0);
            i += 1;
            proof {
                assert(rest@ =~= ks.skip(i as int));
                let mapped = material_entries(materials@);
                let want = capability_entries(ks.take(i as int));
                assert(mapped.len() == want.len());
                assert forall|j: int| 0 <= j < mapped.len() implies mapped[j] == want[j] by {
                    if j < i - 1 {
                        assert(materials@[j] == before[j]);
                        assert(ks.take(i as int)[j] == ks.take(i - 1)[j]);
                        assert(material_entries(before)[j] == capability_entries(ks.take(i - 1))[j]);
                    } else {
                        assert(materials@[j] == k.0);
                        assert(ks.take(i as int)[j] == k);
                    }
                }
                assert(mapped =~= want);
            }
        }
        proof {
            assert(ks.take(i as int) =~= ks);
        }
        validate_key_ring(materials.as_slice())?;
        let sorted = sort_by_epoch(materials);
        proof {
            let a = material_entries(sorted@);
            let b = material_entries(materials@);
            assert(entry_epochs(a).len() == a.len());
            assert(!ring_refused(entry_epochs(a))) by {
                assert forall|x: int, y: int| 0 <= x < y < entry_epochs(a).len() implies !(#[trigger] entry_epochs(a)[x]
                    == #[trigger] entry_epochs(a)[y]) by {
                    assert(a[x].0 < a[y].0);
                }
            }
        }
        Ok(CapabilityVerificationKeyRing { keys: sorted })
    }

    fn key_for(&self, epoch: IssuerEpoch) -> (r: Result<&[u8], IngressReject>)
        ensures
            match ring_key(self.spec_entries(), epoch.value()) {
                Some(k) => r matches Ok(s) && s@ == k,
                None => r == Err::<&[u8], IngressReject>(IngressReject::IssuerEpochUnknown),
            },
    {
        find_key(self.keys.as_slice(), epoch)
    }
}

/// Whether a verified request carries the matched specification `spec` and the sanitized
/// form of `request`.
pub open spec fn verified_as(v: VerifiedIngressRequest, spec: RouteSpec, request: RawIngressRequest) -> bool {
    &&& same_route_spec(v.spec_operation().spec, spec)
    &&& v.spec_request().spec_method() == request.spec_method()
    &&& v.spec_request().spec_target() == request.spec_target()
    &&& v.spec_request().spec_body() == request.spec_body()
    &&& v.spec_request().spec_headers() == kept_headers(
        request.spec_headers(),
        v.spec_operation().spec.spec_semantic_headers(),
    )
}

/// The raw request digest of `request` under the specification it matched.
pub open spec fn raw_request_digest(spec: RouteSpec, request: RawIngressRequest) -> Seq<u8> {
    request_digest_of(
        request.spec_method(),
        request.spec_target(),
        semantic_headers_digest_of(request.spec_headers(), spec.spec_semantic_headers()),
        body_digest_of(request.spec_body()),
        request.spec_body().len() as u64,
    )
}

/// The verdict of a local operation entry: the binding, then a local dispatch domain, then
/// the exact local scope of the listener.
pub open spec fn local_outcome(specs: Seq<RouteSpec>, request: RawIngressRequest, c: LocalContextView) -> Result<
    int,
    IngressReject,
> {
    match binding_check(specs, request) {
        Err(e) => Err(e),
        Ok(i) => if specs[i].spec_dispatch_domain() != RequestDispatchDomain::Local {
            Err(IngressReject::DispatchDomainMismatch)
        } else if specs[i].spec_local_scope() != Some(c.auth_scope) {
            Err(IngressReject::LocalScopeMismatch)
        } else {
            Ok(i)
        },
    }
}

/// The verdict of a gateway-only entry at instant `now`: the binding, then a remote data
/// operation, then the consent.
pub open spec fn gateway_outcome(
    specs: Seq<RouteSpec>,
    request: RawIngressRequest,
    c: GatewayContextView,
    consent: ConsentView,
    now: u64,
) -> Result<int, IngressReject> {
    match binding_check(specs, request) {
        Err(e) => Err(e),
        Ok(i) => if !remote_data_operation(specs[i].spec_kind(), specs[i].spec_dispatch_domain()) {
            Err(IngressReject::ProofModeConflict)
        } else {
            match gateway_consent_check(c, consent, now) {
                Err(e) => Err(e),
                Ok(_) => Ok(i),
            }
        },
    }
}

/// Whether a capability authorization wire carries `claims` and a MAC `tag`.
pub open spec fn capability_carries(wire: Seq<u8>, claims: CapabilityClaims, tag: Seq<u8>) -> bool {
    &&& capability_claims_valid(claims)
    &&& tag.len() == 32
    &&& wire == capability_authorization_wire(capability_claims_wire(claims), tag)
}

/// Whether a capability authorization wire decodes: it carries claims whose wire fits.
pub open spec fn capability_decodable(wire: Seq<u8>) -> bool {
    exists|claims: CapabilityClaims, tag: Seq<u8>|
        #[trigger] capability_carries(wire, claims, tag) && capability_claims_wire(claims).len()
            <= MAX_CAPABILITY_AUTHORIZATION_BYTES
}

/// The verdict before a capability authorization is read: the binding, then a bodiless probe
/// of a bound deployment.
pub open spec fn capability_pre(specs: Seq<RouteSpec>, request: RawIngressRequest) -> Result<int, IngressReject> {
    match binding_check(specs, request) {
        Err(e) => Err(e),
        Ok(i) => if specs[i].spec_kind() != RequestKind::DeploymentModelProbe || specs[i].spec_dispatch_domain()
            != RequestDispatchDomain::BoundDeployment || request.spec_body().len() != 0 {
            Err(IngressReject::CapabilityConstraintMismatch)
        } else {
            Ok(i)
        },
    }
}

/// The verdict on decoded capability claims: a key for their epoch, the MAC, then the claims
/// against the listener and the binding.
pub open spec fn capability_claims_outcome(
    keys: Seq<(u64, Seq<u8>)>,
    b: RequestBinding,
    registry_digest: RegistryDigest,
    c: CapabilityContextView,
    now: u64,
    claims: CapabilityClaims,
    tag: Seq<u8>,
) -> Result<(), IngressReject> {
    match ring_key(keys, claims.issuer_epoch.value()) {
        None => Err(IngressReject::IssuerEpochUnknown),
        Some(k) => if tag != hmac_sha256(k, mac_message(capability_mac_domain(), capability_claims_wire(claims), None)) {
            Err(IngressReject::MacInvalid)
        } else {
            capability_claims_check(c, b, registry_digest, claims, now)
        },
    }
}

/// Whether decoded capability claims reach the verdict `outcome`.
pub open spec fn capability_claims_reach(
    specs: Seq<RouteSpec>,
    registry_digest: RegistryDigest,
    keys: Seq<(u64, Seq<u8>)>,
    wire: Seq<u8>,
    request: RawIngressRequest,
    c: CapabilityContextView,
    now: u64,
    claims: CapabilityClaims,
    tag: Seq<u8>,
    b: RequestBinding,
    outcome: Result<(), IngressReject>,
) -> bool {
    &&& capability_pre(specs, request) is Ok
    &&& binding_of(b, specs[capability_pre(specs, request)->Ok_0], request)
    &&& capability_carries(wire, claims, tag)
    &&& capability_claims_outcome(keys, b, registry_digest, c, now, claims, tag) == outcome
}

/// Whether a capability probe is refused with `e` at instant `now` by a check that does not
/// depend on the clock or the nonce store.
pub open spec fn capability_refusal(
    specs: Seq<RouteSpec>,
    registry_digest: RegistryDigest,
    keys: Seq<(u64, Seq<u8>)>,
    wire: Seq<u8>,
    request: RawIngressRequest,
    c: CapabilityContextView,
    now: u64,
    e: IngressReject,
) -> bool {
    ||| capability_pre(specs, request) == Err::<int, IngressReject>(e)
    ||| capability_pre(specs, request) is Ok && e == IngressReject::CapabilityAuthorizationMalformed
        && !capability_decodable(wire)
    ||| exists|claims: CapabilityClaims, tag: Seq<u8>, b: RequestBinding|
        #[trigger] capability_claims_reach(
            specs,
            registry_digest,
            keys,
            wire,
            request,
            c,
            now,
            claims,
            tag,
            b,
            Err::<(), IngressReject>(e),
        )
}

/// Whether an attestation wire carries `claims` and a MAC `tag`.
pub open spec fn attestation_carries(wire: Seq<u8>, claims: AttestationClaims, tag: Seq<u8>) -> bool {
    &&& attestation_claims_valid(claims)
    &&& tag.len() == 32
    &&& wire == attestation_wire(attestation_claims_wire(claims), tag)
}

/// Whether an attestation wire decodes: it carries claims whose wire fits.
pub open spec fn attestation_decodable(wire: Seq<u8>) -> bool {
    exists|claims: AttestationClaims, tag: Seq<u8>|
        #[trigger] attestation_carries(wire, claims, tag) && attestation_claims_wire(claims).len() <= MAX_ATTESTATION_BYTES
}

/// Whether an authorization bundle wire carries `bundle`.
pub open spec fn bundle_carries(wire: Seq<u8>, bundle: AuthorizationBundle) -> bool {
    bundle_valid(bundle) && wire == bundle_wire(bundle)
}

/// The verdict on decoded attestation claims: a key for their epoch, the MAC that also binds
/// the digest of the whole bundle wire, the scope, then the bundle digest the claims name.
pub open spec fn managed_front(
    keys: Seq<(u64, Seq<u8>)>,
    bundle_wire: Seq<u8>,
    c: ManagedContextView,
    a: ActivationView,
    now: u64,
    claims: AttestationClaims,
    tag: Seq<u8>,
) -> Result<(), IngressReject> {
    let bd = bundle_digest_of(bundle_wire);
    match ring_key(keys, claims.issuer_epoch.value()) {
        None => Err(IngressReject::IssuerEpochUnknown),
        Some(k) => if tag != hmac_sha256(k, mac_message(attestation_mac_domain(), attestation_claims_wire(claims), Some(bd))) {
            Err(IngressReject::MacInvalid)
        } else {
            match managed_scope_check(c, a, claims, now) {
                Err(e) => Err(e),
                Ok(_) => if claims.authorization_bundle_digest.bytes() != bd {
                    Err(IngressReject::AuthorizationBindingMismatch)
                } else {
                    Ok(())
                },
            }
        },
    }
}

/// The verdict once the bundle is decoded and the request bound: a remote data operation,
/// the request binding of the claims, then the authorization bundle.
pub open spec fn managed_back(
    registry_digest: RegistryDigest,
    request: RawIngressRequest,
    a: ActivationView,
    now: u64,
    claims: AttestationClaims,
    bundle: AuthorizationBundle,
    b: RequestBinding,
) -> Result<(), IngressReject> {
    if !remote_data_operation(b.operation.spec.spec_kind(), b.operation.spec.spec_dispatch_domain()) {
        Err(IngressReject::ProofModeConflict)
    } else {
        match managed_request_binding_check(b, request.spec_method(), request.spec_target(), registry_digest, claims) {
            Err(e) => Err(e),
            Ok(_) => managed_authorization_check(b, bundle, claims, a, now),
        }
    }
}

/// Whether decoded attestation claims reach the verdict `outcome` of the front checks.
pub open spec fn managed_front_reach(
    keys: Seq<(u64, Seq<u8>)>,
    attestation: Seq<u8>,
    bundle_wire: Seq<u8>,
    c: ManagedContextView,
    a: ActivationView,
    now: u64,
    claims: AttestationClaims,
    tag: Seq<u8>,
    outcome: Result<(), IngressReject>,
) -> bool {
    attestation_carries(attestation, claims, tag) && managed_front(keys, bundle_wire, c, a, now, claims, tag) == outcome
}

/// Whether the front checks pass but the bundle wire carries no bundle.
pub open spec fn managed_bundle_missing(
    keys: Seq<(u64, Seq<u8>)>,
    attestation: Seq<u8>,
    bundle_wire: Seq<u8>,
    c: ManagedContextView,
    a: ActivationView,
    now: u64,
    claims: AttestationClaims,
    tag: Seq<u8>,
) -> bool {
    &&& managed_front_reach(keys, attestation, bundle_wire, c, a, now, claims, tag, Ok(()))
    &&& forall|bundle: AuthorizationBundle| !#[trigger] bundle_carries(bundle_wire, bundle)
}

/// Whether the front checks pass, the bundle decodes and binding the request gives
/// `outcome`.
pub open spec fn managed_binding_reach(
    specs: Seq<RouteSpec>,
    keys: Seq<(u64, Seq<u8>)>,
    attestation: Seq<u8>,
    bundle_wire: Seq<u8>,
    request: RawIngressRequest,
    c: ManagedContextView,
    a: ActivationView,
    now: u64,
    claims: AttestationClaims,
    tag: Seq<u8>,
    bundle: AuthorizationBundle,
    outcome: Result<int, IngressReject>,
) -> bool {
    &&& managed_front_reach(keys, attestation, bundle_wire, c, a, now, claims, tag, Ok(()))
    &&& bundle_carries(bundle_wire, bundle)
    &&& binding_check(specs, request) == outcome
}

/// Whether every check up to the binding passes and the last checks give `outcome`.
pub open spec fn managed_back_reach(
    specs: Seq<RouteSpec>,
    registry_digest: RegistryDigest,
    keys: Seq<(u64, Seq<u8>)>,
    attestation: Seq<u8>,
    bundle_wire: Seq<u8>,
    request: RawIngressRequest,
    c: ManagedContextView,
    a: ActivationView,
    now: u64,
    claims: AttestationClaims,
    tag: Seq<u8>,
    bundle: AuthorizationBundle,
    b: RequestBinding,
    outcome: Result<(), IngressReject>,
) -> bool {
    &&& binding_check(specs, request) is Ok
    &&& managed_binding_reach(
        specs,
        keys,
        attestation,
        bundle_wire,
        request,
        c,
        a,
        now,
        claims,
        tag,
        bundle,
        binding_check(specs, request),
    )
    &&& binding_of(b, specs[binding_check(specs, request)->Ok_0], request)
    &&& managed_back(registry_digest, request, a, now, claims, bundle, b) == outcome
}

/// Whether a managed request is refused with `e` at instant `now` by a check that does not
/// depend on the clock or the nonce store.
pub open spec fn managed_refusal(
    specs: Seq<RouteSpec>,
    registry_digest: RegistryDigest,
    keys: Seq<(u64, Seq<u8>)>,
    attestation: Seq<u8>,
    bundle_wire: Seq<u8>,
    request: RawIngressRequest,
    c: ManagedContextView,
    a: ActivationView,
    now: u64,
    e: IngressReject,
) -> bool {
    ||| e == IngressReject::ProofMalformed && !attestation_decodable(attestation)
    ||| exists|claims: AttestationClaims, tag: Seq<u8>|
        #[trigger] managed_front_reach(keys, attestation, bundle_wire, c, a, now, claims, tag, Err(e))
    ||| e == IngressReject::AuthorizationBundleMalformed && exists|claims: AttestationClaims, tag: Seq<u8>|
        #[trigger] managed_bundle_missing(keys, attestation, bundle_wire, c, a, now, claims, tag)
    ||| exists|claims: AttestationClaims, tag: Seq<u8>, bundle: AuthorizationBundle|
        #[trigger] managed_binding_reach(
            specs,
            keys,
            attestation,
            bundle_wire,
            request,
            c,
            a,
            now,
            claims,
            tag,
            bundle,
            Err(e),
        )
    ||| exists|claims: AttestationClaims, tag: Seq<u8>, bundle: AuthorizationBundle, b: RequestBinding|
        #[trigger] managed_back_reach(
            specs,
            registry_digest,
            keys,
            attestation,
            bundle_wire,
            request,
            c,
            a,
            now,
            claims,
            tag,
            bundle,
            b,
            Err(e),
        )
}

/// Whether capability claims that pass every check are then consumed by the nonce store, taking
/// it from `before` to `after` with the store's own result `sr`.
pub open spec fn capability_nonce_step<S: OneShotNonceStore>(
    specs: Seq<RouteSpec>,
    registry_digest: RegistryDigest,
    keys: Seq<(u64, Seq<u8>)>,
    wire: Seq<u8>,
    request: RawIngressRequest,
    c: CapabilityContextView,
    now: u64,
    before: S,
    after: S,
    claims: CapabilityClaims,
    tag: Seq<u8>,
    b: RequestBinding,
    sr: Result<(), NonceReject>,
) -> bool {
    &&& capability_claims_reach(specs, registry_digest, keys, wire, request, c, now, claims, tag, b, Ok(()))
    &&& S::consumes(
        before,
        after,
        NonceNamespace::CapabilityAuthorization,
        claims.issuer_epoch,
        claims.nonce,
        claims.deadline_millis,
        now,
        sr,
    )
}

/// Whether the nonce store, given accepted capability claims, accepted (`accepted`) or refused
/// their nonce.
pub open spec fn capability_nonce_outcome<S: OneShotNonceStore>(
    specs: Seq<RouteSpec>,
    registry_digest: RegistryDigest,
    keys: Seq<(u64, Seq<u8>)>,
    wire: Seq<u8>,
    request: RawIngressRequest,
    c: CapabilityContextView,
    now: u64,
    before: S,
    after: S,
    accepted: bool,
) -> bool {
    exists|claims: CapabilityClaims, tag: Seq<u8>, b: RequestBinding, sr: Result<(), NonceReject>|
        #[trigger] capability_nonce_step(
            specs,
            registry_digest,
            keys,
            wire,
            request,
            c,
            now,
            before,
            after,
            claims,
            tag,
            b,
            sr,
        ) && (sr is Ok <==> accepted)
}

/// Whether managed claims and a bundle that pass every check are then consumed by the nonce
/// store, taking it from `before` to `after` with the store's own result `sr`.
pub open spec fn managed_nonce_step<S: OneShotNonceStore>(
    specs: Seq<RouteSpec>,
    registry_digest: RegistryDigest,
    keys: Seq<(u64, Seq<u8>)>,
    attestation: Seq<u8>,
    bundle_wire: Seq<u8>,
    request: RawIngressRequest,
    c: ManagedContextView,
    a: ActivationView,
    now: u64,
    before: S,
    after: S,
    claims: AttestationClaims,
    tag: Seq<u8>,
    bundle: AuthorizationBundle,
    b: RequestBinding,
    sr: Result<(), NonceReject>,
) -> bool {
    &&& managed_back_reach(
        specs,
        registry_digest,
        keys,
        attestation,
        bundle_wire,
        request,
        c,
        a,
        now,
        claims,
        tag,
        bundle,
        b,
        Ok(()),
    )
    &&& S::consumes(
        before,
        after,
        NonceNamespace::ManagedAttestation,
        claims.issuer_epoch,
        claims.nonce,
        claims.expires_at_millis,
        now,
        sr,
    )
}

/// Whether the nonce store, given an accepted managed request, accepted (`accepted`) or
/// refused its nonce.
pub open spec fn managed_nonce_outcome<S: OneShotNonceStore>(
    specs: Seq<RouteSpec>,
    registry_digest: RegistryDigest,
    keys: Seq<(u64, Seq<u8>)>,
    attestation: Seq<u8>,
    bundle_wire: Seq<u8>,
    request: RawIngressRequest,
    c: ManagedContextView,
    a: ActivationView,
    now: u64,
    before: S,
    after: S,
    accepted: bool,
) -> bool {
    exists|
        claims: AttestationClaims,
        tag: Seq<u8>,
        bundle: AuthorizationBundle,
        b: RequestBinding,
        sr: Result<(), NonceReject>,
    |
        #[trigger] managed_nonce_step(
            specs,
            registry_digest,
            keys,
            attestation,
            bundle_wire,
            request,
            c,
            a,
            now,
            before,
            after,
            claims,
            tag,
            bundle,
            b,
            sr,
        ) && (sr is Ok <==> accepted)
}

/// The pure verification kernel that the four entries share.
pub struct IngressVerifier<C: VerifierClock, S: OneShotNonceStore> {
    domain_seal: Arc<VerificationDomainSeal>,
    registry: RouteSpecRegistry,
    managed_keys: ManagedVerificationKeyRing,
    capability_keys: CapabilityVerificationKeyRing,
    clock: C,
    clock_high_water_millis: u64,
    nonce_store: S,
}

/// The verification runtime that the composition root splits once.
pub struct IngressVerifierRuntime<C: VerifierClock, S: OneShotNonceStore> {
    verifier: IngressVerifier<C, S>,
    listener_authority: ListenerBindingAuthority,
    gateway_consent_authority: GatewayConsentAuthority,
    managed_activation_authority: ManagedActivationAuthority,
    receiver: VerifiedIngressReceiver,
}

impl<C: VerifierClock, S: OneShotNonceStore> IngressVerifierRuntime<C, S> {
    /// The verifier.
    pub closed spec fn spec_verifier(&self) -> IngressVerifier<C, S> {
        self.verifier
    }

    /// The listener binding authority.
    pub closed spec fn spec_listener_authority(&self) -> ListenerBindingAuthority {
        self.listener_authority
    }

    /// The gateway consent authority.
    pub closed spec fn spec_gateway_consent_authority(&self) -> GatewayConsentAuthority {
        self.gateway_consent_authority
    }

    /// The managed activation authority.
    pub closed spec fn spec_managed_activation_authority(&self) -> ManagedActivationAuthority {
        self.managed_activation_authority
    }

    /// The receiver.
    pub closed spec fn spec_receiver(&self) -> VerifiedIngressReceiver {
        self.receiver
    }

    /// Splits every capability once; the authorities must never reach a request handler.
    pub fn into_parts(self) -> (r: (
        IngressVerifier<C, S>,
        ListenerBindingAuthority,
        GatewayConsentAuthority,
        ManagedActivationAuthority,
        VerifiedIngressReceiver,
    ))
        ensures
            r == (
                self.spec_verifier(),
                self.spec_listener_authority(),
                self.spec_gateway_consent_authority(),
                self.spec_managed_activation_authority(),
                self.spec_receiver(),
            ),
    {
        (
            self.verifier,
            self.listener_authority,
            self.gateway_consent_authority,
            self.managed_activation_authority,
            self.receiver,
        )
    }
}

/// Whether a verifier kept its seal, registry, key rings and clock.
pub open spec fn kept_configuration<C: VerifierClock, S: OneShotNonceStore>(
    a: IngressVerifier<C, S>,
    b: IngressVerifier<C, S>,
) -> bool {
    &&& b.spec_seal() == a.spec_seal()
    &&& b.spec_registry() == a.spec_registry()
    &&& b.spec_managed_keys() == a.spec_managed_keys()
    &&& b.spec_capability_keys() == a.spec_capability_keys()
    &&& b.spec_clock() == a.spec_clock()
    &&& b.spec_high_water() >= a.spec_high_water()
}

impl<C: VerifierClock, S: OneShotNonceStore> IngressVerifier<C, S> {
    /// The verification domain.
    pub closed spec fn spec_seal(&self) -> Arc<VerificationDomainSeal> {
        self.domain_seal
    }

    /// The route specification registry.
    pub closed spec fn spec_registry(&self) -> RouteSpecRegistry {
        self.registry
    }

    /// The managed key ring.
    pub closed spec fn spec_managed_keys(&self) -> Seq<(u64, Seq<u8>)> {
        self.managed_keys.spec_entries()
    }

    /// The capability key ring.
    pub closed spec fn spec_capability_keys(&self) -> Seq<(u64, Seq<u8>)> {
        self.capability_keys.spec_entries()
    }

    /// The wall clock.
    pub closed spec fn spec_clock(&self) -> C {
        self.clock
    }

    /// The irreversible high-water mark of the clock.
    pub closed spec fn spec_high_water(&self) -> u64 {
        self.clock_high_water_millis
    }

    /// The nonce store.
    pub closed spec fn spec_store(&self) -> S {
        self.nonce_store
    }

    /// Makes the instance-bound runtime of verifier, authorities and receiver; it opens no
    /// network, database or sending capability.
    pub fn initialize(
        registry: RouteSpecRegistry,
        managed_keys: ManagedVerificationKeyRing,
        capability_keys: CapabilityVerificationKeyRing,
        clock: C,
        nonce_store: S,
    ) -> (r: IngressVerifierRuntime<C, S>)
        ensures
            r.spec_verifier().spec_registry() == registry,
            r.spec_verifier().spec_managed_keys() == managed_keys.spec_entries(),
            r.spec_verifier().spec_capability_keys() == capability_keys.spec_entries(),
            r.spec_verifier().spec_clock() == clock,
            r.spec_verifier().spec_store() == nonce_store,
            r.spec_verifier().spec_high_water() == 0,
            r.spec_listener_authority().spec_seal() == r.spec_verifier().spec_seal(),
            r.spec_gateway_consent_authority().spec_seal() == r.spec_verifier().spec_seal(),
            r.spec_managed_activation_authority().spec_seal() == r.spec_verifier().spec_seal(),
            r.spec_receiver().spec_seal() == r.spec_verifier().spec_seal(),
            r.spec_receiver().spec_registry_digest() == registry.spec_digest(),
    {
        let domain_seal = Arc::new(VerificationDomainSeal::new());
        let registry_digest = registry.digest();
        let verifier = IngressVerifier {
            domain_seal: domain_seal.clone(),
            registry,
            managed_keys,
            capability_keys,
            clock,
            clock_high_water_millis: 0,
            nonce_store,
        };
        IngressVerifierRuntime {
            verifier,
            listener_authority: ListenerBindingAuthority::new(domain_seal.clone()),
            gateway_consent_authority: GatewayConsentAuthority::new(domain_seal.clone()),
            managed_activation_authority: ManagedActivationAuthority::new(domain_seal.clone()),
            receiver: VerifiedIngressReceiver::new(domain_seal, registry_digest),
        }
    }

    /// Returns the fixed digest of the registry the verifier uses.
    pub fn registry_digest(&self) -> (r: RegistryDigest)
        ensures
            r == self.spec_registry().spec_digest(),
    {
        self.registry.digest()
    }

    /// Raises the high-water mark to a clock reading; a failed reading fails closed.
    fn observe_clock(&mut self, reading: Result<u64, IngressReject>) -> (r: Result<u64, IngressReject>)
        ensures
            kept_configuration(*old(self), *final(self)),
            final(self).spec_store() == old(self).spec_store(),
            match reading {
                Ok(t) => r == Ok::<u64, IngressReject>(final(self).spec_high_water())
                    && final(self).spec_high_water() == max_millis(old(self).spec_high_water(), t),
                Err(_) => r == Err::<u64, IngressReject>(IngressReject::ClockUnavailable)
                    && final(self).spec_high_water() == old(self).spec_high_water(),
            },
    {
        let observed = match reading {
            Ok(t) => t,
            Err(_) => {
                return Err(IngressReject::ClockUnavailable);
            },
        };
        if observed > self.clock_high_water_millis {
            self.clock_high_water_millis = observed;
        }
        Ok(self.clock_high_water_millis)
    }

    /// Reads the clock, where the seals matched.
    fn read_clock(&self, same_domain: bool) -> (r: Result<u64, IngressReject>)
        ensures
            same_domain ==> self.spec_clock().reads(r),
    {
        if same_domain {
            self.clock.now_millis()
        } else {
            Err(IngressReject::ClockUnavailable)
        }
    }

    fn consume_nonce(
        &mut self,
        namespace: NonceNamespace,
        issuer_epoch: IssuerEpoch,
        nonce: OneShotNonce,
        expires_at_millis: u64,
        now_millis: u64,
    ) -> (r: Result<(), IngressReject>)
        ensures
            kept_configuration(*old(self), *final(self)),
            final(self).spec_high_water() == old(self).spec_high_water(),
            r is Err ==> r == Err::<(), IngressReject>(IngressReject::NonceRejected),
            exists|store_result: Result<(), NonceReject>|
                #[trigger] S::consumes(
                    old(self).spec_store(),
                    final(self).spec_store(),
                    namespace,
                    issuer_epoch,
                    nonce,
                    expires_at_millis,
                    now_millis,
                    store_result,
                ) && (r is Ok <==> store_result is Ok),
    {
        let store_result = self.nonce_store.consume(namespace, issuer_epoch, nonce, expires_at_millis, now_millis);
        assert(S::consumes(
            old(self).spec_store(),
            self.spec_store(),
            namespace,
            issuer_epoch,
            nonce,
            expires_at_millis,
            now_millis,
            store_result,
        ));
        match store_result {
            Ok(()) => Ok(()),
            Err(_) => Err(IngressReject::NonceRejected),
        }
    }

    /// Verifies a local operation once the seal check has given `same_domain`: every outcome
    /// is stated exactly.
    #[verifier::spinoff_prover]
    #[verifier::rlimit(40)]
    pub(crate) fn verify_local_operation_checked(
        &self,
        same_domain: bool,
        request: RawIngressRequest,
        connection: &LocalListenerContext,
    ) -> (r: Result<
        VerifiedIngressRequest,
        IngressReject,
    >)
        ensures
            r matches Err(e) ==> e == IngressReject::VerificationDomainMismatch || local_outcome(
                self.spec_registry().spec_specs(),
                request,
                connection.view(),
            ) == Err::<int, IngressReject>(e),
            r matches Ok(v) ==> {
                &&& v.spec_seal() == self.spec_seal()
                &&& local_outcome(self.spec_registry().spec_specs(), request, connection.view()) matches Ok(i)
                &&& verified_as(v, self.spec_registry().spec_specs()[i], request)
                &&& v.spec_proof() matches VerifiedProof::LocalOperationScoped(p)
                &&& p.listener == connection.view().listener
                &&& p.token_scope == connection.view().token_scope
                &&& p.auth_scope == connection.view().auth_scope
                &&& p.registry_digest == self.spec_registry().spec_digest()
                &&& p.request_digest.bytes() == raw_request_digest(self.spec_registry().spec_specs()[i], request)
                &&& v.spec_authorization() == VerifiedAuthorization::NoEgress
            },
            !same_domain ==> r == Err::<VerifiedIngressRequest, IngressReject>(IngressReject::VerificationDomainMismatch),
            same_domain ==> match local_outcome(self.spec_registry().spec_specs(), request, connection.view()) {
                Err(e) => r == Err::<VerifiedIngressRequest, IngressReject>(e),
                Ok(_) => r is Ok,
            },
    {
        if !same_domain {
            return Err(IngressReject::VerificationDomainMismatch);
        }
        let ghost specs = self.registry.spec_specs();
        let binding = match self.registry.bind_request(&request) {
            Ok(b) => b,
            Err(e) => {
                return Err(e);
            },
        };
        let ghost i = binding_check(specs, request)->Ok_0;
        assert(binding_of(binding, specs[i], request));
        let c = connection.snapshot();
        if binding.operation.spec.dispatch_domain() != RequestDispatchDomain::Local {
            assert(local_outcome(specs, request, c) == Err::<int, IngressReject>(IngressReject::DispatchDomainMismatch));
            return Err(IngressReject::DispatchDomainMismatch);
        }
        let scope_ok = match binding.operation.spec.local_scope() {
            Some(scope) => scope == c.auth_scope,
            None => false,
        };
        if !scope_ok {
            assert(local_outcome(specs, request, c) == Err::<int, IngressReject>(IngressReject::LocalScopeMismatch));
            return Err(IngressReject::LocalScopeMismatch);
        }
        assert(local_outcome(specs, request, connection.view()) == Ok::<int, IngressReject>(i));
        assert(binding.request_digest.bytes() == raw_request_digest(specs[i], request));
        let request_digest = binding.request_digest;
        let operation = binding.operation;
        let sanitized = request.into_sanitized(operation.spec.semantic_headers());
        let v = VerifiedIngressRequest::from_local(
            self.domain_seal.clone(),
            operation,
            sanitized,
            VerifiedLocalProofBinding {
                listener: c.listener,
                token_scope: c.token_scope,
                auth_scope: c.auth_scope,
                registry_digest: self.registry.digest(),
                request_digest,
            },
        );
        assert(verified_as(v, specs[i], request));
        Ok(v)
    }

    /// Verifies a local, liveness or auth-flow request; what it yields has no egress
    /// authority.
    pub fn verify_local_operation(&self, request: RawIngressRequest, connection: &LocalListenerContext) -> (r: Result<
        VerifiedIngressRequest,
        IngressReject,
    >)
        ensures
            r matches Err(e) ==> e == IngressReject::VerificationDomainMismatch || local_outcome(
                self.spec_registry().spec_specs(),
                request,
                connection.view(),
            ) == Err::<int, IngressReject>(e),
            r matches Ok(v) ==> {
                &&& v.spec_seal() == self.spec_seal()
                &&& local_outcome(self.spec_registry().spec_specs(), request, connection.view()) matches Ok(i)
                &&& verified_as(v, self.spec_registry().spec_specs()[i], request)
                &&& v.spec_proof() matches VerifiedProof::LocalOperationScoped(p)
                &&& p.listener == connection.view().listener
                &&& p.token_scope == connection.view().token_scope
                &&& p.auth_scope == connection.view().auth_scope
                &&& p.registry_digest == self.spec_registry().spec_digest()
                &&& p.request_digest.bytes() == raw_request_digest(self.spec_registry().spec_specs()[i], request)
                &&& v.spec_authorization() == VerifiedAuthorization::NoEgress
            },
    {
        let same_domain = same_seal(&self.domain_seal, &connection.domain_seal);
        self.verify_local_operation_checked(same_domain, request, connection)
    }

    /// Verifies a gateway-only request once the seal check has given `same_domain` and the
    /// clock `reading`: every outcome is stated exactly.
    #[verifier::spinoff_prover]
    #[verifier::rlimit(60)]
    pub(crate) fn verify_gateway_only_checked(
        &mut self,
        same_domain: bool,
        reading: Result<u64, IngressReject>,
        request: RawIngressRequest,
        connection: &GatewayOnlyListenerContext,
        consent: &GatewayOnlyConsentSnapshot,
    ) -> (r: Result<VerifiedIngressRequest, IngressReject>)
        ensures
            kept_configuration(*old(self), *final(self)),
            final(self).spec_store() == old(self).spec_store(),
            r matches Err(e) ==> e == IngressReject::VerificationDomainMismatch || e == IngressReject::ClockUnavailable
                || gateway_outcome(
                old(self).spec_registry().spec_specs(),
                request,
                connection.view(),
                consent.view(),
                final(self).spec_high_water(),
            ) == Err::<int, IngressReject>(e),
            r matches Ok(v) ==> {
                let specs = old(self).spec_registry().spec_specs();
                let c = connection.view();
                let k = consent.view();
                &&& v.spec_seal() == old(self).spec_seal()
                &&& gateway_outcome(specs, request, c, k, final(self).spec_high_water()) matches Ok(i)
                &&& verified_as(v, specs[i], request)
                &&& v.spec_proof() matches VerifiedProof::GatewayOnlyScopedConsent(p)
                &&& p.listener == c.listener
                &&& p.token_scope == c.token_scope
                &&& p.audience == c.audience
                &&& p.issued_at_millis == k.issued_at_millis
                &&& p.expires_at_millis == k.expires_at_millis
                &&& p.consent_revision == k.consent_revision
                &&& p.route_policy_revision == k.route_policy_revision
                &&& p.registry_digest == old(self).spec_registry().spec_digest()
                &&& p.request_digest.bytes() == raw_request_digest(specs[i], request)
                &&& v.spec_authorization() == (VerifiedAuthorization::GatewayOnlyExplicit {
                    maximum_trust_tier: k.maximum_trust_tier,
                    local_handle_allowed: false,
                })
            },
            !same_domain ==> r == Err::<VerifiedIngressRequest, IngressReject>(IngressReject::VerificationDomainMismatch)
                && final(self).spec_high_water() == old(self).spec_high_water(),
            same_domain ==> match reading {
                Err(_) => r == Err::<VerifiedIngressRequest, IngressReject>(IngressReject::ClockUnavailable)
                    && final(self).spec_high_water() == old(self).spec_high_water(),
                Ok(t) => final(self).spec_high_water() == max_millis(old(self).spec_high_water(), t) && match gateway_outcome(
                    old(self).spec_registry().spec_specs(),
                    request,
                    connection.view(),
                    consent.view(),
                    final(self).spec_high_water(),
                ) {
                    Err(e) => r == Err::<VerifiedIngressRequest, IngressReject>(e),
                    Ok(_) => r is Ok,
                },
            },
    {
        if !same_domain {
            return Err(IngressReject::VerificationDomainMismatch);
        }
        let now = match self.observe_clock(reading) {
            Ok(t) => t,
            Err(e) => {
                return Err(e);
            },
        };
        let ghost specs = self.registry.spec_specs();
        let binding = match self.registry.bind_request(&request) {
            Ok(b) => b,
            Err(e) => {
                return Err(e);
            },
        };
        let ghost i = binding_check(specs, request)->Ok_0;
        assert(binding_of(binding, specs[i], request));
        let c = connection.snapshot();
        let k = consent.snapshot();
        match validate_remote_data_operation(binding.operation.spec.kind(), binding.operation.spec.dispatch_domain()) {
            Ok(()) => {},
            Err(e) => {
                assert(gateway_outcome(specs, request, c, k, now) == Err::<int, IngressReject>(e));
                return Err(e);
            },
        }
        match validate_gateway_consent(connection, consent, now) {
            Ok(()) => {},
            Err(e) => {
                assert(gateway_outcome(specs, request, c, k, now) == Err::<int, IngressReject>(e));
                return Err(e);
            },
        }
        assert(gateway_outcome(specs, request, c, k, now) == Ok::<int, IngressReject>(i));
        assert(binding.request_digest.bytes() == raw_request_digest(specs[i], request));
        let request_digest = binding.request_digest;
        let operation = binding.operation;
        let sanitized = request.into_sanitized(operation.spec.semantic_headers());
        let v = VerifiedIngressRequest::from_gateway_only(
            self.domain_seal.clone(),
            operation,
            sanitized,
            VerifiedGatewayOnlyProofBinding {
                listener: c.listener,
                token_scope: c.token_scope,
                audience: c.audience,
                issued_at_millis: k.issued_at_millis,
                expires_at_millis: k.expires_at_millis,
                consent_revision: k.consent_revision,
                route_policy_revision: k.route_policy_revision,
                registry_digest: self.registry.digest(),
                request_digest,
            },
            k.maximum_trust_tier,
        );
        assert(verified_as(v, specs[i], request));
        Ok(v)
    }

    /// Verifies a request of the separate gateway-only listener that the user explicitly
    /// enabled; it never grants a local handle.
    pub fn verify_gateway_only(
        &mut self,
        request: RawIngressRequest,
        connection: &GatewayOnlyListenerContext,
        consent: &GatewayOnlyConsentSnapshot,
    ) -> (r: Result<VerifiedIngressRequest, IngressReject>)
        ensures
            kept_configuration(*old(self), *final(self)),
            final(self).spec_store() == old(self).spec_store(),
            r matches Err(e) ==> e == IngressReject::VerificationDomainMismatch || e == IngressReject::ClockUnavailable
                || gateway_outcome(
                old(self).spec_registry().spec_specs(),
                request,
                connection.view(),
                consent.view(),
                final(self).spec_high_water(),
            ) == Err::<int, IngressReject>(e),
            r matches Ok(v) ==> {
                let specs = old(self).spec_registry().spec_specs();
                let c = connection.view();
                let k = consent.view();
                &&& v.spec_seal() == old(self).spec_seal()
                &&& gateway_outcome(specs, request, c, k, final(self).spec_high_water()) matches Ok(i)
                &&& verified_as(v, specs[i], request)
                &&& v.spec_proof() matches VerifiedProof::GatewayOnlyScopedConsent(p)
                &&& p.listener == c.listener
                &&& p.token_scope == c.token_scope
                &&& p.audience == c.audience
                &&& p.issued_at_millis == k.issued_at_millis
                &&& p.expires_at_millis == k.expires_at_millis
                &&& p.consent_revision == k.consent_revision
                &&& p.route_policy_revision == k.route_policy_revision
                &&& p.registry_digest == old(self).spec_registry().spec_digest()
                &&& p.request_digest.bytes() == raw_request_digest(specs[i], request)
                &&& v.spec_authorization() == (VerifiedAuthorization::GatewayOnlyExplicit {
                    maximum_trust_tier: k.maximum_trust_tier,
                    local_handle_allowed: false,
                })
            },
    {
        let same_domain = same_seal(&self.domain_seal, &connection.domain_seal) && same_seal(
            &self.domain_seal,
            &consent.domain_seal,
        );
        let reading = self.read_clock(same_domain);
        self.verify_gateway_only_checked(same_domain, reading, request, connection, consent)
    }

    /// Verifies a capability probe once the seal check has given `same_domain` and the clock
    /// `reading`: a refusal comes only from those, from a failing check or from the nonce
    /// store, and success is owed whenever none of these refuses.
    #[verifier::spinoff_prover]
    #[verifier::rlimit(100)]
    pub(crate) fn verify_capability_probe_checked(
        &mut self,
        same_domain: bool,
        reading: Result<u64, IngressReject>,
        request: RawIngressRequest,
        connection: &CapabilityListenerContext,
        authorization: EncodedCapabilityAuthorization,
    ) -> (r: Result<VerifiedIngressRequest, IngressReject>)
        ensures
            kept_configuration(*old(self), *final(self)),
            r matches Err(e) && e != IngressReject::NonceRejected ==> final(self).spec_store() == old(self).spec_store(),
            r matches Err(e) ==> e == IngressReject::VerificationDomainMismatch || e == IngressReject::ClockUnavailable
                || e == IngressReject::NonceRejected || capability_refusal(
                old(self).spec_registry().spec_specs(),
                old(self).spec_registry().spec_digest(),
                old(self).spec_capability_keys(),
                authorization.bytes(),
                request,
                connection.view(),
                final(self).spec_high_water(),
                e,
            ),
            r matches Ok(v) ==> {
                let specs = old(self).spec_registry().spec_specs();
                &&& v.spec_seal() == old(self).spec_seal()
                &&& capability_pre(specs, request) matches Ok(i)
                &&& verified_as(v, specs[i], request)
                &&& v.spec_proof() matches VerifiedProof::CapabilityScoped(claims)
                &&& exists|tag: Seq<u8>, b: RequestBinding|
                    #[trigger] capability_claims_reach(
                        specs,
                        old(self).spec_registry().spec_digest(),
                        old(self).spec_capability_keys(),
                        authorization.bytes(),
                        request,
                        connection.view(),
                        final(self).spec_high_water(),
                        claims,
                        tag,
                        b,
                        Ok::<(), IngressReject>(()),
                    )
                &&& v.spec_authorization() == VerifiedAuthorization::CapabilityBound
            },
            !same_domain ==> r == Err::<VerifiedIngressRequest, IngressReject>(IngressReject::VerificationDomainMismatch)
                && final(self).spec_high_water() == old(self).spec_high_water(),
            same_domain && reading is Err ==> r == Err::<VerifiedIngressRequest, IngressReject>(
                IngressReject::ClockUnavailable,
            ) && final(self).spec_high_water() == old(self).spec_high_water(),
            same_domain && reading is Ok ==> final(self).spec_high_water() == max_millis(
                old(self).spec_high_water(),
                reading->Ok_0,
            ),
            r matches Err(e) ==> (e == IngressReject::VerificationDomainMismatch && !same_domain) || (e
                == IngressReject::ClockUnavailable && same_domain && reading is Err) || (same_domain && reading is Ok && (
            capability_refusal(
                old(self).spec_registry().spec_specs(),
                old(self).spec_registry().spec_digest(),
                old(self).spec_capability_keys(),
                authorization.bytes(),
                request,
                connection.view(),
                final(self).spec_high_water(),
                e,
            ) || (e == IngressReject::NonceRejected && capability_nonce_outcome(
                old(self).spec_registry().spec_specs(),
                old(self).spec_registry().spec_digest(),
                old(self).spec_capability_keys(),
                authorization.bytes(),
                request,
                connection.view(),
                final(self).spec_high_water(),
                old(self).spec_store(),
                final(self).spec_store(),
                false,
            )))),
            r is Ok ==> same_domain && reading is Ok && capability_nonce_outcome(
                old(self).spec_registry().spec_specs(),
                old(self).spec_registry().spec_digest(),
                old(self).spec_capability_keys(),
                authorization.bytes(),
                request,
                connection.view(),
                final(self).spec_high_water(),
                old(self).spec_store(),
                final(self).spec_store(),
                true,
            ),
            same_domain && reading is Ok && (forall|e: IngressReject| !capability_refusal(
                old(self).spec_registry().spec_specs(),
                old(self).spec_registry().spec_digest(),
                old(self).spec_capability_keys(),
                authorization.bytes(),
                request,
                connection.view(),
                final(self).spec_high_water(),
                e,
            )) ==> r is Ok || (r == Err::<VerifiedIngressRequest, IngressReject>(IngressReject::NonceRejected)
                && capability_nonce_outcome(
                old(self).spec_registry().spec_specs(),
                old(self).spec_registry().spec_digest(),
                old(self).spec_capability_keys(),
                authorization.bytes(),
                request,
                connection.view(),
                final(self).spec_high_water(),
                old(self).spec_store(),
                final(self).spec_store(),
                false,
            )),
    {
        if !same_domain {
            return Err(IngressReject::VerificationDomainMismatch);
        }
        let now = match self.observe_clock(reading) {
            Ok(t) => t,
            Err(e) => {
                return Err(e);
            },
        };
        let ghost specs = self.registry.spec_specs();
        let ghost rd = self.registry.spec_digest();
        let ghost keys = self.capability_keys.spec_entries();
        let ghost wire = authorization.bytes();
        let c = connection.snapshot();
        let binding = match self.registry.bind_request(&request) {
            Ok(b) => b,
            Err(e) => {
                assert(capability_pre(specs, request) == Err::<int, IngressReject>(e));
                assert(capability_refusal(specs, rd, keys, wire, request, connection.view(), now, e));
                return Err(e);
            },
        };
        let ghost i = binding_check(specs, request)->Ok_0;
        assert(binding_of(binding, specs[i], request));
        if binding.operation.spec.kind() != RequestKind::DeploymentModelProbe || binding.operation.spec.dispatch_domain()
            != RequestDispatchDomain::BoundDeployment || request.body().len() != 0 {
            assert(capability_pre(specs, request) == Err::<int, IngressReject>(IngressReject::CapabilityConstraintMismatch));
            assert(capability_refusal(specs, rd, keys, wire, request, connection.view(), now, IngressReject::CapabilityConstraintMismatch));
            return Err(IngressReject::CapabilityConstraintMismatch);
        }
        assert(capability_pre(specs, request) == Ok::<int, IngressReject>(i));
        let signed = match decode_capability_authorization(authorization.as_bytes()) {
            Ok(s) => s,
            Err(e) => {
                proof {
                    assert(!capability_decodable(wire)) by {
                        if capability_decodable(wire) {
                            let (cl, t) = choose|cl: CapabilityClaims, t: Seq<u8>|
                                #[trigger] capability_carries(wire, cl, t) && capability_claims_wire(cl).len()
                                    <= MAX_CAPABILITY_AUTHORIZATION_BYTES;
                            assert(wire != capability_authorization_wire(capability_claims_wire(cl), t));
                        }
                    }
                }
                assert(capability_refusal(specs, rd, keys, wire, request, connection.view(), now, e));
                return Err(e);
            },
        };
        let ghost claims = signed.claims;
        let ghost tag = signed.tag@;
        assert(capability_carries(wire, claims, tag));
        let key = match self.capability_keys.key_for(signed.claims.issuer_epoch) {
            Ok(k) => k,
            Err(e) => {
                assert(capability_claims_reach(specs, rd, keys, wire, request, c, now, claims, tag, binding, Err(e)));
                assert(capability_refusal(specs, rd, keys, wire, request, connection.view(), now, e));
                return Err(e);
            },
        };
        match verify_hmac(
            key,
            "bianma.ingress.capability-authorization-mac.v1\0".as_bytes(),
            signed.claims_wire.as_slice(),
            None,
            &signed.tag,
        ) {
            Ok(()) => {},
            Err(e) => {
                assert(capability_claims_reach(specs, rd, keys, wire, request, c, now, claims, tag, binding, Err(e)));
                assert(capability_refusal(specs, rd, keys, wire, request, connection.view(), now, e));
                return Err(e);
            },
        }
        match validate_capability_claims(connection, &binding, self.registry.digest(), &signed.claims, now) {
            Ok(()) => {},
            Err(e) => {
                assert(capability_claims_reach(specs, rd, keys, wire, request, c, now, claims, tag, binding, Err(e)));
                assert(capability_refusal(specs, rd, keys, wire, request, connection.view(), now, e));
                return Err(e);
            },
        }
        assert(capability_claims_reach(specs, rd, keys, wire, request, c, now, claims, tag, binding, Ok(())));
        let ghost b = binding;
        let signed_claims = signed.claims;
        let ghost store_before = self.spec_store();
        let consumed = self.consume_nonce(
            NonceNamespace::CapabilityAuthorization,
            signed_claims.issuer_epoch,
            signed_claims.nonce,
            signed_claims.deadline_millis,
            now,
        );
        proof {
            let sr = choose|sr: Result<(), NonceReject>|
                #[trigger] S::consumes(
                    store_before,
                    self.spec_store(),
                    NonceNamespace::CapabilityAuthorization,
                    signed_claims.issuer_epoch,
                    signed_claims.nonce,
                    signed_claims.deadline_millis,
                    now,
                    sr,
                ) && (consumed is Ok <==> sr is Ok);
            assert(capability_nonce_step(
                specs,
                rd,
                keys,
                wire,
                request,
                c,
                now,
                store_before,
                self.spec_store(),
                claims,
                tag,
                b,
                sr,
            ));
        }
        match consumed {
            Ok(()) => {},
            Err(e) => {
                return Err(e);
            },
        }
        let operation = binding.operation;
        let sanitized = request.into_sanitized(operation.spec.semantic_headers());
        let v = VerifiedIngressRequest::from_capability(self.domain_seal.clone(), operation, sanitized, signed_claims);
        assert(verified_as(v, specs[i], request));
        assert(capability_claims_reach(specs, rd, keys, wire, request, c, now, claims, tag, b, Ok(())));
        Ok(v)
    }

    /// Verifies a management capability probe: no user body, one fixed deployment and no
    /// fallback.
    #[verifier::spinoff_prover]
    #[verifier::rlimit(100)]
    pub fn verify_capability_probe(
        &mut self,
        request: RawIngressRequest,
        connection: &CapabilityListenerContext,
        authorization: EncodedCapabilityAuthorization,
    ) -> (r: Result<VerifiedIngressRequest, IngressReject>)
        ensures
            kept_configuration(*old(self), *final(self)),
            r matches Err(e) && e != IngressReject::NonceRejected ==> final(self).spec_store() == old(self).spec_store(),
            r matches Err(e) ==> e == IngressReject::VerificationDomainMismatch || e == IngressReject::ClockUnavailable
                || e == IngressReject::NonceRejected || capability_refusal(
                old(self).spec_registry().spec_specs(),
                old(self).spec_registry().spec_digest(),
                old(self).spec_capability_keys(),
                authorization.bytes(),
                request,
                connection.view(),
                final(self).spec_high_water(),
                e,
            ),
            r matches Ok(v) ==> {
                let specs = old(self).spec_registry().spec_specs();
                &&& v.spec_seal() == old(self).spec_seal()
                &&& capability_pre(specs, request) matches Ok(i)
                &&& verified_as(v, specs[i], request)
                &&& v.spec_proof() matches VerifiedProof::CapabilityScoped(claims)
                &&& exists|tag: Seq<u8>, b: RequestBinding|
                    #[trigger] capability_claims_reach(
                        specs,
                        old(self).spec_registry().spec_digest(),
                        old(self).spec_capability_keys(),
                        authorization.bytes(),
                        request,
                        connection.view(),
                        final(self).spec_high_water(),
                        claims,
                        tag,
                        b,
                        Ok::<(), IngressReject>(()),
                    )
                &&& v.spec_authorization() == VerifiedAuthorization::CapabilityBound
            },
            r is Ok ==> capability_nonce_outcome(
                old(self).spec_registry().spec_specs(),
                old(self).spec_registry().spec_digest(),
                old(self).spec_capability_keys(),
                authorization.bytes(),
                request,
                connection.view(),
                final(self).spec_high_water(),
                old(self).spec_store(),
                final(self).spec_store(),
                true,
            ),
            r == Err::<VerifiedIngressRequest, IngressReject>(IngressReject::NonceRejected) ==> capability_nonce_outcome(
                old(self).spec_registry().spec_specs(),
                old(self).spec_registry().spec_digest(),
                old(self).spec_capability_keys(),
                authorization.bytes(),
                request,
                connection.view(),
                final(self).spec_high_water(),
                old(self).spec_store(),
                final(self).spec_store(),
                false,
            ),
    {
        let same_domain = same_seal(&self.domain_seal, &connection.domain_seal);
        let reading = self.read_clock(same_domain);
        self.verify_capability_probe_checked(same_domain, reading, request, connection, authorization)
    }

    /// Verifies a managed request once the seal check has given `same_domain` and the clock
    /// `reading`: a refusal comes only from those, from a failing check or from the nonce
    /// store, and success is owed whenever none of these refuses.
    #[verifier::spinoff_prover]
    #[verifier::rlimit(100)]
    pub(crate) fn verify_managed_checked(
        &mut self,
        same_domain: bool,
        reading: Result<u64, IngressReject>,
        signed: SignedIngressRequest,
        connection: &ManagedListenerContext,
        active: &ManagedActivationBinding,
    ) -> (r: Result<VerifiedIngressRequest, IngressReject>)
        ensures
            kept_configuration(*old(self), *final(self)),
            r matches Err(e) && e != IngressReject::NonceRejected ==> final(self).spec_store() == old(self).spec_store(),
            r matches Err(e) ==> e == IngressReject::VerificationDomainMismatch || e == IngressReject::ClockUnavailable
                || e == IngressReject::NonceRejected || managed_refusal(
                old(self).spec_registry().spec_specs(),
                old(self).spec_registry().spec_digest(),
                old(self).spec_managed_keys(),
                signed.spec_attestation(),
                signed.spec_bundle(),
                signed.spec_request(),
                connection.view(),
                active.view(),
                final(self).spec_high_water(),
                e,
            ),
            r matches Ok(v) ==> {
                let specs = old(self).spec_registry().spec_specs();
                &&& v.spec_seal() == old(self).spec_seal()
                &&& binding_check(specs, signed.spec_request()) matches Ok(i)
                &&& verified_as(v, specs[i], signed.spec_request())
                &&& exists|claims: AttestationClaims, tag: Seq<u8>, bundle: AuthorizationBundle, b: RequestBinding|
                    #[trigger] managed_back_reach(
                        specs,
                        old(self).spec_registry().spec_digest(),
                        old(self).spec_managed_keys(),
                        signed.spec_attestation(),
                        signed.spec_bundle(),
                        signed.spec_request(),
                        connection.view(),
                        active.view(),
                        final(self).spec_high_water(),
                        claims,
                        tag,
                        bundle,
                        b,
                        Ok(()),
                    ) && v.spec_proof() == VerifiedProof::Managed(managed_proof_of(claims))
                        && v.spec_authorization() == VerifiedAuthorization::Managed(Box::new(bundle))
            },
            !same_domain ==> r == Err::<VerifiedIngressRequest, IngressReject>(IngressReject::VerificationDomainMismatch)
                && final(self).spec_high_water() == old(self).spec_high_water(),
            same_domain && reading is Err ==> r == Err::<VerifiedIngressRequest, IngressReject>(
                IngressReject::ClockUnavailable,
            ) && final(self).spec_high_water() == old(self).spec_high_water(),
            same_domain && reading is Ok ==> final(self).spec_high_water() == max_millis(
                old(self).spec_high_water(),
                reading->Ok_0,
            ),
            r matches Err(e) ==> (e == IngressReject::VerificationDomainMismatch && !same_domain) || (e
                == IngressReject::ClockUnavailable && same_domain && reading is Err) || (same_domain && reading is Ok && (
            managed_refusal(
                old(self).spec_registry().spec_specs(),
                old(self).spec_registry().spec_digest(),
                old(self).spec_managed_keys(),
                signed.spec_attestation(),
                signed.spec_bundle(),
                signed.spec_request(),
                connection.view(),
                active.view(),
                final(self).spec_high_water(),
                e,
            ) || (e == IngressReject::NonceRejected && managed_nonce_outcome(
                old(self).spec_registry().spec_specs(),
                old(self).spec_registry().spec_digest(),
                old(self).spec_managed_keys(),
                signed.spec_attestation(),
                signed.spec_bundle(),
                signed.spec_request(),
                connection.view(),
                active.view(),
                final(self).spec_high_water(),
                old(self).spec_store(),
                final(self).spec_store(),
                false,
            )))),
            r is Ok ==> same_domain && reading is Ok && managed_nonce_outcome(
                old(self).spec_registry().spec_specs(),
                old(self).spec_registry().spec_digest(),
                old(self).spec_managed_keys(),
                signed.spec_attestation(),
                signed.spec_bundle(),
                signed.spec_request(),
                connection.view(),
                active.view(),
                final(self).spec_high_water(),
                old(self).spec_store(),
                final(self).spec_store(),
                true,
            ),
            same_domain && reading is Ok && (forall|e: IngressReject| !managed_refusal(
                old(self).spec_registry().spec_specs(),
                old(self).spec_registry().spec_digest(),
                old(self).spec_managed_keys(),
                signed.spec_attestation(),
                signed.spec_bundle(),
                signed.spec_request(),
                connection.view(),
                active.view(),
                final(self).spec_high_water(),
                e,
            )) ==> r is Ok || (r == Err::<VerifiedIngressRequest, IngressReject>(IngressReject::NonceRejected)
                && managed_nonce_outcome(
                old(self).spec_registry().spec_specs(),
                old(self).spec_registry().spec_digest(),
                old(self).spec_managed_keys(),
                signed.spec_attestation(),
                signed.spec_bundle(),
                signed.spec_request(),
                connection.view(),
                active.view(),
                final(self).spec_high_water(),
                old(self).spec_store(),
                final(self).spec_store(),
                false,
            )),
    {
        if !same_domain {
            return Err(IngressReject::VerificationDomainMismatch);
        }
        let now = match self.observe_clock(reading) {
            Ok(t) => t,
            Err(e) => {
                return Err(e);
            },
        };
        let ghost specs = self.registry.spec_specs();
        let ghost rd = self.registry.spec_digest();
        let ghost keys = self.managed_keys.spec_entries();
        let ghost att = signed.spec_attestation();
        let ghost bw = signed.spec_bundle();
        let ghost c = connection.view();
        let ghost a = active.view();
        let ghost req = signed.spec_request();
        let (request, encoded_attestation, encoded_bundle) = signed.into_parts();
        let bundle_digest = authorization_bundle_digest(encoded_bundle.as_slice());
        let attestation = match decode_attestation(encoded_attestation.as_slice()) {
            Ok(s) => s,
            Err(e) => {
                proof {
                    assert(!attestation_decodable(att)) by {
                        if attestation_decodable(att) {
                            let (cl, t) = choose|cl: AttestationClaims, t: Seq<u8>|
                                #[trigger] attestation_carries(att, cl, t) && attestation_claims_wire(cl).len()
                                    <= MAX_ATTESTATION_BYTES;
                            assert(att != attestation_wire(attestation_claims_wire(cl), t));
                        }
                    }
                }
                assert(managed_refusal(specs, rd, keys, att, bw, req, c, a, now, e));
                return Err(e);
            },
        };
        let ghost claims = attestation.claims;
        let ghost tag = attestation.tag@;
        assert(attestation_carries(att, claims, tag));
        let key = match self.managed_keys.key_for(attestation.claims.issuer_epoch) {
            Ok(k) => k,
            Err(e) => {
                assert(managed_front_reach(keys, att, bw, c, a, now, claims, tag, Err(e)));
                assert(managed_refusal(specs, rd, keys, att, bw, req, c, a, now, e));
                return Err(e);
            },
        };
        match verify_hmac(
            key,
            "bianma.ingress.context-attestation-mac.v1\0".as_bytes(),
            attestation.claims_wire.as_slice(),
            Some(bundle_digest.as_bytes()),
            &attestation.tag,
        ) {
            Ok(()) => {},
            Err(e) => {
                assert(managed_front_reach(keys, att, bw, c, a, now, claims, tag, Err(e)));
                assert(managed_refusal(specs, rd, keys, att, bw, req, c, a, now, e));
                return Err(e);
            },
        }
        match validate_managed_scope(connection, active, &attestation.claims, now) {
            Ok(()) => {},
            Err(e) => {
                assert(managed_front_reach(keys, att, bw, c, a, now, claims, tag, Err(e)));
                assert(managed_refusal(specs, rd, keys, att, bw, req, c, a, now, e));
                return Err(e);
            },
        }
        if !attestation.claims.authorization_bundle_digest.same(&bundle_digest) {
            proof {
                if claims.authorization_bundle_digest.bytes() == bundle_digest.bytes() {
                    claims.authorization_bundle_digest.lemma_bytes_injective(&bundle_digest);
                }
                assert(managed_front_reach(
                    keys,
                    att,
                    bw,
                    c,
                    a,
                    now,
                    claims,
                    tag,
                    Err(IngressReject::AuthorizationBindingMismatch),
                ));
            }
            assert(managed_refusal(specs, rd, keys, att, bw, req, c, a, now, IngressReject::AuthorizationBindingMismatch));
            return Err(IngressReject::AuthorizationBindingMismatch);
        }
        assert(managed_front_reach(keys, att, bw, c, a, now, claims, tag, Ok(())));
        let bundle = match decode_authorization_bundle(encoded_bundle.as_slice()) {
            Ok(b) => b,
            Err(e) => {
                assert(managed_bundle_missing(keys, att, bw, c, a, now, claims, tag));
                assert(managed_refusal(specs, rd, keys, att, bw, req, c, a, now, e));
                return Err(e);
            },
        };
        assert(bundle_carries(bw, bundle));
        let binding = match self.registry.bind_request(&request) {
            Ok(b) => b,
            Err(e) => {
                assert(managed_binding_reach(specs, keys, att, bw, request, c, a, now, claims, tag, bundle, Err(e)));
                assert(managed_refusal(specs, rd, keys, att, bw, req, c, a, now, e));
                return Err(e);
            },
        };
        let ghost i = binding_check(specs, request)->Ok_0;
        assert(binding_of(binding, specs[i], request));
        assert(managed_binding_reach(specs, keys, att, bw, request, c, a, now, claims, tag, bundle, Ok(i)));
        match validate_remote_data_operation(binding.operation.spec.kind(), binding.operation.spec.dispatch_domain()) {
            Ok(()) => {},
            Err(e) => {
                assert(managed_back_reach(specs, rd, keys, att, bw, request, c, a, now, claims, tag, bundle, binding, Err(e)));
                assert(managed_refusal(specs, rd, keys, att, bw, req, c, a, now, e));
                return Err(e);
            },
        }
        match validate_managed_request_binding(&binding, &request, self.registry.digest(), &attestation.claims) {
            Ok(()) => {},
            Err(e) => {
                assert(managed_back_reach(specs, rd, keys, att, bw, request, c, a, now, claims, tag, bundle, binding, Err(e)));
                assert(managed_refusal(specs, rd, keys, att, bw, req, c, a, now, e));
                return Err(e);
            },
        }
        match validate_managed_authorization(&binding, &bundle, &attestation.claims, active, now) {
            Ok(()) => {},
            Err(e) => {
                assert(managed_back_reach(specs, rd, keys, att, bw, request, c, a, now, claims, tag, bundle, binding, Err(e)));
                assert(managed_refusal(specs, rd, keys, att, bw, req, c, a, now, e));
                return Err(e);
            },
        }
        assert(managed_back_reach(specs, rd, keys, att, bw, request, c, a, now, claims, tag, bundle, binding, Ok(())));
        let ghost b = binding;
        let claims_value = attestation.claims;
        let ghost store_before = self.spec_store();
        let consumed = self.consume_nonce(
            NonceNamespace::ManagedAttestation,
            claims_value.issuer_epoch,
            claims_value.nonce,
            claims_value.expires_at_millis,
            now,
        );
        proof {
            let sr = choose|sr: Result<(), NonceReject>|
                #[trigger] S::consumes(
                    store_before,
                    self.spec_store(),
                    NonceNamespace::ManagedAttestation,
                    claims_value.issuer_epoch,
                    claims_value.nonce,
                    claims_value.expires_at_millis,
                    now,
                    sr,
                ) && (consumed is Ok <==> sr is Ok);
            assert(managed_nonce_step(
                specs,
                rd,
                keys,
                att,
                bw,
                request,
                c,
                a,
                now,
                store_before,
                self.spec_store(),
                claims,
                tag,
                bundle,
                b,
                sr,
            ));
        }
        match consumed {
            Ok(()) => {},
            Err(e) => {
                return Err(e);
            },
        }
        let operation = binding.operation;
        let sanitized = request.into_sanitized(operation.spec.semantic_headers());
        let v = VerifiedIngressRequest::from_managed(self.domain_seal.clone(), operation, sanitized, claims_value, bundle);
        assert(verified_as(v, specs[i], request));
        assert(managed_back_reach(specs, rd, keys, att, bw, request, c, a, now, claims, tag, bundle, b, Ok(())));
        Ok(v)
    }

    /// Verifies a managed request of the trusted context pipeline: the attestation and its
    /// MAC, the scope, the exact request binding and the authorization bundle, and only then
    /// the one-shot nonce.
    #[verifier::spinoff_prover]
    #[verifier::rlimit(100)]
    pub fn verify_managed(
        &mut self,
        signed: SignedIngressRequest,
        connection: &ManagedListenerContext,
        active: &ManagedActivationBinding,
    ) -> (r: Result<VerifiedIngressRequest, IngressReject>)
        ensures
            kept_configuration(*old(self), *final(self)),
            r matches Err(e) && e != IngressReject::NonceRejected ==> final(self).spec_store() == old(self).spec_store(),
            r matches Err(e) ==> e == IngressReject::VerificationDomainMismatch || e == IngressReject::ClockUnavailable
                || e == IngressReject::NonceRejected || managed_refusal(
                old(self).spec_registry().spec_specs(),
                old(self).spec_registry().spec_digest(),
                old(self).spec_managed_keys(),
                signed.spec_attestation(),
                signed.spec_bundle(),
                signed.spec_request(),
                connection.view(),
                active.view(),
                final(self).spec_high_water(),
                e,
            ),
            r matches Ok(v) ==> {
                let specs = old(self).spec_registry().spec_specs();
                &&& v.spec_seal() == old(self).spec_seal()
                &&& binding_check(specs, signed.spec_request()) matches Ok(i)
                &&& verified_as(v, specs[i], signed.spec_request())
                &&& exists|claims: AttestationClaims, tag: Seq<u8>, bundle: AuthorizationBundle, b: RequestBinding|
                    #[trigger] managed_back_reach(
                        specs,
                        old(self).spec_registry().spec_digest(),
                        old(self).spec_managed_keys(),
                        signed.spec_attestation(),
                        signed.spec_bundle(),
                        signed.spec_request(),
                        connection.view(),
                        active.view(),
                        final(self).spec_high_water(),
                        claims,
                        tag,
                        bundle,
                        b,
                        Ok(()),
                    ) && v.spec_proof() == VerifiedProof::Managed(managed_proof_of(claims))
                        && v.spec_authorization() == VerifiedAuthorization::Managed(Box::new(bundle))
            },
            r is Ok ==> managed_nonce_outcome(
                old(self).spec_registry().spec_specs(),
                old(self).spec_registry().spec_digest(),
                old(self).spec_managed_keys(),
                signed.spec_attestation(),
                signed.spec_bundle(),
                signed.spec_request(),
                connection.view(),
                active.view(),
                final(self).spec_high_water(),
                old(self).spec_store(),
                final(self).spec_store(),
                true,
            ),
            r == Err::<VerifiedIngressRequest, IngressReject>(IngressReject::NonceRejected) ==> managed_nonce_outcome(
                old(self).spec_registry().spec_specs(),
                old(self).spec_registry().spec_digest(),
                old(self).spec_managed_keys(),
                signed.spec_attestation(),
                signed.spec_bundle(),
                signed.spec_request(),
                connection.view(),
                active.view(),
                final(self).spec_high_water(),
                old(self).spec_store(),
                final(self).spec_store(),
                false,
            ),
    {
        let same_domain = same_seal(&self.domain_seal, &connection.domain_seal) && same_seal(
            &self.domain_seal,
            &active.domain_seal,
        );
        let reading = self.read_clock(same_domain);
        self.verify_managed_checked(same_domain, reading, signed, connection, active)
    }
}

} // verus!
