//! Capability negotiation: computing the enabled extension/feature set from a
//! required set, a preferred set, and the set the hardware supports.

use vstd::prelude::*;

verus! {

/// Negotiation failure: the supported set is missing at least one required
/// capability.
#[derive(Clone, Copy, Debug, PartialEq, Eq, Structural)]
pub enum CapabilityError {
    MissingRequiredCapability,
}

/// A set of named capabilities (extensions or features).
///
/// Each capability name of a vocabulary is assigned a bit index below 64; a
/// set is the bitmask of the names it contains. The same type serves every
/// vocabulary (instance extensions, device extensions, device features).
#[derive(Clone, Copy, Debug, PartialEq, Eq, Structural)]
pub struct CapabilitySet {
    pub bits: u64,
}

impl CapabilitySet {
    /// Whether capability index `i` is in the set.
    pub open spec fn has(self, i: int) -> bool {
        0 <= i < 64 && (self.bits >> (i as u64)) & 1 == 1
    }

    /// Every capability of `self` is also in `other`.
    pub open spec fn subset_of(self, other: Self) -> bool {
        forall|i: int| self.has(i) ==> other.has(i)
    }

    /// The set with no capabilities.
    pub fn empty() -> (r: Self)
        ensures
            r.bits == 0,
            forall|i: int| !r.has(i),
    {
        proof {
            assert(forall|i: u64| i < 64 ==> (0u64 >> i) & 1 == 0) by (bit_vector);
        }
        CapabilitySet { bits: 0 }
    }

    /// Whether capability `cap` is in the set.
    pub fn get(&self, cap: u64) -> (r: bool)
        requires
            cap < 64,
        ensures
            r == self.has(cap as int),
    {
        (self.bits >> cap) & 1 == 1
    }

    /// Adds capability `cap` to the set.
    pub fn enable(&mut self, cap: u64)
        requires
            cap < 64,
        ensures
            final (self).bits == old(self).bits | (1u64 << cap),
            forall|i: int| #[trigger] final (self).has(i) <==> old(self).has(i) || i == cap,
    {
        let old_bits: u64 = self.bits;
        self.bits = self.bits | (1u64 << cap);
        proof {
            let c = cap;
            let n = self.bits;
            assert(forall|i: u64|
                c < 64 && i < 64 && n == old_bits | (1u64 << c) ==> (((n >> i) & 1 == 1) <==> ((
                old_bits >> i) & 1 == 1 || i == c))) by (bit_vector);
        }
    }

    /// The union of the two sets.
    pub fn union(&self, other: &Self) -> (r: Self)
        ensures
            r.bits == self.bits | other.bits,
            forall|i: int| #[trigger] r.has(i) <==> self.has(i) || other.has(i),
    {
        proof {
            let a = self.bits;
            let b = other.bits;
            assert(forall|i: u64|
                i < 64 ==> ((((a | b) >> i) & 1 == 1) <==> (((a >> i) & 1 == 1) || ((b >> i) & 1
                    == 1)))) by (bit_vector);
        }
        CapabilitySet { bits: self.bits | other.bits }
    }

    /// The intersection of the two sets.
    pub fn intersection(&self, other: &Self) -> (r: Self)
        ensures
            r.bits == self.bits & other.bits,
            forall|i: int| #[trigger] r.has(i) <==> self.has(i) && other.has(i),
    {
        proof {
            let a = self.bits;
            let b = other.bits;
            assert(forall|i: u64|
                i < 64 ==> ((((a & b) >> i) & 1 == 1) <==> (((a >> i) & 1 == 1) && ((b >> i) & 1
                    == 1)))) by (bit_vector);
        }
        CapabilitySet { bits: self.bits & other.bits }
    }

    /// The capabilities of `self` that are not in `other`.
    pub fn difference(&self, other: &Self) -> (r: Self)
        ensures
            r.bits == self.bits & !other.bits,
            forall|i: int| #[trigger] r.has(i) <==> self.has(i) && !other.has(i),
    {
        proof {
            let a = self.bits;
            let b = other.bits;
            assert(forall|i: u64|
                i < 64 ==> ((((a & !b) >> i) & 1 == 1) <==> (((a >> i) & 1 == 1) && !((b >> i) & 1
                    == 1)))) by (bit_vector);
        }
        CapabilitySet { bits: self.bits & !other.bits }
    }

    /// Whether `self` contains every capability of `other`.
    pub fn contains(&self, other: &Self) -> (r: bool)
        ensures
            r <==> other.subset_of(*self),
    {
        let r = other.bits & !self.bits == 0;
        proof {
            let a = self.bits;
            let b = other.bits;
            if r {
                assert forall|i: int| other.has(i) implies self.has(i) by {
                    let iu = i as u64;
                    assert(b & !a == 0 && iu < 64 ==> (((b >> iu) & 1 == 1) ==> ((a >> iu) & 1
                        == 1))) by (bit_vector);
                }
            } else {
                lemma_nonzero_has_bit(b & !a);
                let iu = choose|i: u64| i < 64 && ((b & !a) >> i) & 1 == 1;
                assert(iu < 64 && ((b & !a) >> iu) & 1 == 1 ==> (((b >> iu) & 1 == 1) && !((a
                    >> iu) & 1 == 1))) by (bit_vector);
                assert(other.has(iu as int) && !self.has(iu as int));
            }
        }
        r
    }
}

/// A nonzero word has at least one set bit.
proof fn lemma_nonzero_has_bit(x: u64)
    requires
        x != 0,
    ensures
        exists|i: u64| i < 64 && (x >> i) & 1 == 1,
    decreases x,
{
    if x & 1 == 1 {
        assert(x & 1 == 1 ==> (x >> 0u64) & 1 == 1) by (bit_vector);
        assert(0u64 < 64 && (x >> 0u64) & 1 == 1);
    } else {
        let y = x >> 1u64;
        assert(x & 1 != 1 && x != 0 ==> (x >> 1u64) != 0 && (x >> 1u64) < x) by (bit_vector);
        lemma_nonzero_has_bit(y);
        let i = choose|i: u64| i < 64 && (y >> i) & 1 == 1;
        assert(((x >> 1u64) >> i) & 1 == 1 && i < 64 ==> (i + 1 < 64 && (x >> (i + 1)) & 1 == 1))
            by (bit_vector);
        assert(i + 1 < 64 && (x >> ((i + 1) as u64)) & 1 == 1);
    }
}

/// The functional specification of capability negotiation: confirmation
/// succeeds exactly when every required capability is supported, and the
/// confirmed set is `required ∪ (supported ∩ preferred)`.
pub open spec fn spec_confirm(
    required: CapabilitySet,
    preferred: CapabilitySet,
    supported: CapabilitySet,
) -> Result<CapabilitySet, CapabilityError> {
    if required.subset_of(supported) {
        Ok(CapabilitySet { bits: required.bits | (supported.bits & preferred.bits) })
    } else {
        Err(CapabilityError::MissingRequiredCapability)
    }
}

/// Negotiates the enabled capability set: every required capability plus
/// whichever preferred capabilities the hardware happens to support. Fails
/// exactly when a required capability is unsupported; missing preferred
/// capabilities are silently dropped.
pub fn confirm(required: &CapabilitySet, preferred: &CapabilitySet, supported: &CapabilitySet) -> (
    result: Result<CapabilitySet, CapabilityError>)
    ensures
        result == spec_confirm(*required, *preferred, *supported),
        result is Ok <==> required.subset_of(*supported),
        result matches Ok(confirmed) ==> forall|i: int|
            #[trigger] confirmed.has(i) <==> required.has(i) || (supported.has(i)
                && preferred.has(i)),
{
    if !supported.contains(required) {
        return Err(CapabilityError::MissingRequiredCapability);
    }
    let confirmed = supported.intersection(preferred).union(required);
    proof {
        let c = confirmed.bits;
        let r = required.bits;
        let p = preferred.bits;
        let s = supported.bits;
        assert(c == (s & p) | r ==> c == r | (s & p)) by (bit_vector);
    }
    Ok(confirmed)
}

/// Negotiation is deterministic: two results of `confirm` on identical
/// inputs are identical, bit for bit — in particular, confirming the same
/// requested sets against the same supported set twice yields byte-for-byte
/// equal confirmed sets.
pub proof fn lemma_confirm_deterministic(
    required: CapabilitySet,
    preferred: CapabilitySet,
    supported: CapabilitySet,
    r1: Result<CapabilitySet, CapabilityError>,
    r2: Result<CapabilitySet, CapabilityError>,
)
    requires
        r1 == spec_confirm(required, preferred, supported),
        r2 == spec_confirm(required, preferred, supported),
    ensures
        r1 == r2,
{
}

} // verus!
