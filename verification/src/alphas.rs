//! The exponent registry: hands every constraint family a contiguous,
//! non-overlapping range of challenge-power exponents, in strict registration
//! order. The ranges are the only defense against one family's violation being
//! masked by another's in the joint random linear combination, so the registry
//! keeps them disjoint by construction and reproducible between the prover and
//! the verifier.

use vstd::prelude::*;

use crate::columns::GateType;

verus! {

/// Identifies a constraint family in the exponent registry: a gate family,
/// the permutation argument, or the lookup argument.
#[derive(Clone, Copy, PartialEq, Eq, Structural, Debug)]
pub enum ArgumentType {
    Gate(GateType),
    Permutation,
    Lookup,
}

impl ArgumentType {
    /// All gate families share one exponent range (their constraints are kept
    /// apart by their selector polynomials, not by distinct challenge powers), so
    /// every gate kind is keyed under the same canonical entry.
    pub open spec fn canonical_spec(self) -> ArgumentType {
        match self {
            ArgumentType::Gate(_) => ArgumentType::Gate(GateType::Zero),
            other => other,
        }
    }

    pub fn canonical(self) -> (r: ArgumentType)
        ensures
            r == self.canonical_spec(),
    {
        match self {
            ArgumentType::Gate(_) => ArgumentType::Gate(GateType::Zero),
            other => other,
        }
    }
}

/// The registry of challenge-power exponents. Each entry is
/// `(family, start, count)`: the family owns the half-open exponent range
/// `[start, start + count)`. Entries are appended by `register` and never
/// moved, so `start` is always the sum of the counts registered before it.
#[derive(Debug)]
pub struct Alphas {
    /// The first exponent not yet allocated; equals the sum of all counts.
    pub next_power: u32,
    /// The allocated ranges, in registration order.
    pub mapping: Vec<(ArgumentType, u32, u32)>,
}

impl Alphas {
    pub open spec fn entries(self) -> Seq<(ArgumentType, u32, u32)> {
        self.mapping@
    }

    /// The total number of exponents allocated so far.
    pub open spec fn total(self) -> int {
        self.next_power as int
    }

    /// The sum of the counts of the first `i` entries.
    pub open spec fn prefix_total(s: Seq<(ArgumentType, u32, u32)>, i: int) -> int
        decreases i,
    {
        if i <= 0 {
            0
        } else {
            Self::prefix_total(s, i - 1) + s[i - 1].2
        }
    }

    /// The registry invariant: entries are keyed canonically, keys are
    /// distinct, each range starts where the previous ranges end, and
    /// `next_power` is the sum of all counts.
    pub open spec fn wf(self) -> bool {
        &&& forall|i: int|
            0 <= i < self.entries().len() ==> (#[trigger] self.entries()[i]).1
                == Self::prefix_total(self.entries(), i)
        &&& self.next_power == Self::prefix_total(self.entries(), self.entries().len() as int)
        &&& forall|i: int|
            0 <= i < self.entries().len() ==> (#[trigger] self.entries()[i]).0
                == self.entries()[i].0.canonical_spec()
        &&& forall|i: int, j: int|
            0 <= i < j < self.entries().len() ==> (#[trigger] self.entries()[i]).0 != (
            #[trigger] self.entries()[j]).0
    }

    /// Whether a family (under its canonical key) has been registered.
    pub open spec fn registered(self, ty: ArgumentType) -> bool {
        exists|i: int|
            0 <= i < self.entries().len() && (#[trigger] self.entries()[i]).0
                == ty.canonical_spec()
    }

    /// The `(start, count)` stored for a registered family.
    pub open spec fn entry_for(self, ty: ArgumentType) -> (u32, u32) {
        let i = choose|i: int|
            0 <= i < self.entries().len() && (#[trigger] self.entries()[i]).0
                == ty.canonical_spec();
        (self.entries()[i].1, self.entries()[i].2)
    }

    /// An empty registry.
    pub fn new() -> (r: Alphas)
        ensures
            r.wf(),
            r.entries() =~= Seq::<(ArgumentType, u32, u32)>::empty(),
            r.next_power == 0,
    {
        Alphas { next_power: 0, mapping: Vec::new() }
    }

    /// Allocates the next `powers` exponents to `ty`. Registering the same
    /// family twice would silently shift every later family's exponents, so a
    /// second registration is ruled out by the precondition.
    pub fn register(&mut self, ty: ArgumentType, powers: u32)
        requires
            old(self).wf(),
            !old(self).registered(ty),
            old(self).next_power + powers <= u32::MAX,
        ensures
            final(self).wf(),
            final(self).entries() == old(self).entries().push(
                (ty.canonical_spec(), old(self).next_power, powers),
            ),
            final(self).next_power == old(self).next_power + powers,
            final(self).registered(ty),
    {
        let canon = ty.canonical();
        proof {
            lemma_prefix_total_push(
                self.entries(),
                (ty.canonical_spec(), self.next_power, powers),
            );
        }
        self.mapping.push((canon, self.next_power, powers));
        self.next_power = self.next_power + powers;
        proof {
            let s = self.entries();
            let n = s.len() as int;
            assert(s[n - 1].1 == Self::prefix_total(s, n - 1));
            assert(s[n - 1].0 == canon);
            assert(self.registered(ty));
        }
    }

    /// Returns the first `num` exponents of the range registered for `ty`, as
    /// the half-open pair `(start, start + num)`; `None` if the family was
    /// never registered or asks for more exponents than it registered.
    pub fn get_exponents(&self, ty: ArgumentType, num: u32) -> (r: Option<(u32, u32)>)
        requires
            self.wf(),
        ensures
            match r {
                Some(range) => {
                    &&& self.registered(ty)
                    &&& num <= self.entry_for(ty).1
                    &&& range.0 == self.entry_for(ty).0
                    &&& range.1 == range.0 + num
                },
                None => !self.registered(ty) || num > self.entry_for(ty).1,
            },
    {
        let canon = ty.canonical();
        let mut i: usize = 0;
        while i < self.mapping.len()
            invariant
                self.wf(),
                canon == ty.canonical_spec(),
                0 <= i <= self.entries().len(),
                forall|j: int| 0 <= j < i ==> (#[trigger] self.entries()[j]).0 != canon,
            decreases self.mapping.len() - i,
        {
            let (t, start, count) = self.mapping[i];
            if t == canon {
                proof {
                    assert(self.registered(ty));
                    let k = choose|k: int|
                        0 <= k < self.entries().len() && (#[trigger] self.entries()[k]).0
                            == ty.canonical_spec();
                    assert(k == i as int);
                    lemma_prefix_total_bounds(self.entries(), i as int + 1);
                    assert(Self::prefix_total(self.entries(), i as int + 1) <= self.next_power);
                    assert(start + count <= u32::MAX);
                }
                if num <= count {
                    return Some((start, start + num));
                } else {
                    return None;
                }
            }
            i = i + 1;
        }
        proof {
            assert(!self.registered(ty));
        }
        None
    }

    /// The total number of exponents allocated so far.
    pub fn total_registered(&self) -> (r: u32)
        ensures
            r as int == self.total(),
    {
        self.next_power
    }
}

/// Appending an entry leaves every earlier prefix sum unchanged.
pub proof fn lemma_prefix_total_push(
    s: Seq<(ArgumentType, u32, u32)>,
    x: (ArgumentType, u32, u32),
)
    ensures
        forall|i: int|
            0 <= i <= s.len() ==> Alphas::prefix_total(s.push(x), i) == Alphas::prefix_total(s, i),
{
    assert forall|i: int|
        0 <= i <= s.len() implies Alphas::prefix_total(s.push(x), i) == Alphas::prefix_total(
        s,
        i,
    ) by {
        lemma_prefix_total_push_one(s, x, i);
    }
}

proof fn lemma_prefix_total_push_one(
    s: Seq<(ArgumentType, u32, u32)>,
    x: (ArgumentType, u32, u32),
    i: int,
)
    requires
        0 <= i <= s.len(),
    ensures
        Alphas::prefix_total(s.push(x), i) == Alphas::prefix_total(s, i),
    decreases i,
{
    if i > 0 {
        lemma_prefix_total_push_one(s, x, i - 1);
    }
}

/// Prefix sums are monotone: counts are never negative.
pub proof fn lemma_prefix_total_monotone(s: Seq<(ArgumentType, u32, u32)>, i: int, j: int)
    requires
        0 <= i <= j,
    ensures
        Alphas::prefix_total(s, i) <= Alphas::prefix_total(s, j),
    decreases j - i,
{
    if i < j {
        lemma_prefix_total_monotone(s, i, j - 1);
    }
}

/// Every prefix sum lies between zero and the full sum.
pub proof fn lemma_prefix_total_bounds(s: Seq<(ArgumentType, u32, u32)>, i: int)
    requires
        0 <= i <= s.len(),
    ensures
        0 <= Alphas::prefix_total(s, i),
        Alphas::prefix_total(s, i) <= Alphas::prefix_total(s, s.len() as int),
{
    lemma_prefix_total_monotone(s, 0, i);
    lemma_prefix_total_monotone(s, i, s.len() as int);
}

/// The allocated ranges are pairwise disjoint: of two distinct entries, one
/// range ends no later than the other begins.
pub proof fn lemma_ranges_disjoint(a: Alphas, i: int, j: int)
    requires
        a.wf(),
        0 <= i < a.entries().len(),
        0 <= j < a.entries().len(),
        i != j,
    ensures
        a.entries()[i].1 + a.entries()[i].2 <= a.entries()[j].1 || a.entries()[j].1
            + a.entries()[j].2 <= a.entries()[i].1,
{
    let s = a.entries();
    if i < j {
        lemma_prefix_total_monotone(s, i + 1, j);
    } else {
        lemma_prefix_total_monotone(s, j + 1, i);
    }
}

/// Each allocated range lies within `[0, total)`.
pub proof fn lemma_range_within_total(a: Alphas, i: int)
    requires
        a.wf(),
        0 <= i < a.entries().len(),
    ensures
        0 <= a.entries()[i].1,
        a.entries()[i].1 + a.entries()[i].2 <= a.total(),
{
    let s = a.entries();
    lemma_prefix_total_bounds(s, i);
    lemma_prefix_total_monotone(s, i + 1, s.len() as int);
}

/// In registration order the ranges leave no gaps: every exponent below the
/// total lies in some allocated range.
pub proof fn lemma_ranges_cover(a: Alphas, x: int)
    requires
        a.wf(),
        0 <= x < a.total(),
    ensures
        exists|i: int|
            0 <= i < a.entries().len() && (#[trigger] a.entries()[i]).1 <= x && x
                < a.entries()[i].1 + a.entries()[i].2,
{
    lemma_prefix_covers(a, a.entries().len() as int, x);
}

proof fn lemma_prefix_covers(a: Alphas, k: int, x: int)
    requires
        a.wf(),
        0 <= k <= a.entries().len(),
        0 <= x < Alphas::prefix_total(a.entries(), k),
    ensures
        exists|i: int|
            0 <= i < k && (#[trigger] a.entries()[i]).1 <= x && x < a.entries()[i].1
                + a.entries()[i].2,
    decreases k,
{
    let s = a.entries();
    if x >= Alphas::prefix_total(s, k - 1) {
        assert(s[k - 1].1 == Alphas::prefix_total(s, k - 1));
        assert(s[k - 1].1 <= x && x < s[k - 1].1 + s[k - 1].2);
    } else {
        lemma_prefix_covers(a, k - 1, x);
    }
}

/// The family registered first owns the range that starts at exponent zero;
/// in particular, when the base-arithmetic gate family comes first, its first
/// constraint is weighted by the challenge to the power zero.
pub proof fn lemma_first_family_starts_at_zero(a: Alphas, ty: ArgumentType)
    requires
        a.wf(),
        a.entries().len() > 0,
        a.entries()[0].0 == ty.canonical_spec(),
    ensures
        a.registered(ty),
        a.entry_for(ty).0 == 0,
{
    let s = a.entries();
    assert(a.registered(ty));
    let k = choose|k: int|
        0 <= k < s.len() && (#[trigger] s[k]).0 == ty.canonical_spec();
    assert(k == 0);
    assert(s[0].1 == Alphas::prefix_total(s, 0));
}

} // verus!
