//! Small sets of enum variants, one bit per variant.

use vstd::prelude::*;
use crate::schema::{Action, DropEffect};

verus! {

/// Whether bit `n` of `x` is set.
pub open spec fn bit_is_set(x: u32, n: u32) -> bool {
    (x >> n) & 1u32 == 1u32
}

proof fn lemma_bit_insert(x: u32, n: u32, m: u32)
    requires
        n < 32,
        m < 32,
    ensures
        bit_is_set(x | (1u32 << n), m) == (bit_is_set(x, m) || m == n),
{
    assert(((x | (1u32 << n)) >> m) & 1u32 == 1u32 <==> ((x >> m) & 1u32 == 1u32 || m == n))
        by (bit_vector)
        requires
            n < 32,
            m < 32,
    ;
}

proof fn lemma_bit_remove(x: u32, n: u32, m: u32)
    requires
        n < 32,
        m < 32,
    ensures
        bit_is_set(x & !(1u32 << n), m) == (bit_is_set(x, m) && m != n),
{
    assert(((x & !(1u32 << n)) >> m) & 1u32 == 1u32 <==> ((x >> m) & 1u32 == 1u32 && m != n))
        by (bit_vector)
        requires
            n < 32,
            m < 32,
    ;
}

proof fn lemma_bit_of_zero(m: u32)
    requires
        m < 32,
    ensures
        !bit_is_set(0, m),
{
    assert((0u32 >> m) & 1u32 != 1u32) by (bit_vector)
        requires
            m < 32,
    ;
}

/// A word that is not zero has a set bit, and the lowest such bit is below 32.
proof fn lemma_some_bit(x: u32) -> (m: u32)
    requires
        x != 0,
    ensures
        m < 32,
        bit_is_set(x, m),
    decreases x,
{
    if x & 1u32 == 1u32 {
        assert((x >> 0u32) & 1u32 == x & 1u32) by (bit_vector);
        0
    } else {
        let y = x >> 1u32;
        assert(y != 0 && y < x) by (bit_vector)
            requires
                x != 0,
                x & 1u32 != 1u32,
                y == x >> 1u32,
        ;
        let k = lemma_some_bit(y);
        assert(k < 31 && (x >> ((k + 1) as u32)) & 1u32 == 1u32) by (bit_vector)
            requires
                k < 32,
                y == x >> 1u32,
                (y >> k) & 1u32 == 1u32,
        ;
        (k + 1) as u32
    }
}

proof fn lemma_bit_bound(x: u32, limit: u32, m: u32)
    requires
        limit < 32,
        x < (1u32 << limit),
        limit <= m < 32,
    ensures
        !bit_is_set(x, m),
{
    assert((x >> m) & 1u32 != 1u32) by (bit_vector)
        requires
            limit < 32,
            x < (1u32 << limit),
            limit <= m < 32,
    ;
}

proof fn lemma_insert_bound(x: u32, limit: u32, n: u32)
    requires
        limit < 32,
        x < (1u32 << limit),
        n < limit,
    ensures
        (x | (1u32 << n)) < (1u32 << limit),
        (x & !(1u32 << n)) < (1u32 << limit),
{
    assert((x | (1u32 << n)) < (1u32 << limit) && (x & !(1u32 << n)) < (1u32 << limit))
        by (bit_vector)
        requires
            limit < 32,
            x < (1u32 << limit),
            n < limit,
    ;
}

/// An unordered set of [`Action`]s.
#[derive(Clone, Copy, Debug, PartialEq, Eq, Hash, Structural)]
pub struct ActionSet {
    bits: u32,
}

impl ActionSet {
    /// The bits of the set: bit `n` stands for the action whose ordinal is `n`.
    pub closed spec fn bits(self) -> u32 {
        self.bits
    }

    /// No bit stands for anything but an action.
    #[verifier::type_invariant]
    pub open spec fn wf(self) -> bool {
        self.bits() < (1u32 << 26u32)
    }

    /// Whether `action` is a member.
    pub open spec fn has(self, action: Action) -> bool {
        bit_is_set(self.bits(), action.ordinal_spec())
    }

    /// The members as a mathematical set.
    pub open spec fn view(self) -> Set<Action> {
        Set::new(|a: Action| self.has(a))
    }

    /// Sets with the same members are the same value.
    pub proof fn lemma_extensional(self, other: ActionSet)
        requires
            self.wf(),
            other.wf(),
            forall|a: Action| #[trigger] self.has(a) == other.has(a),
        ensures
            self == other,
    {
        if self.bits != other.bits {
            let x = self.bits;
            let y = other.bits;
            let d = x ^ y;
            assert(d != 0) by (bit_vector)
                requires
                    d == x ^ y,
                    x != y,
            ;
            let m = lemma_some_bit(d);
            assert(((x >> m) & 1u32 == 1u32) != ((y >> m) & 1u32 == 1u32)) by (bit_vector)
                requires
                    m < 32,
                    d == x ^ y,
                    (d >> m) & 1u32 == 1u32,
            ;
            if m >= 26 {
                lemma_bit_bound(x, 26, m);
                lemma_bit_bound(y, 26, m);
            } else {
                let a = Action::from_ordinal(m);
                assert(self.has(a) != other.has(a));
            }
        }
    }

    /// The empty set.
    pub fn new() -> (r: ActionSet)
        ensures
            forall|a: Action| !#[trigger] r.has(a),
            r@ == Set::<Action>::empty(),
    {
        proof {
            assert(0u32 < (1u32 << 26u32)) by (bit_vector);
        }
        let r = ActionSet { bits: 0 };
        proof {
            assert forall|a: Action| !#[trigger] r.has(a) by {
                lemma_bit_of_zero(a.ordinal_spec());
            }
            assert(r@ =~= Set::<Action>::empty());
        }
        r
    }

    /// Whether `action` is a member.
    pub fn contains(&self, action: Action) -> (r: bool)
        ensures
            r == self.has(action),
    {
        (self.bits >> action.ordinal()) & 1u32 == 1u32
    }

    /// Adds `action` to the set.
    pub fn insert(&mut self, action: Action)
        ensures
            forall|a: Action| #[trigger] final(self).has(a) == (old(self).has(a) || a == action),
            final(self)@ == old(self)@.insert(action),
    {
        let n = action.ordinal();
        let ghost before = *self;
        proof {
            use_type_invariant(&*self);
            lemma_insert_bound(self.bits, 26, n);
        }
        self.bits = self.bits | (1u32 << n);
        proof {
            assert forall|a: Action| #[trigger] self.has(a) == (before.has(a) || a == action) by {
                lemma_bit_insert(before.bits, n, a.ordinal_spec());
                Action::lemma_ordinal_round_trip(a);
                Action::lemma_ordinal_round_trip(action);
            }
            assert(self@ =~= before@.insert(action));
        }
    }

    /// Takes `action` out of the set.
    pub fn remove(&mut self, action: Action)
        ensures
            forall|a: Action| #[trigger] final(self).has(a) == (old(self).has(a) && a != action),
            final(self)@ == old(self)@.remove(action),
    {
        let n = action.ordinal();
        let ghost before = *self;
        proof {
            use_type_invariant(&*self);
            lemma_insert_bound(self.bits, 26, n);
        }
        self.bits = self.bits & !(1u32 << n);
        proof {
            assert forall|a: Action| #[trigger] self.has(a) == (before.has(a) && a != action) by {
                lemma_bit_remove(before.bits, n, a.ordinal_spec());
                Action::lemma_ordinal_round_trip(a);
                Action::lemma_ordinal_round_trip(action);
            }
            assert(self@ =~= before@.remove(action));
        }
    }

    /// Whether the set has no member.
    pub fn is_empty(&self) -> (r: bool)
        ensures
            r == (forall|a: Action| !#[trigger] self.has(a)),
            r == (self@ == Set::<Action>::empty()),
    {
        let r = self.bits == 0;
        proof {
            use_type_invariant(self);
            if r {
                assert forall|a: Action| !#[trigger] self.has(a) by {
                    lemma_bit_of_zero(a.ordinal_spec());
                }
                assert(self@ =~= Set::<Action>::empty());
            } else {
                let m = lemma_some_bit(self.bits);
                if m >= 26 {
                    lemma_bit_bound(self.bits, 26, m);
                }
                let a = Action::from_ordinal(m);
                assert(self.has(a));
                assert(self@.contains(a));
            }
        }
        r
    }
}

/// An unordered set of [`DropEffect`]s.
#[derive(Clone, Copy, Debug, PartialEq, Eq, Hash, Structural)]
pub struct DropEffectSet {
    bits: u32,
}

impl DropEffectSet {
    /// The bits of the set: bit `n` stands for the effect whose ordinal is `n`.
    pub closed spec fn bits(self) -> u32 {
        self.bits
    }

    /// No bit stands for anything but a drop effect.
    #[verifier::type_invariant]
    pub open spec fn wf(self) -> bool {
        self.bits() < (1u32 << 5u32)
    }

    /// Whether `effect` is a member.
    pub open spec fn has(self, effect: DropEffect) -> bool {
        bit_is_set(self.bits(), effect.ordinal_spec())
    }

    /// The members as a mathematical set.
    pub open spec fn view(self) -> Set<DropEffect> {
        Set::new(|e: DropEffect| self.has(e))
    }

    /// Sets with the same members are the same value.
    pub proof fn lemma_extensional(self, other: DropEffectSet)
        requires
            self.wf(),
            other.wf(),
            forall|e: DropEffect| #[trigger] self.has(e) == other.has(e),
        ensures
            self == other,
    {
        if self.bits != other.bits {
            let x = self.bits;
            let y = other.bits;
            let d = x ^ y;
            assert(d != 0) by (bit_vector)
                requires
                    d == x ^ y,
                    x != y,
            ;
            let m = lemma_some_bit(d);
            assert(((x >> m) & 1u32 == 1u32) != ((y >> m) & 1u32 == 1u32)) by (bit_vector)
                requires
                    m < 32,
                    d == x ^ y,
                    (d >> m) & 1u32 == 1u32,
            ;
            if m >= 5 {
                lemma_bit_bound(x, 5, m);
                lemma_bit_bound(y, 5, m);
            } else {
                let e = DropEffect::from_ordinal(m);
                assert(self.has(e) != other.has(e));
            }
        }
    }

    /// The empty set.
    pub fn new() -> (r: DropEffectSet)
        ensures
            forall|e: DropEffect| !#[trigger] r.has(e),
            r@ == Set::<DropEffect>::empty(),
    {
        proof {
            assert(0u32 < (1u32 << 5u32)) by (bit_vector);
        }
        let r = DropEffectSet { bits: 0 };
        proof {
            assert forall|e: DropEffect| !#[trigger] r.has(e) by {
                lemma_bit_of_zero(e.ordinal_spec());
            }
            assert(r@ =~= Set::<DropEffect>::empty());
        }
        r
    }

    /// Whether `effect` is a member.
    pub fn contains(&self, effect: DropEffect) -> (r: bool)
        ensures
            r == self.has(effect),
    {
        (self.bits >> effect.ordinal()) & 1u32 == 1u32
    }

    /// Adds `effect` to the set.
    pub fn insert(&mut self, effect: DropEffect)
        ensures
            forall|e: DropEffect| #[trigger] final(self).has(e) == (old(self).has(e) || e == effect),
            final(self)@ == old(self)@.insert(effect),
    {
        let n = effect.ordinal();
        let ghost before = *self;
        proof {
            use_type_invariant(&*self);
            lemma_insert_bound(self.bits, 5, n);
        }
        self.bits = self.bits | (1u32 << n);
        proof {
            assert forall|e: DropEffect| #[trigger] self.has(e) == (before.has(e) || e == effect) by {
                lemma_bit_insert(before.bits, n, e.ordinal_spec());
                DropEffect::lemma_ordinal_round_trip(e);
                DropEffect::lemma_ordinal_round_trip(effect);
            }
            assert(self@ =~= before@.insert(effect));
        }
    }

    /// Takes `effect` out of the set.
    pub fn remove(&mut self, effect: DropEffect)
        ensures
            forall|e: DropEffect| #[trigger] final(self).has(e) == (old(self).has(e) && e != effect),
            final(self)@ == old(self)@.remove(effect),
    {
        let n = effect.ordinal();
        let ghost before = *self;
        proof {
            use_type_invariant(&*self);
            lemma_insert_bound(self.bits, 5, n);
        }
        self.bits = self.bits & !(1u32 << n);
        proof {
            assert forall|e: DropEffect| #[trigger] self.has(e) == (before.has(e) && e != effect) by {
                lemma_bit_remove(before.bits, n, e.ordinal_spec());
                DropEffect::lemma_ordinal_round_trip(e);
                DropEffect::lemma_ordinal_round_trip(effect);
            }
            assert(self@ =~= before@.remove(effect));
        }
    }

    /// Whether the set has no member.
    pub fn is_empty(&self) -> (r: bool)
        ensures
            r == (forall|e: DropEffect| !#[trigger] self.has(e)),
            r == (self@ == Set::<DropEffect>::empty()),
    {
        let r = self.bits == 0;
        proof {
            use_type_invariant(self);
            if r {
                assert forall|e: DropEffect| !#[trigger] self.has(e) by {
                    lemma_bit_of_zero(e.ordinal_spec());
                }
                assert(self@ =~= Set::<DropEffect>::empty());
            } else {
                let m = lemma_some_bit(self.bits);
                if m >= 5 {
                    lemma_bit_bound(self.bits, 5, m);
                }
                let e = DropEffect::from_ordinal(m);
                assert(self.has(e));
                assert(self@.contains(e));
            }
        }
        r
    }
}

} // verus!
