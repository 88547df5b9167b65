//! A mathmatical group using addition modulus n.
//!
//! See https://en.wikipedia.org/wiki/Multiplicative_group_of_integers_modulo_n

use core::cmp::Ordering;
use vstd::prelude::*;

use super::{Number, UnsingedNumber};

verus! {

/// A number that automatically wrapps at [Self::modulo].
///
/// Values are ordered by [Self::value] alone.
#[derive(Clone, Copy, PartialEq, Eq, Hash)]
pub struct WrappingValue<T: UnsingedNumber> {
    value: T,
    modulo: T,
}

impl<T: UnsingedNumber> WrappingValue<T> {
    /// The stored value.
    pub closed spec fn spec_value(self) -> T {
        self.value
    }

    /// The modulo used for all calculations.
    pub closed spec fn spec_modulo(self) -> T {
        self.modulo
    }

    /// Creates a new [WrappingValue] with the value 0
    pub fn zero(modulo: T) -> (r: Self)
        ensures
            r.spec_value().to_int() == 0,
            r.spec_modulo() == modulo,
    {
        Self { value: T::zero(), modulo }
    }

    /// Creates a new [WrappingValue]
    pub fn new(value: T, modulo: T) -> (r: Self)
        ensures
            r.spec_value() == value,
            r.spec_modulo() == modulo,
    {
        Self { value, modulo }
    }

    /// The value
    pub fn value(self) -> (r: T)
        ensures
            r == self.spec_value(),
    {
        self.value
    }

    /// The modulo used for all calculations
    ///
    /// This is also m
    pub fn modulo(self) -> (r: T)
        ensures
            r == self.spec_modulo(),
    {
        self.modulo
    }

    /// The highest valid value using this [Self::modulo].
    pub fn max(self) -> (r: T)
        requires
            self.spec_modulo().to_int() >= 1,
        ensures
            r.to_int() == self.spec_modulo().to_int() - 1,
    {
        proof {
            T::lemma_unsigned();
            T::lemma_in_range(self.modulo);
        }
        match self.modulo.checked_sub_num(T::one()) {
            Some(v) => v,
            None => T::zero(),
        }
    }

    /// Whether `add(self, rhs)` can be computed: the modulo is not zero, and a
    /// value above the modulo is only allowed where the sum does not overflow.
    pub open spec fn add_req(self, rhs: T) -> bool {
        &&& self.spec_modulo().to_int() > 0
        &&& (self.spec_value().to_int() + rhs.to_int() <= T::max_int()
            || self.spec_value().to_int() <= self.spec_modulo().to_int())
    }

    /// The sum `value + rhs`, reduced modulo [Self::modulo].
    ///
    /// The sum is computed without overflow, even where `value + rhs` does not
    /// fit into `T`.
    pub fn add(self, rhs: T) -> (r: Self)
        requires
            self.add_req(rhs),
        ensures
            r.spec_modulo() == self.spec_modulo(),
            r.spec_value().to_int() == (self.spec_value().to_int() + rhs.to_int())
                % self.spec_modulo().to_int(),
    {
        proof {
            T::lemma_unsigned();
            T::lemma_in_range(self.value);
            T::lemma_in_range(self.modulo);
            T::lemma_in_range(rhs);
        }
        let value = match self.value.checked_add_num(rhs) {
            Some(value) => value.rem_num(self.modulo),
            None => {
                let to_modulo = match self.modulo.checked_sub_num(self.value) {
                    Some(d) => d,
                    None => self.modulo,
                };
                let rest = match rhs.checked_sub_num(to_modulo) {
                    Some(r) => r,
                    None => rhs,
                };
                proof {
                    let s = self.value.to_int() + rhs.to_int();
                    let m = self.modulo.to_int();
                    assert(rest.to_int() == s - m);
                    vstd::arithmetic::div_mod::lemma_mod_sub_multiples_vanish(s, m);
                    assert(-m + s == s - m);
                }
                rest.rem_num(self.modulo)
            },
        };
        Self { value, modulo: self.modulo }
    }

    /// Adds `rhs` to this value in place, see [Self::add].
    pub fn add_assign(&mut self, rhs: T)
        requires
            old(self).add_req(rhs),
        ensures
            final(self).spec_modulo() == old(self).spec_modulo(),
            final(self).spec_value().to_int() == (old(self).spec_value().to_int() + rhs.to_int())
                % old(self).spec_modulo().to_int(),
    {
        *self = self.add(rhs);
    }
}

/// Addition reduces modulo the modulus: for any value below the modulus, the
/// result of adding `rhs` is `(value + rhs) % modulo`, and it is again below the
/// modulus.
pub proof fn lemma_add_stays_in_group<T: UnsingedNumber>(v: WrappingValue<T>, rhs: T)
    requires
        v.spec_modulo().to_int() > 0,
        v.spec_value().to_int() < v.spec_modulo().to_int(),
    ensures
        v.add_req(rhs),
        0 <= (v.spec_value().to_int() + rhs.to_int()) % v.spec_modulo().to_int()
            < v.spec_modulo().to_int(),
{
}

impl<T: UnsingedNumber + PartialEq> WrappingValue<T> {
    /// How two values are ordered: by their values alone, whatever their
    /// modulos.
    pub open spec fn order(a: Self, b: Self) -> Ordering {
        if a.spec_value().to_int() < b.spec_value().to_int() {
            Ordering::Less
        } else if a.spec_value().to_int() > b.spec_value().to_int() {
            Ordering::Greater
        } else {
            Ordering::Equal
        }
    }
}

impl<T: UnsingedNumber + PartialEq> PartialOrd for WrappingValue<T> {
    fn partial_cmp(&self, other: &Self) -> (r: Option<Ordering>) {
        if self.value.checked_sub_num(other.value).is_none() {
            Some(Ordering::Less)
        } else if other.value.checked_sub_num(self.value).is_none() {
            Some(Ordering::Greater)
        } else {
            Some(Ordering::Equal)
        }
    }
}

impl<T: UnsingedNumber + PartialEq> vstd::std_specs::cmp::PartialOrdSpecImpl for WrappingValue<T> {
    open spec fn obeys_partial_cmp_spec() -> bool {
        true
    }

    open spec fn partial_cmp_spec(&self, other: &Self) -> Option<Ordering> {
        Some(WrappingValue::order(*self, *other))
    }
}

} // verus!
