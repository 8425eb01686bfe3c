//! Evidence-carrying values.

use vstd::prelude::*;

verus! {

/// Stores a secret.
///
/// A secret is a value that might come with some evidence. The evidence
/// tells why the value has the value it has.
///
/// For example, the maximum value of a list can be stored as a secret whose
/// evidence is the index where the maximum value can be found. The evidence
/// is `None` only when no index could justify the value: an empty input for
/// `Max` and `Min`, no match for `Any`, and no counterexample for `All`
/// (vacuous truth).
#[derive(Clone, Copy, Debug)]
pub struct Secret<E, T> {
    /// The evidence for the value.
    pub evidence: Option<E>,
    /// The value.
    pub value: T,
}

impl<E, T> Secret<E, T> {
    /// Replaces the value, keeping the evidence.
    pub fn with_value<U>(self, value: U) -> (r: Secret<E, U>)
        ensures
            r.value == value,
            r.evidence == self.evidence,
    {
        Secret { value, evidence: self.evidence }
    }
}

impl<E> Secret<E, i64> {
    /// Negates the value, keeping the evidence.
    pub fn neg(self) -> (r: Secret<E, i64>)
        requires
            self.value != i64::MIN,
        ensures
            r.value == -self.value,
            r.evidence == self.evidence,
    {
        Secret { value: -self.value, evidence: self.evidence }
    }

    /// Checks if the secret value is less than a value.
    ///
    /// This is a method because the result keeps the evidence, which the
    /// comparison operators cannot return.
    pub fn lt(self, other: &i64) -> (r: Secret<E, bool>)
        ensures
            r.value == (self.value < *other),
            r.evidence == self.evidence,
    {
        Secret { value: self.value < *other, evidence: self.evidence }
    }

    /// Checks if the secret value is less than or equal to a value.
    pub fn le(self, other: &i64) -> (r: Secret<E, bool>)
        ensures
            r.value == (self.value <= *other),
            r.evidence == self.evidence,
    {
        Secret { value: self.value <= *other, evidence: self.evidence }
    }

    /// Checks if the secret value is greater than a value.
    pub fn gt(self, other: &i64) -> (r: Secret<E, bool>)
        ensures
            r.value == (self.value > *other),
            r.evidence == self.evidence,
    {
        Secret { value: self.value > *other, evidence: self.evidence }
    }

    /// Checks if the secret value is greater than or equal to a value.
    pub fn ge(self, other: &i64) -> (r: Secret<E, bool>)
        ensures
            r.value == (self.value >= *other),
            r.evidence == self.evidence,
    {
        Secret { value: self.value >= *other, evidence: self.evidence }
    }

    /// Checks if the secret value is equal to a value.
    pub fn eq(self, other: &i64) -> (r: Secret<E, bool>)
        ensures
            r.value == (self.value == *other),
            r.evidence == self.evidence,
    {
        Secret { value: self.value == *other, evidence: self.evidence }
    }

    /// Checks if the secret value is not equal to a value.
    pub fn ne(self, other: &i64) -> (r: Secret<E, bool>)
        ensures
            r.value == (self.value != *other),
            r.evidence == self.evidence,
    {
        Secret { value: self.value != *other, evidence: self.evidence }
    }
}

impl<E> Secret<E, bool> {
    /// Negates the boolean value, keeping the evidence.
    pub fn not(self) -> (r: Secret<E, bool>)
        ensures
            r.value == !self.value,
            r.evidence == self.evidence,
    {
        Secret { value: !self.value, evidence: self.evidence }
    }
}

} // verus!
