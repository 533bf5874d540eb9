use vstd::prelude::*;

use crate::either::Either;

verus! {

/// A value that can be stored as a delta from an earlier value; the delta
/// between two values is taken with `-` on references.
pub trait Deltable: Sized + Clone {
    type DeltaType;

    spec fn spec_add_delta(&self, delta: &Self::DeltaType) -> Option<Self>;

    fn add_delta(&self, delta: &Self::DeltaType) -> (r: Option<Self>)
        ensures
            r == self.spec_add_delta(delta),
    ;
}

/// The difference of two values, as a delta: what `&a - &b` computes for
/// the value types this factory is used with.
pub trait DeltaSub: Deltable {
    spec fn spec_sub(&self, other: &Self) -> Option<Self::DeltaType>;

    fn sub(&self, other: &Self) -> (r: Option<Self::DeltaType>)
        ensures
            r == self.spec_sub(other),
    ;
}

/// The value that an encoder that last stood at `last` stands at after a
/// push of `value`, and what the push hands out.
pub open spec fn spec_encode<T: DeltaSub>(last: Option<T>, value: T) -> (Option<T>, Either<T, T::DeltaType>) {
    match last {
        Some(l) => match value.spec_sub(&l) {
            Some(d) => (l.spec_add_delta(&d), Either::Right(d)),
            None => (Some(value), Either::Left(value)),
        },
        None => (Some(value), Either::Left(value)),
    }
}

/// Whether a push of `value` onto an encoder at `last` can be made: a delta
/// that `sub` hands out must be one that `add_delta` takes.
pub open spec fn encodable<T: DeltaSub>(last: Option<T>, value: T) -> bool {
    match last {
        Some(l) => match value.spec_sub(&l) {
            Some(d) => l.spec_add_delta(&d) is Some,
            None => true,
        },
        None => true,
    }
}

/// The value that a decoder that last stood at `last` stands at after it
/// takes in `item`, and the value it hands out.
pub open spec fn spec_decode<T: Deltable>(last: Option<T>, item: Either<T, T::DeltaType>) -> (Option<T>, Option<T>) {
    match item {
        Either::Left(v) => (Some(v), Some(v)),
        Either::Right(d) => match last {
            Some(l) => (l.spec_add_delta(&d), l.spec_add_delta(&d)),
            None => (None, None),
        },
    }
}

/// `slot` holds a clone of `value`.
pub open spec fn holds_clone_of<T: Clone>(slot: Option<T>, value: T) -> bool {
    match slot {
        Some(v) => cloned(value, v),
        None => false,
    }
}

/// Whether a push of `value` onto an encoder at `last` can be made.
pub fn can_encode<T: DeltaSub>(last: &Option<T>, value: &T) -> (r: bool)
    ensures
        r == encodable(*last, *value),
{
    match last {
        Some(l) => match value.sub(l) {
            Some(d) => l.add_delta(&d).is_some(),
            None => true,
        },
        None => true,
    }
}

/// A decoder that stands where the encoder stands hands out, for whatever
/// the encoder hands out, the value the encoder then stands at (the pushed
/// value itself when it went out whole), and both stand at the same value
/// again.
pub proof fn lemma_decoder_tracks_encoder<T: DeltaSub>(last: Option<T>, value: T)
    requires
        encodable(last, value),
    ensures
        ({
            let (e_next, item) = spec_encode(last, value);
            let (d_next, out) = spec_decode(last, item);
            &&& d_next == e_next
            &&& out == e_next
            &&& out is Some
            &&& (item is Left ==> out == Some(value))
        }),
{
}

/// Turns a stream of values into full values and deltas.
pub struct DeltaFactory<T> where T: DeltaSub {
    last_value: Option<T>,
}

impl<T> DeltaFactory<T> where T: DeltaSub {
    pub closed spec fn last(&self) -> Option<T> {
        self.last_value
    }

    pub fn new() -> (r: Self)
        ensures
            r.last() is None,
    {
        Self { last_value: None }
    }

    /// The value the encoder stands at.
    pub fn last_value(&self) -> (r: &Option<T>)
        ensures
            *r == self.last(),
    {
        &self.last_value
    }

    pub fn push(&mut self, value: T) -> (r: Either<T, T::DeltaType>)
        requires
            encodable(old(self).last(), value),
        ensures
            ({
                let (next, out) = spec_encode(old(self).last(), value);
                &&& r == out
                &&& out is Right ==> final(self).last() == next
                &&& out is Left ==> holds_clone_of(final(self).last(), value)
            }),
    {
        if let Some(last_value) = self.last_value.take() {
            if let Some(delta) = value.sub(&last_value) {
                match last_value.add_delta(&delta) {
                    Some(n) => {
                        self.last_value = Some(n);
                    },
                    None => {
                        proof {
                            assert(false);
                        }
                    },
                }
                return Either::Right(delta);
            }
        }
        self.last_value = Some(value.clone());
        Either::Left(value)
    }
}

} // verus!

verus! {

/// Turns full values and deltas back into values.
pub struct UnDeltaFactory<T> where T: Deltable {
    last_value: Option<T>,
}

impl<T> UnDeltaFactory<T> where T: Deltable {
    /// The last value reconstructed, if any.
    pub closed spec fn last(&self) -> Option<T> {
        self.last_value
    }

    pub fn new() -> (r: Self)
        ensures
            r.last() is None,
    {
        Self { last_value: None }
    }

    pub fn push(&mut self, value: T) -> (r: T)
        ensures
            r == value,
            holds_clone_of(final(self).last(), value),
    {
        self.last_value = Some(value.clone());
        value
    }

    /// Applies `delta` to the last value; with no last value, or when the
    /// delta does not apply, nothing is reconstructed and the last value is
    /// forgotten.
    pub fn push_delta(&mut self, delta: T::DeltaType) -> (r: Option<T>)
        ensures
            r == spec_decode(old(self).last(), Either::<T, T::DeltaType>::Right(delta)).1,
            match r {
                Some(n) => holds_clone_of(final(self).last(), n),
                None => final(self).last() is None,
            },
    {
        if let Some(last_value) = self.last_value.take() {
            if let Some(new_value) = last_value.add_delta(&delta) {
                self.last_value = Some(new_value.clone());
                return Some(new_value);
            }
        }
        None
    }
}

} // verus!
