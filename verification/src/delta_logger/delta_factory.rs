use vstd::prelude::*;

use crate::either::Either;

verus! {

/// A value that can be stored as a delta from an earlier value.
///
/// `spec_add_delta` and `spec_subtract` are what `add_delta` and `subtract`
/// compute; each implementation defines them.
pub trait Deltable: Sized + Clone {
    type DeltaType;

    spec fn spec_add_delta(&self, delta: &Self::DeltaType) -> Option<Self>;

    spec fn spec_subtract(&self, other: &Self) -> Option<Self::DeltaType>;

    fn add_delta(&self, delta: &Self::DeltaType) -> (r: Option<Self>)
        ensures
            r == self.spec_add_delta(delta),
    ;

    fn subtract(&self, other: &Self) -> (r: Option<Self::DeltaType>)
        ensures
            r == self.spec_subtract(other),
    ;
}

/// `slot` holds a clone of `value`.
pub open spec fn holds_clone_of<T: Clone>(slot: Option<T>, value: T) -> bool {
    match slot {
        Some(v) => cloned(value, v),
        None => false,
    }
}

/// The value that an encoder that last stood at `last` stands at after a
/// push of `value`, and what the push hands out.
pub open spec fn spec_encode<T: Deltable>(last: Option<T>, value: T) -> (Option<T>, Either<T, T::DeltaType>) {
    match last {
        Some(l) => match value.spec_subtract(&l) {
            Some(d) => (l.spec_add_delta(&d), Either::Right(d)),
            None => (Some(value), Either::Left(value)),
        },
        None => (Some(value), Either::Left(value)),
    }
}

/// Whether a push of `value` onto an encoder at `last` can be made: a delta
/// that `subtract` hands out must be one that `add_delta` takes.
pub open spec fn encodable<T: Deltable>(last: Option<T>, value: T) -> bool {
    match last {
        Some(l) => match value.spec_subtract(&l) {
            Some(d) => l.spec_add_delta(&d) is Some,
            None => true,
        },
        None => true,
    }
}

/// The value that a decoder that last stood at `last` stands at after it
/// takes in `item`, and the value it hands out.
pub open spec fn spec_decode<T: Deltable>(last: Option<T>, item: Either<T, T::DeltaType>) -> (Option<T>, Option<T>) {
    match item {
        Either::Left(v) => (Some(v), Some(v)),
        Either::Right(d) => match last {
            Some(l) => (l.spec_add_delta(&d), l.spec_add_delta(&d)),
            None => (None, None),
        },
    }
}

/// Whether a push of `value` onto an encoder at `last` can be made.
pub fn can_encode<T: Deltable>(last: &Option<T>, value: &T) -> (r: bool)
    ensures
        r == encodable(*last, *value),
{
    match last {
        Some(l) => match value.subtract(l) {
            Some(d) => l.add_delta(&d).is_some(),
            None => true,
        },
        None => true,
    }
}

/// A decoder that stands where the encoder stands hands out, for whatever
/// the encoder hands out, the value the encoder then stands at (the pushed
/// value itself when it went out whole), and both stand at the same value
/// again.
pub proof fn lemma_decoder_tracks_encoder<T: Deltable>(last: Option<T>, value: T)
    requires
        encodable(last, value),
    ensures
        ({
            let (e_next, item) = spec_encode(last, value);
            let (d_next, out) = spec_decode(last, item);
            &&& d_next == e_next
            &&& out == e_next
            &&& out is Some
            &&& (item is Left ==> out == Some(value))
        }),
{
}

/// What an encoder that last stood at `last` does with `values` pushed one
/// after the other: the value it stands at after each push, and what each
/// push hands out.
pub open spec fn spec_encode_run<T: Deltable>(last: Option<T>, values: Seq<T>) -> (
    Seq<Option<T>>,
    Seq<Either<T, T::DeltaType>>,
)
    decreases values.len(),
{
    if values.len() == 0 {
        (Seq::empty(), Seq::empty())
    } else {
        let (next, item) = spec_encode(last, values[0]);
        let (states, items) = spec_encode_run(next, values.skip(1));
        (seq![next] + states, seq![item] + items)
    }
}

/// Whether `values` can be pushed one after the other onto an encoder that
/// last stood at `last`.
pub open spec fn encodable_run<T: Deltable>(last: Option<T>, values: Seq<T>) -> bool
    decreases values.len(),
{
    values.len() == 0 || (encodable(last, values[0]) && encodable_run(
        spec_encode(last, values[0]).0,
        values.skip(1),
    ))
}

/// The values that a decoder that last stood at `last` hands out for
/// `items`, taken in one after the other.
pub open spec fn spec_decode_run<T: Deltable>(last: Option<T>, items: Seq<Either<T, T::DeltaType>>) -> Seq<Option<T>>
    decreases items.len(),
{
    if items.len() == 0 {
        Seq::empty()
    } else {
        let (next, out) = spec_decode(last, items[0]);
        seq![out] + spec_decode_run(next, items.skip(1))
    }
}

/// Over a whole run, a decoder that starts where the encoder starts
/// rebuilds exactly the encoder's sequence: for every push, it hands out
/// the value the encoder then stands at, and for a value that went out
/// whole, that value itself.
pub proof fn lemma_decoder_rebuilds_run<T: Deltable>(last: Option<T>, values: Seq<T>)
    requires
        encodable_run(last, values),
    ensures
        ({
            let (states, items) = spec_encode_run(last, values);
            let outs = spec_decode_run(last, items);
            &&& states.len() == values.len()
            &&& items.len() == values.len()
            &&& outs == states
            &&& forall|i: int| 0 <= i < values.len() ==> (#[trigger] states[i]) is Some
            &&& forall|i: int|
                0 <= i < values.len() && (#[trigger] items[i]) is Left ==> outs[i] == Some(
                    values[i],
                )
        }),
    decreases values.len(),
{
    if values.len() > 0 {
        let (next, item) = spec_encode(last, values[0]);
        let tail = values.skip(1);
        lemma_decoder_tracks_encoder(last, values[0]);
        lemma_decoder_rebuilds_run(next, tail);
        let (states1, items1) = spec_encode_run(next, tail);
        let (states, items) = spec_encode_run(last, values);
        assert(items[0] == item);
        assert(items.skip(1) =~= items1);
        let outs = spec_decode_run(last, items);
        assert(outs =~= states);
        assert forall|i: int| 0 <= i < values.len() implies (#[trigger] states[i]) is Some by {
            if i > 0 {
                assert(states[i] == states1[i - 1]);
            }
        }
        assert forall|i: int|
            0 <= i < values.len() && (#[trigger] items[i]) is Left implies outs[i] == Some(
                values[i],
            ) by {
            if i > 0 {
                assert(items[i] == items1[i - 1]);
                assert(values[i] == tail[i - 1]);
                assert(outs[i] == states1[i - 1]);
            }
        }
    }
}

/// Turns a stream of values into full values and deltas.
///
/// After a delta is handed out, the encoder stands at the value that the
/// decoder reconstructs from it, not at the pushed value, so that errors do
/// not add up.
pub struct DeltaFactory<T: Deltable> {
    pub last_value: Option<T>,
}

impl<T: Deltable> DeltaFactory<T> {
    pub fn new() -> (r: Self)
        ensures
            r.last_value is None,
    {
        Self { last_value: None }
    }

    pub fn push(&mut self, value: T) -> (r: Either<T, T::DeltaType>)
        requires
            encodable(old(self).last_value, value),
        ensures
            ({
                let (next, out) = spec_encode(old(self).last_value, value);
                match out {
                    Either::Right(_) => r == out && final(self).last_value == next,
                    Either::Left(_) => r == out && holds_clone_of(final(self).last_value, value),
                }
            }),
    {
        if let Some(last_value) = self.last_value.take() {
            if let Some(delta) = value.subtract(&last_value) {
                let next = last_value.add_delta(&delta);
                match next {
                    Some(n) => {
                        self.last_value = Some(n);
                    },
                    None => {
                        proof {
                            assert(false);
                        }
                    },
                }
                return Either::Right(delta);
            }
        }
        self.last_value = Some(value.clone());
        Either::Left(value)
    }

    /// Records `value` as the last value without encoding it.
    pub fn push_no_delta(&mut self, value: T)
        ensures
            final(self).last_value == Some(value),
    {
        self.last_value = Some(value);
    }
}

/// Turns full values and deltas back into values.
pub struct UnDeltaFactory<T> where T: Deltable {
    last_value: Option<T>,
}

impl<T> UnDeltaFactory<T> where T: Deltable {
    /// The last value reconstructed, if any.
    pub closed spec fn last(&self) -> Option<T> {
        self.last_value
    }

    pub fn new() -> (r: Self)
        ensures
            r.last() is None,
    {
        Self { last_value: None }
    }

    pub fn push(&mut self, value: T) -> (r: T)
        ensures
            r == value,
            holds_clone_of(final(self).last(), value),
    {
        self.last_value = Some(value.clone());
        value
    }

    /// Applies `delta` to the last value; with no last value, or when the
    /// delta does not apply, nothing is reconstructed and the last value is
    /// forgotten.
    pub fn push_delta(&mut self, delta: T::DeltaType) -> (r: Option<T>)
        ensures
            r == spec_decode(old(self).last(), Either::<T, T::DeltaType>::Right(delta)).1,
            match r {
                Some(n) => holds_clone_of(final(self).last(), n),
                None => final(self).last() is None,
            },
    {
        if let Some(last_value) = self.last_value.take() {
            if let Some(new_value) = last_value.add_delta(&delta) {
                self.last_value = Some(new_value.clone());
                return Some(new_value);
            }
        }
        None
    }
}

} // verus!
