use vstd::prelude::*;
use vstd::std_specs::cmp::PartialEqSpec;

verus! {

/// Where a debouncer stands.
pub enum DebounceState<T> {
    /// No value came in yet.
    WaitingFirst,
    /// The first value came in and went out at once.
    Holding(T),
    /// `state` went out last; `new_state` came in last and goes out once a
    /// debounce delay passes without another value.
    Running { state: T, new_state: T },
}

/// Passes values on only once they have held for a debounce delay; the
/// first value passes at once.
pub struct Debouncer<T> {
    st: DebounceState<T>,
}

impl<T: Copy + PartialEq> Debouncer<T> {
    pub closed spec fn state(&self) -> DebounceState<T> {
        self.st
    }

    pub fn new() -> (r: Self)
        ensures
            r.state() is WaitingFirst,
    {
        Self { st: DebounceState::WaitingFirst }
    }

    /// Whether a debounce delay runs: only once a second value came in.
    pub fn timer_armed(&self) -> (r: bool)
        ensures
            r == self.state() is Running,
    {
        match self.st {
            DebounceState::Running { .. } => true,
            _ => false,
        }
    }

    /// A value came in; the first one goes out at once.
    pub fn on_change(&mut self, value: T) -> (r: Option<T>)
        ensures
            match old(self).state() {
                DebounceState::WaitingFirst => r == Some(value) && final(self).state()
                    == DebounceState::Holding(value),
                DebounceState::Holding(s) => r is None && final(self).state()
                    == (DebounceState::Running { state: s, new_state: value }),
                DebounceState::Running { state, .. } => r is None && final(self).state()
                    == (DebounceState::Running { state, new_state: value }),
            },
    {
        match self.st {
            DebounceState::WaitingFirst => {
                self.st = DebounceState::Holding(value);
                Some(value)
            },
            DebounceState::Holding(s) => {
                self.st = DebounceState::Running { state: s, new_state: value };
                None
            },
            DebounceState::Running { state, .. } => {
                self.st = DebounceState::Running { state, new_state: value };
                None
            },
        }
    }

    /// A debounce delay passed with no new value: the last value goes out
    /// if it differs from the one that went out before.
    pub fn on_timeout(&mut self) -> (r: Option<T>)
        ensures
            match old(self).state() {
                DebounceState::Running { state, new_state } => {
                    &&& T::obeys_eq_spec() ==> (r is Some <==> !new_state.eq_spec(&state))
                    &&& r is Some ==> r == Some(new_state) && final(self).state()
                        == (DebounceState::Running { state: new_state, new_state })
                    &&& r is None ==> final(self).state() == old(self).state()
                },
                _ => r is None && final(self).state() == old(self).state(),
            },
    {
        match self.st {
            DebounceState::Running { state, new_state } => {
                if new_state != state {
                    self.st = DebounceState::Running { state: new_state, new_state };
                    Some(new_state)
                } else {
                    None
                }
            },
            _ => None,
        }
    }
}

} // verus!
