//! The digital state of a button or axis, its total order, and the queries on it.
//!
//! A timestamp counts the nanoseconds that the system clock has measured since the Unix epoch,
//! and a duration is a number of nanoseconds.
use std::cmp::Ordering;
use vstd::prelude::*;
use vstd::std_specs::cmp::PartialOrdSpec;

verus! {

/// The digital state of a button or axis.
#[derive(PartialEq, Eq, Structural, Hash, Clone, Copy, Debug, Ord)]
pub enum PressState {
    /// The element is pressed. The timestamp is absent during the tick in which the press began,
    /// and from the next tick on it holds the moment since which the element has been held.
    Pressed { started_pressing_instant: Option<u64> },
    /// The element is released.
    Released,
}

impl PressState {
    /// The place of a state in the total order. A smaller rank is a more urgent press: a press
    /// that has just begun comes first, held presses follow from the earliest on, and `Released`
    /// comes after every press.
    pub open spec fn rank(self) -> int {
        match self {
            PressState::Pressed { started_pressing_instant: None } => -1,
            PressState::Pressed { started_pressing_instant: Some(since) } => since as int,
            PressState::Released => u64::MAX + 1,
        }
    }

    /// Whether the state is a press that carries the moment at which it began.
    pub open spec fn is_held(self) -> bool {
        self matches PressState::Pressed { started_pressing_instant: Some(_) }
    }

    /// The time between the start of a held press and `now`. A clock that stands before the start
    /// of the press yields zero. Every other state has no elapsed time.
    pub open spec fn elapsed_until(self, now: u64) -> Option<u64> {
        match self {
            PressState::Pressed { started_pressing_instant: Some(since) } => Some(
                if now >= since {
                    (now - since) as u64
                } else {
                    0
                },
            ),
            _ => None,
        }
    }

    /// Whether the state is a held press that has lasted at least `duration` at `now`.
    pub open spec fn held_for_until(self, now: u64, duration: u64) -> bool {
        match self.elapsed_until(now) {
            Some(elapsed) => elapsed >= duration,
            None => false,
        }
    }

    /// Whether the state is `Released`.
    pub fn released(&self) -> (released: bool)
        ensures
            released <==> *self == PressState::Released,
    {
        matches!(self, PressState::Released)
    }

    /// Whether the press began in the current tick.
    pub fn just_pressed(&self) -> (just_pressed: bool)
        ensures
            just_pressed <==> *self == (PressState::Pressed { started_pressing_instant: None }),
    {
        match self {
            PressState::Pressed { started_pressing_instant } => started_pressing_instant.is_none(),
            PressState::Released => false,
        }
    }

    /// The time a held press has lasted when the clock reads `now`.
    pub fn elapsed_at(&self, now: u64) -> (elapsed: Option<u64>)
        ensures
            elapsed == self.elapsed_until(now),
    {
        match self {
            PressState::Pressed { started_pressing_instant: Some(since) } => {
                if now >= *since {
                    Some(now - *since)
                } else {
                    Some(0)
                }
            },
            _ => None,
        }
    }

    /// Whether a held press has lasted at least `duration` when the clock reads `now`.
    pub fn pressed_for_at(&self, now: u64, duration: u64) -> (held: bool)
        ensures
            held == self.held_for_until(now, duration),
            held <==> self.is_held() && self.elapsed_until(now).unwrap() >= duration,
    {
        match self.elapsed_at(now) {
            Some(elapsed) => elapsed >= duration,
            None => false,
        }
    }

    /// The time a held press has lasted by the system clock, read at the moment of the call.
    /// Only a held press has an elapsed time; how long it is depends on the clock.
    pub fn elapsed(&self) -> (elapsed: Option<u64>)
        ensures
            elapsed.is_some() <==> self.is_held(),
            exists|now: u64| elapsed == self.elapsed_until(now),
    {
        match self {
            PressState::Pressed { started_pressing_instant: Some(_) } => {
                let now = crate::clock::now();
                self.elapsed_at(now)
            },
            _ => {
                assert(self.elapsed_until(0) is None);
                None
            },
        }
    }

    /// Whether a held press has lasted at least `duration` by the system clock, read at the
    /// moment of the call. A released element and a press that has just begun have lasted no
    /// time at all, and every held press has lasted at least no time.
    pub fn pressed_for(&self, duration: u64) -> (held: bool)
        ensures
            held ==> self.is_held(),
            self.is_held() && duration == 0 ==> held,
            exists|now: u64| held == self.held_for_until(now, duration),
    {
        match self {
            PressState::Pressed { started_pressing_instant: Some(_) } => {
                let now = crate::clock::now();
                self.pressed_for_at(now, duration)
            },
            _ => {
                assert(!self.held_for_until(0, duration));
                false
            },
        }
    }
}

impl PartialOrd for PressState {
    /// Compares two states by their place in the total order.
    fn partial_cmp(&self, other: &Self) -> (order: Option<Ordering>) {
        match (self, other) {
            (PressState::Released, PressState::Released) => Some(Ordering::Equal),
            (PressState::Released, PressState::Pressed { .. }) => Some(Ordering::Greater),
            (PressState::Pressed { .. }, PressState::Released) => Some(Ordering::Less),
            (
                PressState::Pressed { started_pressing_instant: mine },
                PressState::Pressed { started_pressing_instant: theirs },
            ) => match (mine, theirs) {
                (None, None) => Some(Ordering::Equal),
                (None, Some(_)) => Some(Ordering::Less),
                (Some(_), None) => Some(Ordering::Greater),
                (Some(mine), Some(theirs)) => if *mine < *theirs {
                    Some(Ordering::Less)
                } else if *mine == *theirs {
                    Some(Ordering::Equal)
                } else {
                    Some(Ordering::Greater)
                },
            },
        }
    }
}

impl vstd::std_specs::cmp::PartialOrdSpecImpl for PressState {
    open spec fn obeys_partial_cmp_spec() -> bool {
        true
    }

    open spec fn partial_cmp_spec(&self, other: &Self) -> Option<Ordering> {
        Some(
            if self.rank() < other.rank() {
                Ordering::Less
            } else if self.rank() == other.rank() {
                Ordering::Equal
            } else {
                Ordering::Greater
            },
        )
    }
}

/// The order of the states: a press that has just begun comes before every held press, of two
/// held presses the one that began earlier comes first, and every press comes before `Released`.
pub proof fn lemma_order_of_states(earlier: u64, later: u64, any: u64, start: Option<u64>)
    requires
        earlier < later,
    ensures
        (PressState::Pressed { started_pressing_instant: None }).partial_cmp_spec(
            &(PressState::Pressed { started_pressing_instant: Some(any) }),
        ) == Some(Ordering::Less),
        (PressState::Pressed { started_pressing_instant: Some(earlier) }).partial_cmp_spec(
            &(PressState::Pressed { started_pressing_instant: Some(later) }),
        ) == Some(Ordering::Less),
        (PressState::Pressed { started_pressing_instant: start }).partial_cmp_spec(
            &PressState::Released,
        ) == Some(Ordering::Less),
{
}

/// The order is total: any two states compare, they compare equal only where they are the same
/// state, the comparison turns round with its operands, and it carries over a state in between.
pub proof fn lemma_order_is_total(a: PressState, b: PressState, c: PressState)
    ensures
        a.partial_cmp_spec(&b) is Some,
        a.partial_cmp_spec(&b) == Some(Ordering::Equal) <==> a == b,
        a.partial_cmp_spec(&b) == Some(Ordering::Less) <==> b.partial_cmp_spec(&a) == Some(
            Ordering::Greater,
        ),
        a.partial_cmp_spec(&b) == Some(Ordering::Less) && b.partial_cmp_spec(&c) == Some(
            Ordering::Less,
        ) ==> a.partial_cmp_spec(&c) == Some(Ordering::Less),
{
}

} // verus!
