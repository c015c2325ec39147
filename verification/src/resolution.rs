//! How the states of a chord's members reduce to one state, and which of an action's
//! alternatives decides what the action reports.
//!
//! A chord is a group of receivers that must all be pressed at once. An action lists its chords
//! as alternatives in the order of their priority.
use crate::press_state::PressState;
use vstd::prelude::*;

verus! {

/// Whether a chord whose members have these states is fully pressed: it has a member, and none
/// of its members is released.
pub open spec fn fully_pressed(members: Seq<PressState>) -> bool {
    &&& members.len() > 0
    &&& forall|i: int| 0 <= i < members.len() ==> (#[trigger] members[i]) != PressState::Released
}

/// Whether `state` is one of `members` and none of them comes before it in the total order.
pub open spec fn is_least(state: PressState, members: Seq<PressState>) -> bool {
    &&& members.contains(state)
    &&& forall|i: int| 0 <= i < members.len() ==> state.rank() <= (#[trigger] members[i]).rank()
}

/// The least of `members` in the total order. It is what a fully pressed chord reports.
pub open spec fn least(members: Seq<PressState>) -> PressState {
    choose|state: PressState| is_least(state, members)
}

/// Whether the chord at `index` decides for the action: it is fully pressed, and no chord listed
/// before it is.
pub open spec fn decides(chords: Seq<Seq<PressState>>, index: int) -> bool {
    &&& 0 <= index < chords.len()
    &&& fully_pressed(chords[index])
    &&& forall|earlier: int| 0 <= earlier < index ==> !fully_pressed(#[trigger] chords[earlier])
}

/// The index of the chord that decides, if any chord is fully pressed.
pub open spec fn deciding(chords: Seq<Seq<PressState>>) -> Option<int> {
    if exists|index: int| decides(chords, index) {
        Some(choose|index: int| decides(chords, index))
    } else {
        None
    }
}

/// What an action reports whose alternatives have these member states: the least state of the
/// chord that decides, and `Released` where no chord is fully pressed.
pub open spec fn reduced(chords: Seq<Seq<PressState>>) -> PressState {
    match deciding(chords) {
        Some(index) => least(chords[index]),
        None => PressState::Released,
    }
}

/// Two states with the same rank are the same state.
pub proof fn lemma_rank_is_injective(a: PressState, b: PressState)
    requires
        a.rank() == b.rank(),
    ensures
        a == b,
{
}

/// A sequence of states has at most one least member.
pub proof fn lemma_least_is_unique(state: PressState, members: Seq<PressState>)
    requires
        is_least(state, members),
    ensures
        least(members) == state,
{
    let chosen = least(members);
    assert(is_least(chosen, members));
    let i = choose|i: int| 0 <= i < members.len() && members[i] == state;
    let j = choose|j: int| 0 <= j < members.len() && members[j] == chosen;
    assert(chosen.rank() <= members[i].rank());
    assert(state.rank() <= members[j].rank());
    lemma_rank_is_injective(chosen, state);
}

/// Every sequence of states that is not empty has a least member.
pub proof fn lemma_least_exists(members: Seq<PressState>)
    requires
        members.len() > 0,
    ensures
        is_least(least(members), members),
    decreases members.len(),
{
    let last = members.last();
    if members.len() == 1 {
        assert(members[0] == last);
        assert(is_least(last, members));
    } else {
        let front = members.drop_last();
        lemma_least_exists(front);
        let before = least(front);
        let i = choose|i: int| 0 <= i < front.len() && front[i] == before;
        assert(members[i] == before);
        let winner = if last.rank() < before.rank() {
            last
        } else {
            before
        };
        assert forall|k: int| 0 <= k < members.len() implies winner.rank() <= (
        #[trigger] members[k]).rank() by {
            if k < front.len() {
                assert(front[k] == members[k]);
            }
        }
        assert(members[members.len() - 1] == last);
        assert(is_least(winner, members));
    }
}

/// At most one chord decides.
pub proof fn lemma_deciding_is_unique(chords: Seq<Seq<PressState>>, index: int)
    requires
        decides(chords, index),
    ensures
        deciding(chords) == Some(index),
{
    let chosen = choose|i: int| decides(chords, i);
    assert(decides(chords, chosen));
    if chosen < index {
        assert(!fully_pressed(chords[chosen]));
    } else if index < chosen {
        assert(!fully_pressed(chords[index]));
    }
}

/// Where no chord is fully pressed, none decides.
pub proof fn lemma_nothing_decides(chords: Seq<Seq<PressState>>)
    requires
        forall|i: int| 0 <= i < chords.len() ==> !fully_pressed(#[trigger] chords[i]),
    ensures
        deciding(chords) is None,
        reduced(chords) == PressState::Released,
{
}

/// The chord rule: a chord with a released member is not fully pressed, whatever the states of
/// its other members, and so it never decides.
pub proof fn lemma_released_member_blocks_chord(
    chords: Seq<Seq<PressState>>,
    index: int,
    member: int,
)
    requires
        0 <= index < chords.len(),
        0 <= member < chords[index].len(),
        chords[index][member] == PressState::Released,
    ensures
        !fully_pressed(chords[index]),
        !decides(chords, index),
        deciding(chords) != Some(index),
{
    if deciding(chords) == Some(index) {
        assert(decides(chords, index));
    }
}

/// Where a chord is fully pressed, some chord decides, and it is that chord or one listed
/// before it.
pub proof fn lemma_fully_pressed_chord_is_decided(chords: Seq<Seq<PressState>>, index: int)
    requires
        0 <= index < chords.len(),
        fully_pressed(chords[index]),
    ensures
        deciding(chords) matches Some(first) && first <= index && decides(chords, first),
    decreases index,
{
    if exists|earlier: int| 0 <= earlier < index && fully_pressed(#[trigger] chords[earlier]) {
        let earlier = choose|earlier: int|
            0 <= earlier < index && fully_pressed(#[trigger] chords[earlier]);
        lemma_fully_pressed_chord_is_decided(chords, earlier);
    } else {
        assert(decides(chords, index));
        lemma_deciding_is_unique(chords, index);
    }
}

/// The priority of alternatives: where two chords are fully pressed and no chord listed before
/// the earlier of them is, the earlier one decides alone. The action reports the least state
/// among its members, whatever the states of the later one.
pub proof fn lemma_earlier_alternative_wins(chords: Seq<Seq<PressState>>, first: int, second: int)
    requires
        0 <= first < second < chords.len(),
        fully_pressed(chords[first]),
        fully_pressed(chords[second]),
        forall|earlier: int| 0 <= earlier < first ==> !fully_pressed(#[trigger] chords[earlier]),
    ensures
        deciding(chords) == Some(first),
        reduced(chords) == least(chords[first]),
{
    lemma_deciding_is_unique(chords, first);
}

/// Where two chords are fully pressed, the later of them never decides: the chord that does is
/// the earlier one or one listed before it.
pub proof fn lemma_later_alternative_never_decides(
    chords: Seq<Seq<PressState>>,
    first: int,
    second: int,
)
    requires
        0 <= first < second < chords.len(),
        fully_pressed(chords[first]),
        fully_pressed(chords[second]),
    ensures
        deciding(chords) matches Some(index) && index <= first,
        deciding(chords) != Some(second),
{
    lemma_fully_pressed_chord_is_decided(chords, first);
}

/// What a fully pressed chord reports is one of its members' states, and so it is a press.
pub proof fn lemma_fully_pressed_chord_reports_press(members: Seq<PressState>)
    requires
        fully_pressed(members),
    ensures
        is_least(least(members), members),
        least(members) != PressState::Released,
{
    lemma_least_exists(members);
    let at = choose|i: int| 0 <= i < members.len() && members[i] == least(members);
    assert(members[at] != PressState::Released);
}

/// A fully pressed chord with a member that has just been pressed reports a press that has just
/// begun, however long its other members have been held.
pub proof fn lemma_newest_press_surfaces(members: Seq<PressState>, member: int)
    requires
        fully_pressed(members),
        0 <= member < members.len(),
        members[member] == (PressState::Pressed { started_pressing_instant: None }),
    ensures
        least(members) == (PressState::Pressed { started_pressing_instant: None }),
{
    lemma_least_is_unique(members[member], members);
}

/// An action reports `Released` exactly where none of its chords is fully pressed.
pub proof fn lemma_released_iff_nothing_decides(chords: Seq<Seq<PressState>>)
    ensures
        reduced(chords) == PressState::Released <==> deciding(chords) is None,
        deciding(chords) is None <==> forall|i: int|
            0 <= i < chords.len() ==> !fully_pressed(#[trigger] chords[i]),
{
    if let Some(index) = deciding(chords) {
        assert(decides(chords, index));
        lemma_fully_pressed_chord_reports_press(chords[index]);
    } else {
        assert forall|i: int| 0 <= i < chords.len() implies !fully_pressed(
            #[trigger] chords[i],
        ) by {
            if fully_pressed(chords[i]) {
                lemma_fully_pressed_chord_is_decided(chords, i);
            }
        }
    }
}

/// Whether a chord whose members have these states is fully pressed.
pub fn all_pressed(states: &Vec<PressState>) -> (pressed: bool)
    ensures
        pressed == fully_pressed(states@),
{
    if states.len() == 0 {
        return false;
    }
    let mut i: usize = 0;
    while i < states.len()
        invariant
            i <= states.len(),
            forall|k: int| 0 <= k < i ==> (#[trigger] states@[k]) != PressState::Released,
        decreases states.len() - i,
    {
        if states[i].released() {
            return false;
        }
        i += 1;
    }
    true
}

/// The least of the states in the total order, and none where there is no state.
pub fn least_of(states: &Vec<PressState>) -> (found: Option<PressState>)
    ensures
        found is None <==> states@.len() == 0,
        found matches Some(state) ==> is_least(state, states@) && state == least(states@),
{
    if states.len() == 0 {
        return None;
    }
    let mut state = states[0];
    let mut i: usize = 1;
    assert(states@.take(1)[0] == state);
    while i < states.len()
        invariant
            1 <= i <= states.len(),
            is_least(state, states@.take(i as int)),
        decreases states.len() - i,
    {
        let ghost seen = states@.take(i as int);
        let ghost at = choose|k: int| 0 <= k < seen.len() && seen[k] == state;
        if states[i] < state {
            state = states[i];
        }
        proof {
            let next = states@.take(i + 1);
            assert(next[at] == seen[at]);
            assert(next[i as int] == states@[i as int]);
            assert forall|k: int| 0 <= k < next.len() implies state.rank() <= (
            #[trigger] next[k]).rank() by {
                if k < i {
                    assert(seen[k] == next[k]);
                }
            }
        }
        i += 1;
    }
    proof {
        assert(states@.take(i as int) == states@);
        lemma_least_is_unique(state, states@);
    }
    Some(state)
}

} // verus!
