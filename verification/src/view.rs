//! The input view: the tables of receiver states and action bindings, and the resolution of an
//! action to the state that it reports.
use crate::axis_state::all_axes_pressed;
use crate::axis_state::digital_components;
use crate::axis_state::AxisState;
use crate::axis_state::DEFAULT_AXIS_VALUE;
use crate::axis_state::RESTING_AXIS_VALUE;
use crate::binding::ActionBinding;
use crate::binding::ActionBindingView;
use crate::binding::ActionKey;
use crate::binding::BindingInputReceiver;
use crate::input_source::InputSource;
use crate::press_state::PressState;
use crate::resolution::all_pressed;
use crate::resolution::decides;
use crate::resolution::deciding;
use crate::resolution::fully_pressed;
use crate::resolution::least;
use crate::resolution::least_of;
use crate::resolution::lemma_deciding_is_unique;
use crate::resolution::lemma_fully_pressed_chord_reports_press;
use crate::resolution::lemma_nothing_decides;
use crate::resolution::reduced;
use std::collections::HashMap;
use vstd::prelude::*;

verus! {

broadcast use vstd::std_specs::hash::group_hash_axioms;

/// Where all input states are kept. The capture layer writes the state of each receiver once per
/// tick, and the application asks for the state of an action as often as it likes.
#[derive(PartialEq, Debug)]
pub struct InputView {
    pub last_input_source: Option<InputSource>,
    pub bindings: HashMap<ActionKey, ActionBinding>,
    pub key_receiver_states: HashMap<BindingInputReceiver, PressState>,
    pub axis_receiver_states: HashMap<BindingInputReceiver, AxisState>,
    pub receiver_default_axis_values: HashMap<BindingInputReceiver, u32>,
}

/// The mathematical content of an `InputView`.
pub struct InputViewState {
    pub last_input_source: Option<InputSource>,
    pub bindings: Map<ActionKey, ActionBindingView>,
    pub key_receiver_states: Map<BindingInputReceiver, PressState>,
    pub axis_receiver_states: Map<BindingInputReceiver, AxisState>,
    pub receiver_default_axis_values: Map<BindingInputReceiver, u32>,
}

impl View for InputView {
    type V = InputViewState;

    open spec fn view(&self) -> InputViewState {
        InputViewState {
            last_input_source: self.last_input_source,
            bindings: self.bindings@.map_values(|binding: ActionBinding| binding@),
            key_receiver_states: self.key_receiver_states@,
            axis_receiver_states: self.axis_receiver_states@,
            receiver_default_axis_values: self.receiver_default_axis_values@,
        }
    }
}

impl InputViewState {
    /// The view that holds nothing.
    pub open spec fn empty() -> InputViewState {
        InputViewState {
            last_input_source: None,
            bindings: Map::empty(),
            key_receiver_states: Map::empty(),
            axis_receiver_states: Map::empty(),
            receiver_default_axis_values: Map::empty(),
        }
    }

    /// The digital state of a receiver. One that never reported is released.
    pub open spec fn key_state(self, receiver: BindingInputReceiver) -> PressState {
        if self.key_receiver_states.contains_key(receiver) {
            self.key_receiver_states[receiver]
        } else {
            PressState::Released
        }
    }

    /// The analog state of a receiver. One that never reported rests at zero and is released.
    pub open spec fn axis_state(self, receiver: BindingInputReceiver) -> AxisState {
        if self.axis_receiver_states.contains_key(receiver) {
            self.axis_receiver_states[receiver]
        } else {
            AxisState(RESTING_AXIS_VALUE, PressState::Released)
        }
    }

    /// The default magnitude of a receiver: the one that was set for it, and one otherwise.
    pub open spec fn default_axis_value(self, receiver: BindingInputReceiver) -> u32 {
        if self.receiver_default_axis_values.contains_key(receiver) {
            self.receiver_default_axis_values[receiver]
        } else {
            DEFAULT_AXIS_VALUE
        }
    }

    /// The alternatives of an action in the order of their priority. An action without a binding
    /// has none.
    pub open spec fn alternatives(self, action: ActionKey) -> Seq<Seq<BindingInputReceiver>> {
        if self.bindings.contains_key(action) {
            self.bindings[action].alternatives
        } else {
            Seq::empty()
        }
    }

    /// The digital states of the members of a chord.
    pub open spec fn key_states(self, chord: Seq<BindingInputReceiver>) -> Seq<PressState> {
        Seq::new(chord.len(), |i: int| self.key_state(chord[i]))
    }

    /// The analog states of the members of a chord.
    pub open spec fn axis_states(self, chord: Seq<BindingInputReceiver>) -> Seq<AxisState> {
        Seq::new(chord.len(), |i: int| self.axis_state(chord[i]))
    }

    /// For each alternative of an action, the digital states of its members.
    pub open spec fn key_chords(self, action: ActionKey) -> Seq<Seq<PressState>> {
        let alternatives = self.alternatives(action);
        Seq::new(alternatives.len(), |i: int| self.key_states(alternatives[i]))
    }

    /// For each alternative of an action, the digital components of the analog states of its
    /// members.
    pub open spec fn axis_chords(self, action: ActionKey) -> Seq<Seq<PressState>> {
        let alternatives = self.alternatives(action);
        Seq::new(
            alternatives.len(),
            |i: int| digital_components(self.axis_states(alternatives[i])),
        )
    }

    /// The digital state that an action reports: the least state among the members of its first
    /// fully pressed alternative, and `Released` where it has none.
    pub open spec fn key(self, action: ActionKey) -> PressState {
        reduced(self.key_chords(action))
    }

    /// The analog states that an action reports: those of the members of its first alternative
    /// whose digital components are fully pressed, in the order of the chord and each as it
    /// stands, and nothing where it has no such alternative.
    pub open spec fn axis(self, action: ActionKey) -> Seq<AxisState> {
        match deciding(self.axis_chords(action)) {
            Some(index) => self.axis_states(self.alternatives(action)[index]),
            None => Seq::empty(),
        }
    }

    /// The view after `binding` was added: the binding stands under its action, in place of any
    /// earlier one, and each receiver of its chords for which it declares a default magnitude
    /// has that default.
    pub open spec fn with_binding(self, binding: ActionBindingView) -> InputViewState {
        InputViewState {
            bindings: self.bindings.insert(binding.key, binding),
            receiver_default_axis_values: self.receiver_default_axis_values.union_prefer_right(
                binding.applied_defaults(),
            ),
            ..self
        }
    }
}

impl InputViewState {
    /// An action without a binding reports `Released` and no analog state.
    pub proof fn lemma_unbound_action_reports_nothing(self, action: ActionKey)
        requires
            !self.bindings.contains_key(action),
        ensures
            self.key(action) == PressState::Released,
            self.axis(action) == Seq::<AxisState>::empty(),
    {
        lemma_nothing_decides(self.key_chords(action));
        lemma_nothing_decides(self.axis_chords(action));
    }

    /// The chord rule: an alternative with a member whose digital state is released does not
    /// decide what the action reports, whatever the states of its other members. A receiver that
    /// never reported counts as released.
    pub proof fn lemma_released_receiver_blocks_alternative(
        self,
        action: ActionKey,
        index: int,
        member: int,
    )
        requires
            0 <= index < self.alternatives(action).len(),
            0 <= member < self.alternatives(action)[index].len(),
        ensures
            self.key_state(self.alternatives(action)[index][member]) == PressState::Released
                ==> deciding(self.key_chords(action)) != Some(index),
            self.axis_state(self.alternatives(action)[index][member]).1 == PressState::Released
                ==> deciding(self.axis_chords(action)) != Some(index),
    {
        let chord = self.alternatives(action)[index];
        if self.key_state(chord[member]) == PressState::Released {
            assert(self.key_chords(action)[index][member] == PressState::Released);
            if deciding(self.key_chords(action)) == Some(index) {
                assert(decides(self.key_chords(action), index));
            }
        }
        if self.axis_state(chord[member]).1 == PressState::Released {
            assert(self.axis_chords(action)[index][member] == PressState::Released);
            if deciding(self.axis_chords(action)) == Some(index) {
                assert(decides(self.axis_chords(action), index));
            }
        }
    }

    /// The priority of alternatives: the first alternative of an action that is fully pressed
    /// decides alone. The digital state that the action reports is the least state among its
    /// members, whatever the states of the alternatives listed after it.
    pub proof fn lemma_first_pressed_alternative_gives_key(self, action: ActionKey, index: int)
        requires
            decides(self.key_chords(action), index),
        ensures
            self.key(action) == least(self.key_states(self.alternatives(action)[index])),
            self.key(action) != PressState::Released,
    {
        lemma_deciding_is_unique(self.key_chords(action), index);
        lemma_fully_pressed_chord_reports_press(self.key_chords(action)[index]);
    }

    /// The first alternative of an action whose digital components are fully pressed decides
    /// alone. The action reports the analog states of its members as they stand: as many as the
    /// chord has members, in their order, with no magnitude combined with another.
    pub proof fn lemma_first_pressed_alternative_gives_axis(self, action: ActionKey, index: int)
        requires
            decides(self.axis_chords(action), index),
        ensures
            self.axis(action) == self.axis_states(self.alternatives(action)[index]),
            self.axis(action).len() == self.alternatives(action)[index].len(),
            self.axis(action).len() > 0,
    {
        lemma_deciding_is_unique(self.axis_chords(action), index);
    }

    /// What adding a binding changes. The action of the binding has the alternatives of the
    /// binding, and every other action keeps its own. A receiver of the chords for which the
    /// binding declares a default magnitude has that default, before it reports any state, and
    /// every other receiver keeps the default that it had.
    pub proof fn lemma_added_binding_takes_effect(
        self,
        binding: ActionBindingView,
        action: ActionKey,
        receiver: BindingInputReceiver,
    )
        ensures
            self.with_binding(binding).alternatives(binding.key) == binding.alternatives,
            action != binding.key ==> self.with_binding(binding).alternatives(action)
                == self.alternatives(action),
            binding.triggers(receiver) && binding.defaults.contains_key(receiver)
                ==> self.with_binding(binding).default_axis_value(receiver)
                == binding.defaults[receiver],
            !(binding.triggers(receiver) && binding.defaults.contains_key(receiver))
                ==> self.with_binding(binding).default_axis_value(receiver)
                == self.default_axis_value(receiver),
    {
    }
}

impl Default for InputView {
    /// A view that holds nothing.
    fn default() -> (view: InputView)
        ensures
            view@ == InputViewState::empty(),
    {
        InputView::empty()
    }
}

impl Clone for InputView {
    /// A copy with the same bindings, states, defaults and input source.
    fn clone(&self) -> (copy: Self)
        ensures
            copy@ == self@,
    {
        InputView {
            last_input_source: self.last_input_source,
            bindings: self.bindings.clone(),
            key_receiver_states: self.key_receiver_states.clone(),
            axis_receiver_states: self.axis_receiver_states.clone(),
            receiver_default_axis_values: self.receiver_default_axis_values.clone(),
        }
    }
}

impl InputView {
    /// A view that holds nothing: no binding, no state, no default, no input source.
    pub fn empty() -> (view: InputView)
        ensures
            view@ == InputViewState::empty(),
    {
        let view = InputView {
            last_input_source: None,
            bindings: HashMap::new(),
            key_receiver_states: HashMap::new(),
            axis_receiver_states: HashMap::new(),
            receiver_default_axis_values: HashMap::new(),
        };
        assert(view@.bindings =~= Map::empty());
        view
    }

    /// Adds a binding. First each receiver of its chords for which it declares a default
    /// magnitude is given that default. Then the binding is stored under its action, in place of
    /// any binding that stood there.
    pub fn add_binding(&mut self, binding: &ActionBinding) -> (view: &mut Self)
        ensures
            *final(view) == *final(self),
            view@ == old(self)@.with_binding(binding@),
    {
        binding.apply_default_axis_to_all_receivers(self);
        self.bindings.insert(binding.key, binding.clone());
        assert(self@.bindings =~= old(self)@.bindings.insert(binding@.key, binding@));
        self
    }

    /// Sets the default magnitude of a receiver, in place of any earlier one.
    pub fn add_receiver_default_axis_values(
        &mut self,
        receiver: BindingInputReceiver,
        value: u32,
    ) -> (view: &mut Self)
        ensures
            *final(view) == *final(self),
            view@ == (InputViewState {
                receiver_default_axis_values: old(self)@.receiver_default_axis_values.insert(
                    receiver,
                    value,
                ),
                ..old(self)@
            }),
    {
        self.receiver_default_axis_values.insert(receiver, value);
        self
    }

    /// The default magnitude of a receiver: the one that was set for it, and one otherwise.
    pub fn get_receiver_default_axis_value(&self, receiver: BindingInputReceiver) -> (value: u32)
        ensures
            value == self@.default_axis_value(receiver),
    {
        match self.receiver_default_axis_values.get(&receiver) {
            Some(value) => *value,
            None => DEFAULT_AXIS_VALUE,
        }
    }

    /// Records the digital state of a receiver, in place of any earlier one.
    pub fn set_key_receiver_state(&mut self, key: BindingInputReceiver, state: PressState)
        ensures
            final(self)@ == (InputViewState {
                key_receiver_states: old(self)@.key_receiver_states.insert(key, state),
                ..old(self)@
            }),
    {
        self.key_receiver_states.insert(key, state);
    }

    /// Records the analog state of a receiver, in place of any earlier one.
    pub fn set_axis_value(
        &mut self,
        receiver: BindingInputReceiver,
        value: u32,
        element_state: PressState,
    )
        ensures
            final(self)@ == (InputViewState {
                axis_receiver_states: old(self)@.axis_receiver_states.insert(
                    receiver,
                    AxisState(value, element_state),
                ),
                ..old(self)@
            }),
    {
        self.axis_receiver_states.insert(receiver, AxisState(value, element_state));
    }

    /// The digital states of the members of a chord, in the order of the chord.
    pub fn key_states_of(&self, chord: &Vec<BindingInputReceiver>) -> (states: Vec<PressState>)
        ensures
            states@ == self@.key_states(chord@),
    {
        let mut states: Vec<PressState> = Vec::new();
        let mut i: usize = 0;
        while i < chord.len()
            invariant
                i <= chord.len(),
                states@ == self@.key_states(chord@.take(i as int)),
            decreases chord.len() - i,
        {
            let state = match self.key_receiver_states.get(&chord[i]) {
                Some(state) => *state,
                None => PressState::Released,
            };
            states.push(state);
            i += 1;
            assert(states@ =~= self@.key_states(chord@.take(i as int)));
        }
        assert(chord@.take(i as int) == chord@);
        states
    }

    /// The analog states of the members of a chord, in the order of the chord.
    pub fn axis_states_of(&self, chord: &Vec<BindingInputReceiver>) -> (states: Vec<AxisState>)
        ensures
            states@ == self@.axis_states(chord@),
    {
        let mut states: Vec<AxisState> = Vec::new();
        let mut i: usize = 0;
        while i < chord.len()
            invariant
                i <= chord.len(),
                states@ == self@.axis_states(chord@.take(i as int)),
            decreases chord.len() - i,
        {
            let state = match self.axis_receiver_states.get(&chord[i]) {
                Some(state) => *state,
                None => AxisState(RESTING_AXIS_VALUE, PressState::Released),
            };
            states.push(state);
            i += 1;
            assert(states@ =~= self@.axis_states(chord@.take(i as int)));
        }
        assert(chord@.take(i as int) == chord@);
        states
    }

    /// The digital state that an action reports. The alternatives of its binding are tried in
    /// their order. The first one that has a member and no released member decides, and the
    /// action reports the least state among its members. An action without a binding, or without
    /// such an alternative, is released.
    pub fn key(&self, kind: &ActionKey) -> (state: PressState)
        ensures
            state == self@.key(*kind),
    {
        let ghost chords = self@.key_chords(*kind);
        match self.bindings.get(kind) {
            None => {
                proof {
                    lemma_nothing_decides(chords);
                }
                PressState::Released
            },
            Some(binding) => {
                let mut i: usize = 0;
                while i < binding.input_receivers.len()
                    invariant
                        i <= binding.input_receivers.len(),
                        chords == self@.key_chords(*kind),
                        self@.alternatives(*kind) == binding@.alternatives,
                        forall|k: int| 0 <= k < i ==> !fully_pressed(#[trigger] chords[k]),
                    decreases binding.input_receivers.len() - i,
                {
                    let states = self.key_states_of(&binding.input_receivers[i]);
                    assert(states@ == chords[i as int]);
                    if all_pressed(&states) {
                        if let Some(state) = least_of(&states) {
                            proof {
                                lemma_deciding_is_unique(chords, i as int);
                            }
                            return state;
                        }
                    }
                    i += 1;
                }
                proof {
                    lemma_nothing_decides(chords);
                }
                PressState::Released
            },
        }
    }

    /// The analog states that an action reports. The alternatives of its binding are tried in
    /// their order. The first one that has a member, and no member whose digital component is
    /// released, decides, and the action reports the analog states of its members, in the order
    /// of the chord and each as it stands. An action without a binding, or without such an
    /// alternative, reports nothing.
    pub fn axis(&self, kind: &ActionKey) -> (states: Vec<AxisState>)
        ensures
            states@ == self@.axis(*kind),
    {
        let ghost chords = self@.axis_chords(*kind);
        match self.bindings.get(kind) {
            None => {
                proof {
                    lemma_nothing_decides(chords);
                }
                Vec::new()
            },
            Some(binding) => {
                let mut i: usize = 0;
                while i < binding.input_receivers.len()
                    invariant
                        i <= binding.input_receivers.len(),
                        chords == self@.axis_chords(*kind),
                        self@.alternatives(*kind) == binding@.alternatives,
                        forall|k: int| 0 <= k < i ==> !fully_pressed(#[trigger] chords[k]),
                    decreases binding.input_receivers.len() - i,
                {
                    let states = self.axis_states_of(&binding.input_receivers[i]);
                    assert(digital_components(states@) == chords[i as int]);
                    if all_axes_pressed(&states) {
                        proof {
                            lemma_deciding_is_unique(chords, i as int);
                        }
                        return states;
                    }
                    i += 1;
                }
                proof {
                    lemma_nothing_decides(chords);
                }
                Vec::new()
            },
        }
    }

    /// Records the family of the device that was active last, or that none is known.
    pub fn set_last_input_source(&mut self, input_source: Option<InputSource>)
        ensures
            final(self)@ == (InputViewState { last_input_source: input_source, ..old(self)@ }),
    {
        self.last_input_source = input_source;
    }
}

} // verus!
