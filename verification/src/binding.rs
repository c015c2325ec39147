//! The binding of a logical action to the physical receivers that trigger it.
use crate::view::InputView;
use crate::view::InputViewState;
use std::collections::HashMap;
use vstd::prelude::*;

verus! {

broadcast use vstd::std_specs::hash::group_hash_axioms;

/// Identifies one physical input element: a key, a button or an axis.
pub type BindingInputReceiver = u64;

/// Identifies one logical action.
pub type ActionKey = u64;

/// What triggers one action: alternatives in the order of their priority, each of them a chord
/// of receivers that must all be pressed at once, and the default magnitudes that the binding
/// declares for receivers.
#[derive(PartialEq, Debug)]
pub struct ActionBinding {
    pub key: ActionKey,
    pub input_receivers: Vec<Vec<BindingInputReceiver>>,
    pub default_axis_value: HashMap<BindingInputReceiver, u32>,
}

/// The mathematical content of an `ActionBinding`.
pub struct ActionBindingView {
    pub key: ActionKey,
    pub alternatives: Seq<Seq<BindingInputReceiver>>,
    pub defaults: Map<BindingInputReceiver, u32>,
}

impl ActionBindingView {
    /// Whether `receiver` is a member of one of the chords.
    pub open spec fn triggers(self, receiver: BindingInputReceiver) -> bool {
        exists|i: int, j: int|
            0 <= i < self.alternatives.len() && 0 <= j < self.alternatives[i].len()
                && #[trigger] self.alternatives[i][j] == receiver
    }

    /// The default magnitudes that take effect when the binding is added: those that it declares
    /// for members of its chords.
    pub open spec fn applied_defaults(self) -> Map<BindingInputReceiver, u32> {
        Map::new(
            |receiver: BindingInputReceiver|
                self.triggers(receiver) && self.defaults.contains_key(receiver),
            |receiver: BindingInputReceiver| self.defaults[receiver],
        )
    }

    /// Whether `receiver` is listed before position `member` of the chord at `chord`, as the
    /// chords and their members follow one another.
    spec fn triggers_before(self, receiver: BindingInputReceiver, chord: int, member: int) -> bool {
        exists|i: int, j: int|
            0 <= i < self.alternatives.len() && 0 <= j < self.alternatives[i].len() && (i < chord
                || (i == chord && j < member)) && #[trigger] self.alternatives[i][j] == receiver
    }

    /// The default magnitudes that the binding declares for the members listed before position
    /// `member` of the chord at `chord`.
    spec fn applied_defaults_before(self, chord: int, member: int) -> Map<
        BindingInputReceiver,
        u32,
    > {
        Map::new(
            |receiver: BindingInputReceiver|
                self.triggers_before(receiver, chord, member) && self.defaults.contains_key(
                    receiver,
                ),
            |receiver: BindingInputReceiver| self.defaults[receiver],
        )
    }

    /// Before the first member of the first chord no default applies, and before the end of the
    /// list all of them do.
    proof fn lemma_applied_defaults_ends(self)
        ensures
            self.applied_defaults_before(0, 0) == Map::<BindingInputReceiver, u32>::empty(),
            self.applied_defaults_before(self.alternatives.len() as int, 0)
                == self.applied_defaults(),
    {
        let end = self.alternatives.len() as int;
        assert forall|receiver: BindingInputReceiver|
            self.triggers_before(receiver, end, 0) == self.triggers(receiver) by {
            if self.triggers(receiver) {
                let (i, j) = choose|i: int, j: int|
                    0 <= i < self.alternatives.len() && 0 <= j < self.alternatives[i].len()
                        && #[trigger] self.alternatives[i][j] == receiver;
                assert(self.alternatives[i][j] == receiver);
            }
        }
        assert(self.applied_defaults_before(0, 0) =~= Map::<BindingInputReceiver, u32>::empty());
        assert(self.applied_defaults_before(end, 0) =~= self.applied_defaults());
    }

    /// Passing one member adds the default that the binding declares for it, if it declares one.
    proof fn lemma_applied_defaults_step(self, chord: int, member: int)
        requires
            0 <= chord < self.alternatives.len(),
            0 <= member < self.alternatives[chord].len(),
        ensures
            self.applied_defaults_before(chord, member + 1) == ({
                let receiver = self.alternatives[chord][member];
                if self.defaults.contains_key(receiver) {
                    self.applied_defaults_before(chord, member).insert(
                        receiver,
                        self.defaults[receiver],
                    )
                } else {
                    self.applied_defaults_before(chord, member)
                }
            }),
    {
        let passed = self.alternatives[chord][member];
        assert forall|receiver: BindingInputReceiver|
            self.triggers_before(receiver, chord, member + 1) == (receiver == passed
                || self.triggers_before(receiver, chord, member)) by {
            if self.triggers_before(receiver, chord, member + 1) {
                let (i, j) = choose|i: int, j: int|
                    0 <= i < self.alternatives.len() && 0 <= j < self.alternatives[i].len() && (i
                        < chord || (i == chord && j < member + 1))
                        && #[trigger] self.alternatives[i][j] == receiver;
                if !(i == chord && j == member) {
                    assert(self.alternatives[i][j] == receiver);
                }
            }
        }
        if self.defaults.contains_key(passed) {
            assert(self.applied_defaults_before(chord, member + 1)
                =~= self.applied_defaults_before(chord, member).insert(
                passed,
                self.defaults[passed],
            ));
        } else {
            assert(self.applied_defaults_before(chord, member + 1)
                =~= self.applied_defaults_before(chord, member));
        }
    }

    /// The end of one chord is the start of the next.
    proof fn lemma_applied_defaults_next_chord(self, chord: int)
        requires
            0 <= chord < self.alternatives.len(),
        ensures
            self.applied_defaults_before(chord, self.alternatives[chord].len() as int)
                == self.applied_defaults_before(chord + 1, 0),
    {
        let end = self.alternatives[chord].len() as int;
        assert forall|receiver: BindingInputReceiver|
            self.triggers_before(receiver, chord, end) == self.triggers_before(
                receiver,
                chord + 1,
                0,
            ) by {
            if self.triggers_before(receiver, chord, end) {
                let (i, j) = choose|i: int, j: int|
                    0 <= i < self.alternatives.len() && 0 <= j < self.alternatives[i].len() && (i
                        < chord || (i == chord && j < end))
                        && #[trigger] self.alternatives[i][j] == receiver;
                assert(self.alternatives[i][j] == receiver);
            }
            if self.triggers_before(receiver, chord + 1, 0) {
                let (i, j) = choose|i: int, j: int|
                    0 <= i < self.alternatives.len() && 0 <= j < self.alternatives[i].len() && (i
                        < chord + 1 || (i == chord + 1 && j < 0))
                        && #[trigger] self.alternatives[i][j] == receiver;
                assert(self.alternatives[i][j] == receiver);
            }
        }
        assert(self.applied_defaults_before(chord, end) =~= self.applied_defaults_before(
            chord + 1,
            0,
        ));
    }
}

impl View for ActionBinding {
    type V = ActionBindingView;

    open spec fn view(&self) -> ActionBindingView {
        ActionBindingView {
            key: self.key,
            alternatives: Seq::new(
                self.input_receivers@.len(),
                |i: int| self.input_receivers@[i]@,
            ),
            defaults: self.default_axis_value@,
        }
    }
}

impl Clone for ActionBinding {
    /// A copy with the same action, alternatives and default magnitudes.
    fn clone(&self) -> (copy: Self)
        ensures
            copy@ == self@,
    {
        let copy = ActionBinding {
            key: self.key,
            input_receivers: self.input_receivers.clone(),
            default_axis_value: self.default_axis_value.clone(),
        };
        proof {
            assert forall|i: int| 0 <= i < self.input_receivers@.len() implies (
            #[trigger] copy.input_receivers@[i])@ == self.input_receivers@[i]@ by {
                assert(cloned(self.input_receivers@[i], copy.input_receivers@[i]));
                assert(copy.input_receivers@[i]@ =~= self.input_receivers@[i]@);
            }
            assert(copy@.alternatives =~= self@.alternatives);
        }
        copy
    }
}

impl ActionBinding {
    /// A binding for the action `key` that no receiver triggers yet.
    pub fn from(key: ActionKey) -> (binding: ActionBinding)
        ensures
            binding@ == (ActionBindingView {
                key,
                alternatives: Seq::empty(),
                defaults: Map::empty(),
            }),
    {
        let binding = ActionBinding {
            key,
            input_receivers: Vec::new(),
            default_axis_value: HashMap::new(),
        };
        assert(binding@.alternatives =~= Seq::empty());
        binding
    }

    /// Adds `receiver` alone as the alternative of least priority.
    pub fn receiver(&mut self, receiver: BindingInputReceiver) -> (binding: &mut Self)
        ensures
            *final(binding) == *final(self),
            binding@ == (ActionBindingView {
                alternatives: old(self)@.alternatives.push(seq![receiver]),
                ..old(self)@
            }),
    {
        let mut chord: Vec<BindingInputReceiver> = Vec::new();
        chord.push(receiver);
        assert(chord@ =~= seq![receiver]);
        self.receivers(chord)
    }

    /// Adds the chord `receivers` as the alternative of least priority.
    pub fn receivers(&mut self, receivers: Vec<BindingInputReceiver>) -> (binding: &mut Self)
        ensures
            *final(binding) == *final(self),
            binding@ == (ActionBindingView {
                alternatives: old(self)@.alternatives.push(receivers@),
                ..old(self)@
            }),
    {
        self.input_receivers.push(receivers);
        assert(self@.alternatives =~= old(self)@.alternatives.push(receivers@));
        self
    }

    /// Declares `value` as the default magnitude of `receiver`, in place of any earlier one.
    pub fn default_axis_value(&mut self, receiver: BindingInputReceiver, value: u32) -> (binding:
        &mut Self)
        ensures
            *final(binding) == *final(self),
            binding@ == (ActionBindingView {
                defaults: old(self)@.defaults.insert(receiver, value),
                ..old(self)@
            }),
    {
        self.default_axis_value.insert(receiver, value);
        self
    }

    /// Gives each receiver of the chords for which the binding declares a default magnitude
    /// that default in `view`. A default that the view held for such a receiver gives way.
    /// Nothing else in the view changes.
    pub fn apply_default_axis_to_all_receivers(&self, view: &mut InputView)
        ensures
            final(view)@ == (InputViewState {
                receiver_default_axis_values: old(view)@.receiver_default_axis_values.union_prefer_right(
                    self@.applied_defaults(),
                ),
                ..old(view)@
            }),
    {
        let ghost before = view@;
        let ghost held = before.receiver_default_axis_values;
        let ghost this = self@;
        proof {
            this.lemma_applied_defaults_ends();
            assert(held.union_prefer_right(this.applied_defaults_before(0, 0)) =~= held);
        }
        let mut i: usize = 0;
        while i < self.input_receivers.len()
            invariant
                i <= self.input_receivers.len(),
                this == self@,
                held == before.receiver_default_axis_values,
                view@ == (InputViewState {
                    receiver_default_axis_values: held.union_prefer_right(
                        this.applied_defaults_before(i as int, 0),
                    ),
                    ..before
                }),
            decreases self.input_receivers.len() - i,
        {
            let chord = &self.input_receivers[i];
            let mut j: usize = 0;
            while j < chord.len()
                invariant
                    i < self.input_receivers.len(),
                    j <= chord.len(),
                    this == self@,
                    held == before.receiver_default_axis_values,
                    chord@ == this.alternatives[i as int],
                    view@ == (InputViewState {
                        receiver_default_axis_values: held.union_prefer_right(
                            this.applied_defaults_before(i as int, j as int),
                        ),
                        ..before
                    }),
                decreases chord.len() - j,
            {
                let receiver = chord[j];
                if let Some(value) = self.default_axis_value.get(&receiver) {
                    view.add_receiver_default_axis_values(receiver, *value);
                }
                proof {
                    this.lemma_applied_defaults_step(i as int, j as int);
                    assert(view@.receiver_default_axis_values =~= held.union_prefer_right(
                        this.applied_defaults_before(i as int, j + 1),
                    ));
                }
                j += 1;
            }
            proof {
                this.lemma_applied_defaults_next_chord(i as int);
            }
            i += 1;
        }
        proof {
            this.lemma_applied_defaults_ends();
        }
    }
}

} // verus!
