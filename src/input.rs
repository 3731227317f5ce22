use vstd::prelude::*;

verus! {

/// A named player action: a key held down, or pressed during this step.
#[derive(Clone, Copy, Debug, PartialEq, Eq, Structural)]
pub enum Input {
    LeftPressed,
    RightPressed,
    SoftDropPressed,
    ClkwPressed,
    ClkwJustPressed,
    CclwPressed,
    CclwJustPressed,
    HardDropPressed,
    HardDropJustPressed,
}

/// Another name for [`Input`].
pub type KeyAction = Input;

impl Input {
    /// The bit that stands for this action.
    pub open spec fn index(self) -> u16 {
        match self {
            Input::LeftPressed => 0,
            Input::RightPressed => 1,
            Input::SoftDropPressed => 2,
            Input::ClkwPressed => 3,
            Input::ClkwJustPressed => 4,
            Input::CclwPressed => 5,
            Input::CclwJustPressed => 6,
            Input::HardDropPressed => 7,
            Input::HardDropJustPressed => 8,
        }
    }

    /// Whether the action says that a key went down during this step, which
    /// is worked out from the held state rather than reported by a key.
    pub open spec fn is_just_pressed(self) -> bool {
        self == Input::ClkwJustPressed || self == Input::CclwJustPressed || self == Input::HardDropJustPressed
    }

    fn bit(self) -> (r: u16)
        ensures
            r == self.index(),
            r < 9,
    {
        match self {
            Input::LeftPressed => 0,
            Input::RightPressed => 1,
            Input::SoftDropPressed => 2,
            Input::ClkwPressed => 3,
            Input::ClkwJustPressed => 4,
            Input::CclwPressed => 5,
            Input::CclwJustPressed => 6,
            Input::HardDropPressed => 7,
            Input::HardDropJustPressed => 8,
        }
    }

    fn to_bitmask(self) -> (r: u16)
        ensures
            r == 1u16 << self.index(),
    {
        1u16 << self.bit()
    }
}

/// The set of actions signalled during one step, one bit per action.
#[derive(Clone, Copy, Debug, PartialEq, Eq, Structural)]
pub struct Inputs {
    pub bitflags: u16,
}

/// Another name for [`Inputs`].
pub type KeyActions = Inputs;

proof fn lemma_bit_test(b: u16, k: u16)
    requires
        k < 16,
    ensures
        (b & (1u16 << k) != 0) == ((b >> k) & 1 == 1),
{
    assert((b & (1u16 << k) != 0) == ((b >> k) & 1 == 1)) by (bit_vector)
        requires k < 16;
}

proof fn lemma_bit_update(b: u16, k: u16, j: u16)
    requires
        k < 16,
        j < 16,
    ensures
        ((b | (1u16 << k)) >> j) & 1 == (if j == k { 1 } else { (b >> j) & 1 }),
        ((b & !(1u16 << k)) >> j) & 1 == (if j == k { 0 } else { (b >> j) & 1 }),
{
    assert(((b | (1u16 << k)) >> j) & 1 == (if j == k { 1 } else { (b >> j) & 1 })) by (bit_vector)
        requires k < 16, j < 16;
    assert(((b & !(1u16 << k)) >> j) & 1 == (if j == k { 0 } else { (b >> j) & 1 })) by (bit_vector)
        requires k < 16, j < 16;
}

/// What an action's held state is after the key events `events`, taken in
/// order: the state of its last event, or the state before if it has none.
pub open spec fn held_after(inputs: Inputs, events: Seq<(Input, bool)>, a: Input) -> bool
    decreases events.len(),
{
    if events.len() == 0 {
        inputs.has(a)
    } else if events.last().0 == a {
        events.last().1
    } else {
        held_after(inputs, events.drop_last(), a)
    }
}

impl Inputs {
    /// Whether the action `a` is signalled.
    pub open spec fn has(self, a: Input) -> bool {
        (self.bitflags >> a.index()) & 1 == 1
    }

    /// No action signalled.
    pub fn new() -> (r: Inputs)
        ensures
            forall|a: Input| !r.has(a),
    {
        let r = Inputs { bitflags: 0 };
        assert forall|a: Input| !r.has(a) by {
            let k = a.index();
            assert((0u16 >> k) & 1 == 0) by (bit_vector);
        }
        r
    }

    pub fn set_action_state(&mut self, input: Input, signalled: bool)
        ensures
            final(self).has(input) == signalled,
            forall|a: Input| a != input ==> final(self).has(a) == old(self).has(a),
    {
        let ghost b = self.bitflags;
        if signalled {
            self.bitflags = self.bitflags | input.to_bitmask();
        } else {
            self.bitflags = self.bitflags & !input.to_bitmask();
        }
        let ghost r = *self;
        proof {
            lemma_bit_update(b, input.index(), input.index());
            assert forall|a: Input| a != input implies r.has(a) == (Inputs { bitflags: b }).has(a) by {
                lemma_bit_update(b, input.index(), a.index());
            }
        }
    }

    pub fn get_action_state(&self, input: Input) -> (r: bool)
        ensures
            r == self.has(input),
    {
        proof {
            lemma_bit_test(self.bitflags, input.index());
        }
        self.bitflags & input.to_bitmask() != 0
    }
}

/// Takes in the key events of one step, each an action with whether its key
/// is now down, and then works out the three actions that say a key went
/// down during this step.
pub fn input(inputs: &mut Inputs, events: &Vec<(Input, bool)>)
    ensures
        forall|a: Input| !a.is_just_pressed() ==> final(inputs).has(a) == held_after(*old(inputs), events@, a),
        final(inputs).has(Input::HardDropJustPressed) == (!old(inputs).has(Input::HardDropPressed) && final(inputs).has(Input::HardDropPressed)),
        final(inputs).has(Input::ClkwJustPressed) == (!old(inputs).has(Input::ClkwPressed) && final(inputs).has(Input::ClkwPressed)),
        final(inputs).has(Input::CclwJustPressed) == (!old(inputs).has(Input::CclwPressed) && final(inputs).has(Input::CclwPressed)),
{
    let prev_hard_drop = inputs.get_action_state(Input::HardDropPressed);
    let prev_clkw = inputs.get_action_state(Input::ClkwPressed);
    let prev_cclw = inputs.get_action_state(Input::CclwPressed);
    let ghost start = *inputs;

    let mut i: usize = 0;
    while i < events.len()
        invariant
            i <= events@.len(),
            forall|a: Input| #[trigger] inputs.has(a) == held_after(start, events@.subrange(0, i as int), a),
        decreases events@.len() - i,
    {
        let (action, pressed) = events[i];
        inputs.set_action_state(action, pressed);
        proof {
            let s = events@.subrange(0, i + 1);
            assert(s.drop_last() =~= events@.subrange(0, i as int));
            assert forall|a: Input| #[trigger] inputs.has(a) == held_after(start, s, a) by {
                assert(s.last() == events@[i as int]);
            }
        }
        i = i + 1;
    }
    assert(events@.subrange(0, events@.len() as int) =~= events@);

    let hard_drop = inputs.get_action_state(Input::HardDropPressed);
    inputs.set_action_state(Input::HardDropJustPressed, !prev_hard_drop && hard_drop);
    let clkw = inputs.get_action_state(Input::ClkwPressed);
    inputs.set_action_state(Input::ClkwJustPressed, !prev_clkw && clkw);
    let cclw = inputs.get_action_state(Input::CclwPressed);
    inputs.set_action_state(Input::CclwJustPressed, !prev_cclw && cclw);
}

} // verus!
