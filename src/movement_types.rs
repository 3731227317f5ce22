use vstd::prelude::*;

verus! {

/// Whether the piece moved or rotated during the current step; a move or a
/// rotation of a grounded piece restarts its lock delay.
pub struct ResetLockDelay(pub bool);

impl ResetLockDelay {
    pub fn new() -> (r: Self)
        ensures
            r.0 == false,
    {
        ResetLockDelay(false)
    }

    pub fn set_to(&mut self, state: bool)
        ensures
            final(self).0 == state,
    {
        self.0 = state;
    }

    pub fn get(&self) -> (r: bool)
        ensures
            r == self.0,
    {
        self.0
    }
}

/// Whether a hard drop happened during the current step; the piece then
/// locks at once.
pub struct HardDropOccurred(pub bool);

impl HardDropOccurred {
    pub fn new() -> (r: Self)
        ensures
            r.0 == false,
    {
        HardDropOccurred(false)
    }

    pub fn set(&mut self)
        ensures
            final(self).0 == true,
    {
        self.0 = true;
    }

    pub fn reset(&mut self)
        ensures
            final(self).0 == false,
    {
        self.0 = false;
    }

    pub fn get(&self) -> (r: bool)
        ensures
            r == self.0,
    {
        self.0
    }
}

/// A requested translation of the whole piece.
pub trait MoveOffset: Sized {
    /// The translation `(dx, dy)` that this request stands for.
    spec fn offset(&self) -> (int, int);

    /// Turns the request into the request to stay in place.
    fn set_neutral(&mut self)
        ensures
            final(self).offset() == (0int, 0int),
    ;

    fn is_neutral(&self) -> (r: bool)
        ensures
            r == (self.offset() == (0int, 0int)),
    ;

    fn to_offset(&self) -> (r: (i16, i16))
        ensures
            r.0 as int == self.offset().0,
            r.1 as int == self.offset().1,
            -2 <= r.0 <= 2,
            -2 <= r.1 <= 2,
    ;
}

/// The request to stay in place, used to test whether the piece fits where
/// it is.
#[derive(Clone, Copy, Debug, PartialEq, Eq, Structural)]
pub struct MoveNeutral;

impl MoveOffset for MoveNeutral {
    open spec fn offset(&self) -> (int, int) {
        (0, 0)
    }

    fn set_neutral(&mut self) {
        *self = MoveNeutral;
    }

    fn is_neutral(&self) -> (r: bool) {
        true
    }

    fn to_offset(&self) -> (r: (i16, i16)) {
        (0, 0)
    }
}

/// A sideways move by one column.
#[derive(Clone, Copy, Debug, PartialEq, Eq, Structural)]
pub enum MoveX {
    Left,
    Right,
    Neutral,
}

impl MoveOffset for MoveX {
    open spec fn offset(&self) -> (int, int) {
        match *self {
            MoveX::Neutral => (0, 0),
            MoveX::Left => (-1, 0),
            MoveX::Right => (1, 0),
        }
    }

    fn set_neutral(&mut self) {
        *self = MoveX::Neutral;
    }

    fn is_neutral(&self) -> (r: bool) {
        *self == MoveX::Neutral
    }

    fn to_offset(&self) -> (r: (i16, i16)) {
        match *self {
            MoveX::Neutral => (0, 0),
            MoveX::Left => (-1, 0),
            MoveX::Right => (1, 0),
        }
    }
}

/// A downward move by one or two rows.
#[derive(Clone, Copy, Debug, PartialEq, Eq, Structural)]
pub enum MoveY {
    Down1,
    Down2,
    Neutral,
}

impl MoveY {
    /// One row further down, at most two.
    pub open spec fn lowered(self) -> MoveY {
        match self {
            MoveY::Neutral => MoveY::Down1,
            _ => MoveY::Down2,
        }
    }

    /// One row less far down, at least none.
    pub open spec fn raised(self) -> MoveY {
        match self {
            MoveY::Down2 => MoveY::Down1,
            _ => MoveY::Neutral,
        }
    }

    pub fn move_down(&mut self)
        ensures
            *final(self) == old(self).lowered(),
    {
        *self = match *self {
            MoveY::Neutral => MoveY::Down1,
            // the player's soft drop and gravity may both ask for a row in
            // the same step
            MoveY::Down1 => MoveY::Down2,
            MoveY::Down2 => MoveY::Down2,
        };
    }

    pub fn move_up(&mut self)
        ensures
            *final(self) == old(self).raised(),
    {
        *self = match *self {
            MoveY::Down1 => MoveY::Neutral,
            MoveY::Down2 => MoveY::Down1,
            MoveY::Neutral => MoveY::Neutral,
        };
    }
}

impl MoveOffset for MoveY {
    open spec fn offset(&self) -> (int, int) {
        match *self {
            MoveY::Neutral => (0, 0),
            MoveY::Down1 => (0, -1),
            MoveY::Down2 => (0, -2),
        }
    }

    fn set_neutral(&mut self) {
        *self = MoveY::Neutral;
    }

    fn is_neutral(&self) -> (r: bool) {
        *self == MoveY::Neutral
    }

    fn to_offset(&self) -> (r: (i16, i16)) {
        match *self {
            MoveY::Neutral => (0, 0),
            MoveY::Down1 => (0, -1),
            MoveY::Down2 => (0, -2),
        }
    }
}

impl MoveOffset for (MoveX, MoveY) {
    open spec fn offset(&self) -> (int, int) {
        (self.0.offset().0, self.1.offset().1)
    }

    fn set_neutral(&mut self) {
        *self = (MoveX::Neutral, MoveY::Neutral);
    }

    fn is_neutral(&self) -> (r: bool) {
        self.0.is_neutral() && self.1.is_neutral()
    }

    fn to_offset(&self) -> (r: (i16, i16)) {
        (self.0.to_offset().0, self.1.to_offset().1)
    }
}

} // verus!
