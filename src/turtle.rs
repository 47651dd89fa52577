//! Turtle operations and the branch stack.
use vstd::prelude::*;

verus! {

/// Direction of a rotation baked into a rotating operation.
#[derive(Clone, Copy, Debug, PartialEq, Eq, Structural)]
pub enum Sign {
    Positive,
    Negative,
}

/// A canonical axis of the turtle's local frame.
#[derive(Clone, Copy, Debug, PartialEq, Eq, Structural)]
pub enum Axis {
    /// Local right (pitch axis).
    X,
    /// Local up, the drawing direction (roll axis).
    Y,
    /// Local forward (yaw axis).
    Z,
}

/// Operations that the turtle performs while interpreting a stream.
#[derive(Clone, Copy, Debug, PartialEq, Eq, Structural)]
pub enum TurtleOp {
    /// Draw forward, adding a segment (`F`).
    Draw,
    /// Move forward without drawing (`f`).
    Move,
    /// Rotate about local Z (`+` / `-`).
    Yaw(Sign),
    /// Rotate about local X (`&` / `^`).
    Pitch(Sign),
    /// Rotate about local Y (`\` / `/`).
    Roll(Sign),
    /// Turn around by half a turn about local Z (`|`).
    TurnAround,
    /// Level the turtle's left axis with the horizon (`$`).
    Vertical,
    /// Set the stroke width (`!`).
    SetWidth,
    /// Save the turtle state (`[`).
    Push,
    /// Restore the last saved turtle state (`]`).
    Pop,
    /// Spawn a prop; holds the prop identifier used when none is given (`~`).
    Spawn(u16),
    /// Set the color from 1, 3 or 4 parameters (`'`).
    SetColor,
    /// Set the material identifier (`,`).
    SetMaterial,
    /// Set the UV scale (`;`).
    SetUVScale,
    /// No operation.
    Ignore,
}

/// A stack of saved turtle states, one per open branch.
pub struct BranchStack<T> {
    saved: Vec<T>,
}

impl<T> View for BranchStack<T> {
    type V = Seq<T>;

    closed spec fn view(&self) -> Seq<T> {
        self.saved@
    }
}

impl<T> BranchStack<T> {
    pub fn new() -> (r: Self)
        ensures
            r@ == Seq::<T>::empty(),
    {
        BranchStack { saved: Vec::new() }
    }

    /// Number of open branches.
    pub fn depth(&self) -> (r: usize)
        ensures
            r == self@.len(),
    {
        self.saved.len()
    }

    /// Saves a snapshot on top of the stack.
    pub fn save(&mut self, state: T)
        ensures
            final(self)@ == old(self)@.push(state),
    {
        self.saved.push(state);
    }

    /// Takes back the most recent snapshot; an empty stack stays empty and
    /// gives `None`.
    pub fn restore(&mut self) -> (r: Option<T>)
        ensures
            old(self)@.len() == 0 ==> r is None && final(self)@ == old(self)@,
            old(self)@.len() > 0 ==> r == Some(old(self)@.last()) && final(self)@ == old(
                self,
            )@.drop_last(),
    {
        self.saved.pop()
    }
}

} // verus!
