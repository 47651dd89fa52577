//! Carrying out a script of effects on a caller-supplied geometry.
use crate::dispatch::{Action, Effect};
use crate::skeleton::{strands_nonempty, with_node, Skeleton};
use crate::turtle::BranchStack;
use vstd::prelude::*;

verus! {

/// The numeric side of interpretation, supplied by the caller: the turtle's
/// position, orientation and appearance, and the points and props made from
/// it. Each method computes a function of its arguments, named by the spec
/// function beside it. The library decides which of these calls happen, and
/// in what order.
pub trait Geometry {
    type Turtle: Copy;
    type Point;
    type Prop;

    spec fn initial_of(&self) -> Self::Turtle;

    spec fn apply_of(&self, turtle: Self::Turtle, effect: Effect, index: usize) -> Self::Turtle;

    spec fn point_of(&self, turtle: Self::Turtle) -> Self::Point;

    spec fn near_of(&self, last: Self::Point, next: Self::Point) -> bool;

    spec fn prop_of(&self, turtle: Self::Turtle, default_id: u16, index: usize) -> Self::Prop;

    /// The turtle at the start of a stream.
    fn initial(&self) -> (r: Self::Turtle)
        ensures
            r == self.initial_of(),
    ;

    /// The turtle after a numeric effect (advance, bend, rotation, width or
    /// appearance) of the instruction at `index`.
    fn apply(&self, turtle: Self::Turtle, effect: Effect, index: usize) -> (r: Self::Turtle)
        ensures
            r == self.apply_of(turtle, effect, index),
    ;

    /// The strand point for the turtle as it stands.
    fn point(&self, turtle: &Self::Turtle) -> (r: Self::Point)
        ensures
            r == self.point_of(*turtle),
    ;

    /// Whether `next` falls within the deduplication distance of `last`.
    fn near(&self, last: &Self::Point, next: &Self::Point) -> (r: bool)
        ensures
            r == self.near_of(*last, *next),
    ;

    /// The prop spawned by the instruction at `index`.
    fn prop(&self, turtle: &Self::Turtle, default_id: u16, index: usize) -> (r: Self::Prop)
        ensures
            r == self.prop_of(*turtle, default_id, index),
    ;
}

/// A geometry without numbers: the turtle counts the numeric effects applied
/// along its branch (saturating at the largest `u64`), a point is that count,
/// and two points are near when no numeric effect lies between them. It
/// shows the strand structure of a stream, with the points that numeric
/// no-ops would drop already merged.
pub struct Outline;

impl Geometry for Outline {
    type Turtle = u64;
    type Point = u64;
    type Prop = (u16, usize);

    open spec fn initial_of(&self) -> u64 {
        0
    }

    open spec fn apply_of(&self, turtle: u64, effect: Effect, index: usize) -> u64 {
        if turtle < u64::MAX {
            (turtle + 1) as u64
        } else {
            turtle
        }
    }

    open spec fn point_of(&self, turtle: u64) -> u64 {
        turtle
    }

    open spec fn near_of(&self, last: u64, next: u64) -> bool {
        last == next
    }

    open spec fn prop_of(&self, turtle: u64, default_id: u16, index: usize) -> (u16, usize) {
        (default_id, index)
    }

    fn initial(&self) -> (r: u64) {
        0
    }

    fn apply(&self, turtle: u64, effect: Effect, index: usize) -> (r: u64) {
        if turtle < u64::MAX {
            turtle + 1
        } else {
            turtle
        }
    }

    fn point(&self, turtle: &u64) -> (r: u64) {
        *turtle
    }

    fn near(&self, last: &u64, next: &u64) -> (r: bool) {
        *last == *next
    }

    fn prop(&self, turtle: &u64, default_id: u16, index: usize) -> (r: (u16, usize)) {
        (default_id, index)
    }
}

/// The turtle, and the stack of saved turtles (innermost last), once the
/// actions have been carried out: numeric effects go through the geometry,
/// a save pushes the turtle, a restore pops the innermost saved turtle back
/// (or does nothing on an empty stack), and emitting a point or a prop
/// leaves the turtle as it is.
pub open spec fn turtle_after<G: Geometry>(g: G, actions: Seq<Action>) -> (G::Turtle, Seq<G::Turtle>)
    decreases actions.len(),
{
    if actions.len() == 0 {
        (g.initial_of(), seq![])
    } else {
        let (t, saved) = turtle_after(g, actions.drop_last());
        let a = actions.last();
        match a.effect {
            Effect::Emit { .. } => (t, saved),
            Effect::Spawn { .. } => (t, saved),
            Effect::Save => (t, saved.push(t)),
            Effect::Restore => if saved.len() > 0 {
                (saved.last(), saved.drop_last())
            } else {
                (t, saved)
            },
            _ => (g.apply_of(t, a.effect, a.index), saved),
        }
    }
}

/// Whether a point would be dropped next to the last point of the strands.
pub open spec fn near_last<G: Geometry>(g: G, strands: Seq<Seq<G::Point>>, p: G::Point) -> bool {
    strands.len() > 0 && g.near_of(strands.last().last(), p)
}

/// The strands once the actions have been carried out: each emitted point is
/// the geometry's point for the turtle as it stands, offered to the strands
/// by [`with_node`], and judged near the last point by the geometry.
pub open spec fn strands_after<G: Geometry>(g: G, actions: Seq<Action>) -> Seq<Seq<G::Point>>
    decreases actions.len(),
{
    if actions.len() == 0 {
        seq![]
    } else {
        let before = strands_after(g, actions.drop_last());
        match actions.last().effect {
            Effect::Emit { force_new_strand } => {
                let p = g.point_of(turtle_after(g, actions.drop_last()).0);
                with_node(before, p, force_new_strand, near_last(g, before, p))
            },
            _ => before,
        }
    }
}

/// The props once the actions have been carried out: one per spawn, made
/// by the geometry from the turtle as it stands.
pub open spec fn props_after<G: Geometry>(g: G, actions: Seq<Action>) -> Seq<G::Prop>
    decreases actions.len(),
{
    if actions.len() == 0 {
        seq![]
    } else {
        let before = props_after(g, actions.drop_last());
        let a = actions.last();
        match a.effect {
            Effect::Spawn { default_id } => before.push(
                g.prop_of(turtle_after(g, actions.drop_last()).0, default_id, a.index),
            ),
            _ => before,
        }
    }
}

/// Number of strands once the actions have been carried out: an emitted
/// point starts a strand where it forces a break or where none exists yet.
pub open spec fn strand_count(actions: Seq<Action>) -> nat
    decreases actions.len(),
{
    if actions.len() == 0 {
        0
    } else {
        let before = strand_count(actions.drop_last());
        match actions.last().effect {
            Effect::Emit { force_new_strand } => if force_new_strand || before == 0 {
                before + 1
            } else {
                before
            },
            _ => before,
        }
    }
}

/// The forced-break flags of the points that the actions emit, in order.
pub open spec fn emit_flags(actions: Seq<Action>) -> Seq<bool>
    decreases actions.len(),
{
    if actions.len() == 0 {
        seq![]
    } else {
        let before = emit_flags(actions.drop_last());
        match actions.last().effect {
            Effect::Emit { force_new_strand } => before.push(force_new_strand),
            _ => before,
        }
    }
}

/// Number of props once the actions have been carried out.
pub open spec fn prop_count(actions: Seq<Action>) -> nat
    decreases actions.len(),
{
    if actions.len() == 0 {
        0
    } else {
        let before = prop_count(actions.drop_last());
        if actions.last().effect is Spawn {
            before + 1
        } else {
            before
        }
    }
}

proof fn lemma_strands_after_count<G: Geometry>(g: G, actions: Seq<Action>)
    ensures
        strands_after(g, actions).len() == strand_count(actions),
        strands_nonempty(strands_after(g, actions)),
    decreases actions.len(),
{
    if actions.len() > 0 {
        let before_actions = actions.drop_last();
        lemma_strands_after_count(g, before_actions);
        let before = strands_after(g, before_actions);
        match actions.last().effect {
            Effect::Emit { force_new_strand } => {
                let p = g.point_of(turtle_after(g, before_actions).0);
                let near = near_last(g, before, p);
                let after = with_node(before, p, force_new_strand, near);
                assert forall|i: int| 0 <= i < after.len() implies #[trigger] after[i].len() > 0 by {
                    if !(force_new_strand || before.len() == 0) && !near && i == before.len() - 1 {
                        assert(after[i] == before.last().push(p));
                    } else if i < before.len() {
                        assert(before[i].len() > 0);
                    }
                }
            },
            _ => {},
        }
    }
}

/// Carries out a script on the caller's geometry: the strands and props are
/// exactly those that the geometry's functions give along the script.
pub fn run_script<G: Geometry>(script: &Vec<Action>, geometry: &G) -> (r: Skeleton<
    G::Point,
    G::Prop,
>)
    ensures
        r.wf(),
        r.strand_seq() == strands_after(*geometry, script@),
        r.props@ == props_after(*geometry, script@),
        r.strand_seq().len() == strand_count(script@),
        r.props@.len() == prop_count(script@),
{
    let ghost g = *geometry;
    let mut skeleton: Skeleton<G::Point, G::Prop> = Skeleton::new();
    let mut turtle = geometry.initial();
    let mut stack: BranchStack<G::Turtle> = BranchStack::new();
    let mut k: usize = 0;
    while k < script.len()
        invariant
            k <= script@.len(),
            g == *geometry,
            skeleton.wf(),
            skeleton.strand_seq() == strands_after(g, script@.take(k as int)),
            skeleton.props@ == props_after(g, script@.take(k as int)),
            skeleton.props@.len() == prop_count(script@.take(k as int)),
            turtle == turtle_after(g, script@.take(k as int)).0,
            stack@ == turtle_after(g, script@.take(k as int)).1,
        decreases script@.len() - k,
    {
        let action = script[k];
        assert(script@.take(k + 1).drop_last() =~= script@.take(k as int));
        assert(script@.take(k + 1).last() == action);
        match action.effect {
            Effect::Emit { force_new_strand } => {
                let point = geometry.point(&turtle);
                let near = match skeleton.last_point() {
                    Some(last) => geometry.near(last, &point),
                    None => false,
                };
                skeleton.add_node(point, force_new_strand, near);
            },
            Effect::Save => {
                stack.save(turtle);
            },
            Effect::Restore => {
                match stack.restore() {
                    Some(saved) => {
                        turtle = saved;
                    },
                    None => {},
                }
            },
            Effect::Spawn { default_id } => {
                let prop = geometry.prop(&turtle, default_id, action.index);
                skeleton.add_prop(prop);
            },
            _ => {
                turtle = geometry.apply(turtle, action.effect, action.index);
            },
        }
        k = k + 1;
    }
    assert(script@.take(k as int) =~= script@);
    proof {
        lemma_strands_after_count(g, script@);
    }
    skeleton
}

} // verus!
