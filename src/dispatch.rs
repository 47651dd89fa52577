//! The dispatch of one instruction into turtle effects, and the reading of
//! its parameters.
use crate::turtle::{Axis, Sign, TurtleOp};
use vstd::prelude::*;

verus! {

/// One change to the turtle or the skeleton, to be carried out on the
/// numeric turtle state by the caller.
#[derive(Clone, Copy, Debug, PartialEq, Eq, Structural)]
pub enum Effect {
    /// Offer a point for the turtle as it stands to the skeleton; a forced
    /// break starts a new strand with it.
    Emit { force_new_strand: bool },
    /// Advance along the local up axis by parameter 0, or the default step.
    Advance,
    /// Bend the heading toward the tropism direction, where one is configured.
    Bend,
    /// Rotate about a local axis by the sign times parameter 0, or the
    /// default angle.
    Rotate { axis: Axis, sign: Sign },
    /// Rotate half a turn about local Z.
    TurnAround,
    /// Level the left axis, where the heading is not vertical.
    Vertical,
    /// Replace the width by parameter 0, where given.
    SetWidth,
    /// Replace the color from the parameters.
    SetColor,
    /// Replace the material identifier by parameter 0, where given.
    SetMaterial,
    /// Replace the UV scale by parameter 0, where given.
    SetUVScale,
    /// Save a copy of the turtle state on the branch stack.
    Save,
    /// Replace the turtle state by the most recently saved one.
    Restore,
    /// Emit a prop; its identifier is parameter 0, or `default_id`.
    Spawn { default_id: u16 },
}

/// An effect, with the index of the instruction that caused it.
#[derive(Clone, Copy, Debug, PartialEq, Eq, Structural)]
pub struct Action {
    pub index: usize,
    pub effect: Effect,
}

/// Whether a color instruction with `n` parameters changes the color.
pub open spec fn color_arity(n: nat) -> bool {
    n == 1 || n == 3 || n == 4
}

/// The point that starts the very first strand, if none exists yet.
pub open spec fn opening(has_strands: bool) -> Seq<Effect> {
    if has_strands {
        seq![]
    } else {
        seq![Effect::Emit { force_new_strand: true }]
    }
}

/// The effects of one operation, given whether the skeleton has strands, the
/// branch stack depth and the number of parameters.
pub open spec fn effects_of(op: TurtleOp, has_strands: bool, depth: nat, n_params: nat) -> Seq<
    Effect,
> {
    match op {
        TurtleOp::Draw => opening(has_strands) + seq![
            Effect::Advance,
            Effect::Bend,
            Effect::Emit { force_new_strand: false },
        ],
        TurtleOp::Move => opening(has_strands) + seq![
            Effect::Advance,
            Effect::Emit { force_new_strand: true },
        ],
        TurtleOp::Yaw(s) => seq![Effect::Rotate { axis: Axis::Z, sign: s }],
        TurtleOp::Pitch(s) => seq![Effect::Rotate { axis: Axis::X, sign: s }],
        TurtleOp::Roll(s) => seq![Effect::Rotate { axis: Axis::Y, sign: s }],
        TurtleOp::TurnAround => seq![Effect::TurnAround],
        TurtleOp::Vertical => seq![Effect::Vertical],
        TurtleOp::SetWidth => seq![Effect::SetWidth],
        TurtleOp::Push => seq![Effect::Save, Effect::Emit { force_new_strand: true }],
        TurtleOp::Pop => if depth > 0 {
            seq![Effect::Restore, Effect::Emit { force_new_strand: true }]
        } else {
            seq![]
        },
        TurtleOp::Spawn(d) => seq![Effect::Spawn { default_id: d }],
        TurtleOp::SetColor => if color_arity(n_params) {
            seq![Effect::SetColor]
        } else {
            seq![]
        },
        TurtleOp::SetMaterial => seq![Effect::SetMaterial],
        TurtleOp::SetUVScale => seq![Effect::SetUVScale],
        TurtleOp::Ignore => seq![],
    }
}

/// Branch stack depth after an operation.
pub open spec fn depth_after(op: TurtleOp, depth: nat) -> nat {
    match op {
        TurtleOp::Push => depth + 1,
        TurtleOp::Pop => if depth > 0 {
            (depth - 1) as nat
        } else {
            depth
        },
        _ => depth,
    }
}

/// Whether the skeleton has strands after an operation.
pub open spec fn has_strands_after(op: TurtleOp, has_strands: bool, depth: nat) -> bool {
    has_strands || op is Draw || op is Move || op is Push || (op is Pop && depth > 0)
}

/// The operation a symbol stands for; unmapped symbols do nothing.
pub open spec fn op_of(ops: Map<u16, TurtleOp>, sym: u16) -> TurtleOp {
    if ops.contains_key(sym) {
        ops[sym]
    } else {
        TurtleOp::Ignore
    }
}

/// Effects tagged with the index of their instruction.
pub open spec fn tagged(effects: Seq<Effect>, index: usize) -> Seq<Action> {
    effects.map_values(|e: Effect| Action { index, effect: e })
}

/// The actions of the instructions from `i` on, stopping at the end of the
/// stream or at the first record that cannot be read.
pub open spec fn script_from(
    ops: Map<u16, TurtleOp>,
    views: Seq<Option<(u16, usize)>>,
    i: nat,
    has_strands: bool,
    depth: nat,
) -> Seq<Action>
    decreases views.len() - i,
{
    if i >= views.len() {
        seq![]
    } else {
        match views[i as int] {
            None => seq![],
            Some((sym, n)) => {
                let op = op_of(ops, sym);
                tagged(effects_of(op, has_strands, depth, n as nat), i as usize) + script_from(
                    ops,
                    views,
                    i + 1,
                    has_strands_after(op, has_strands, depth),
                    depth_after(op, depth),
                )
            },
        }
    }
}

/// The actions of a whole stream.
pub open spec fn script_of(ops: Map<u16, TurtleOp>, views: Seq<Option<(u16, usize)>>) -> Seq<
    Action,
> {
    script_from(ops, views, 0, false, 0)
}

fn push_action(out: &mut Vec<Action>, index: usize, effect: Effect)
    ensures
        final(out)@ == old(out)@.push(Action { index, effect }),
{
    out.push(Action { index, effect });
}

/// Appends the actions of one operation to `out`.
pub fn push_effects(
    out: &mut Vec<Action>,
    index: usize,
    op: TurtleOp,
    has_strands: bool,
    depth: usize,
    n_params: usize,
)
    ensures
        final(out)@ == old(out)@ + tagged(
            effects_of(op, has_strands, depth as nat, n_params as nat),
            index,
        ),
{
    let ghost before = out@;
    match op {
        TurtleOp::Draw | TurtleOp::Move => {
            if !has_strands {
                push_action(out, index, Effect::Emit { force_new_strand: true });
            }
            push_action(out, index, Effect::Advance);
            if op == TurtleOp::Draw {
                push_action(out, index, Effect::Bend);
                push_action(out, index, Effect::Emit { force_new_strand: false });
            } else {
                push_action(out, index, Effect::Emit { force_new_strand: true });
            }
        },
        TurtleOp::Yaw(s) => push_action(out, index, Effect::Rotate { axis: Axis::Z, sign: s }),
        TurtleOp::Pitch(s) => push_action(out, index, Effect::Rotate { axis: Axis::X, sign: s }),
        TurtleOp::Roll(s) => push_action(out, index, Effect::Rotate { axis: Axis::Y, sign: s }),
        TurtleOp::TurnAround => push_action(out, index, Effect::TurnAround),
        TurtleOp::Vertical => push_action(out, index, Effect::Vertical),
        TurtleOp::SetWidth => push_action(out, index, Effect::SetWidth),
        TurtleOp::Push => {
            push_action(out, index, Effect::Save);
            push_action(out, index, Effect::Emit { force_new_strand: true });
        },
        TurtleOp::Pop => {
            if depth > 0 {
                push_action(out, index, Effect::Restore);
                push_action(out, index, Effect::Emit { force_new_strand: true });
            }
        },
        TurtleOp::Spawn(d) => push_action(out, index, Effect::Spawn { default_id: d }),
        TurtleOp::SetColor => {
            if n_params == 1 || n_params == 3 || n_params == 4 {
                push_action(out, index, Effect::SetColor);
            }
        },
        TurtleOp::SetMaterial => push_action(out, index, Effect::SetMaterial),
        TurtleOp::SetUVScale => push_action(out, index, Effect::SetUVScale),
        TurtleOp::Ignore => {},
    }
    assert(out@ =~= before + tagged(
        effects_of(op, has_strands, depth as nat, n_params as nat),
        index,
    ));
}

/// Parameter `index` of an instruction, or `default` where it is absent.
pub fn param_or<N: Copy>(params: &[N], index: usize, default: N) -> (r: N)
    ensures
        index < params@.len() ==> r == params@[index as int],
        index >= params@.len() ==> r == default,
{
    if index < params.len() {
        params[index]
    } else {
        default
    }
}

/// The RGBA color that a color instruction sets: one parameter is a gray
/// level, three are red, green and blue, four add alpha. With one or three
/// parameters alpha is `opaque`. Any other count leaves the color as it is
/// (`None`).
pub fn color_from_params<N: Copy>(params: &[N], opaque: N) -> (r: Option<(N, N, N, N)>)
    ensures
        params@.len() == 1 ==> r == Some((params@[0], params@[0], params@[0], opaque)),
        params@.len() == 3 ==> r == Some((params@[0], params@[1], params@[2], opaque)),
        params@.len() == 4 ==> r == Some((params@[0], params@[1], params@[2], params@[3])),
        !color_arity(params@.len()) ==> r is None,
{
    let n = params.len();
    if n == 1 {
        Some((params[0], params[0], params[0], opaque))
    } else if n == 3 {
        Some((params[0], params[1], params[2], opaque))
    } else if n == 4 {
        Some((params[0], params[1], params[2], params[3]))
    } else {
        None
    }
}

} // verus!
