//! Laws of interpretation, proved over the specifications of the dispatch,
//! the branch stack and the strand policy.
use crate::dispatch::{
    color_arity, depth_after, effects_of, has_strands_after, op_of, script_from,
    script_of, tagged, Action, Effect,
};
use crate::execute::{
    emit_flags, near_last, props_after, strand_count, strands_after, turtle_after, Geometry,
};
use crate::skeleton::{replay, strands_nonempty, with_node};
use crate::turtle::TurtleOp;
use vstd::prelude::*;

verus! {

/// Whether an effect changes the turtle's appearance state.
pub open spec fn is_appearance(e: Effect) -> bool {
    e is SetColor || e is SetMaterial || e is SetUVScale
}

/// A record that cannot act is passed over: an unmapped symbol at any stack
/// depth, or a pop while no branch is open, adds no action and leaves the
/// stack depth and the strand state as they were, so the rest of the stream
/// is dispatched as if the record were absent.
pub proof fn lemma_inert_records(
    ops: Map<u16, TurtleOp>,
    views: Seq<Option<(u16, usize)>>,
    i: nat,
    has_strands: bool,
    depth: nat,
)
    requires
        i < views.len(),
        views[i as int] is Some,
        !ops.contains_key(views[i as int]->Some_0.0) || (ops[views[i as int]->Some_0.0]
            == TurtleOp::Pop && depth == 0),
    ensures
        script_from(ops, views, i, has_strands, depth) == script_from(
            ops,
            views,
            i + 1,
            has_strands,
            depth,
        ),
{
    let (sym, n) = views[i as int]->Some_0;
    let op = op_of(ops, sym);
    assert(effects_of(op, has_strands, depth, n as nat) == Seq::<Effect>::empty());
    assert(depth_after(op, depth) == depth);
    assert(has_strands_after(op, has_strands, depth) == has_strands);
    let rest = script_from(ops, views, i + 1, has_strands, depth);
    assert(tagged(Seq::<Effect>::empty(), i as usize) + rest =~= rest);
}

/// The first draw of a stream emits two points: one that opens the first
/// strand where the turtle stands, and one where the advance ends, which
/// extends that strand. Offered to an empty skeleton they form one strand
/// of two points, unless the advance ended on the start.
pub proof fn lemma_first_draw<P>(depth: nat, n_params: nat, start: P, end: P, near: bool)
    ensures
        effects_of(TurtleOp::Draw, false, depth, n_params) == seq![
            Effect::Emit { force_new_strand: true },
            Effect::Advance,
            Effect::Bend,
            Effect::Emit { force_new_strand: false },
        ],
        replay(Seq::<Seq<P>>::empty(), seq![(start, true, near), (end, false, false)])
            == seq![seq![start, end]],
{
    assert(effects_of(TurtleOp::Draw, false, depth, n_params) =~= seq![
        Effect::Emit { force_new_strand: true },
        Effect::Advance,
        Effect::Bend,
        Effect::Emit { force_new_strand: false },
    ]);
    let nodes = seq![(start, true, near), (end, false, false)];
    assert(nodes.drop_last() =~= seq![(start, true, near)]);
    assert(nodes.drop_last().drop_last() =~= Seq::<(P, bool, bool)>::empty());
    assert(replay(Seq::<Seq<P>>::empty(), nodes.drop_last().drop_last()) == Seq::<
        Seq<P>,
    >::empty());
    let one = replay(Seq::<Seq<P>>::empty(), nodes.drop_last());
    assert(one =~= seq![seq![start]]);
    assert(one.last().push(end) =~= seq![start, end]);
    assert(replay(Seq::<Seq<P>>::empty(), nodes) =~= seq![seq![start, end]]);
}

proof fn lemma_take_next(actions: Seq<Action>, k: int)
    requires
        0 <= k < actions.len(),
    ensures
        actions.take(k + 1).drop_last() == actions.take(k),
        actions.take(k + 1).last() == actions[k],
        actions.take(k + 1).len() == k + 1,
{
    assert(actions.take(k + 1).drop_last() =~= actions.take(k));
}

/// A push followed by a pop with nothing between them: the push saves the
/// turtle and breaks the strand, the pop restores and breaks it again. Their
/// actions are a save, a forced point, a restore and a forced point; carried
/// out after any actions, they add two one-point strands made from the same
/// turtle, add no prop, and leave the turtle and its saved stack exactly as
/// they were before the push.
pub proof fn lemma_push_then_pop<G: Geometry>(
    g: G,
    before: Seq<Action>,
    push_index: usize,
    pop_index: usize,
    has_strands: bool,
    depth: nat,
    n_push: nat,
    n_pop: nat,
)
    ensures
        effects_of(TurtleOp::Push, has_strands, depth, n_push) == seq![
            Effect::Save,
            Effect::Emit { force_new_strand: true },
        ],
        effects_of(
            TurtleOp::Pop,
            has_strands_after(TurtleOp::Push, has_strands, depth),
            depth_after(TurtleOp::Push, depth),
            n_pop,
        ) == seq![Effect::Restore, Effect::Emit { force_new_strand: true }],
        depth_after(TurtleOp::Pop, depth_after(TurtleOp::Push, depth)) == depth,
        ({
            let all = before + tagged(seq![Effect::Save, Effect::Emit { force_new_strand: true }], push_index)
                + tagged(seq![Effect::Restore, Effect::Emit { force_new_strand: true }], pop_index);
            let p = g.point_of(turtle_after(g, before).0);
            &&& strands_after(g, all) == strands_after(g, before) + seq![seq![p], seq![p]]
            &&& props_after(g, all) == props_after(g, before)
            &&& turtle_after(g, all) == turtle_after(g, before)
        }),
{
    let all = before + tagged(seq![Effect::Save, Effect::Emit { force_new_strand: true }], push_index)
        + tagged(seq![Effect::Restore, Effect::Emit { force_new_strand: true }], pop_index);
    let n = before.len() as int;
    assert(all.len() == n + 4);
    assert(all.take(n) =~= before);
    assert(all =~= all.take(n + 4));
    assert(all[n] == Action { index: push_index, effect: Effect::Save });
    assert(all[n + 1] == Action { index: push_index, effect: Effect::Emit { force_new_strand: true } });
    assert(all[n + 2] == Action { index: pop_index, effect: Effect::Restore });
    assert(all[n + 3] == Action { index: pop_index, effect: Effect::Emit { force_new_strand: true } });
    lemma_take_next(all, n);
    lemma_take_next(all, n + 1);
    lemma_take_next(all, n + 2);
    lemma_take_next(all, n + 3);
    let t = turtle_after(g, before);
    let p = g.point_of(t.0);
    let s0 = strands_after(g, before);
    assert(turtle_after(g, all.take(n + 1)) == (t.0, t.1.push(t.0)));
    assert(turtle_after(g, all.take(n + 2)) == (t.0, t.1.push(t.0)));
    assert(t.1.push(t.0).drop_last() =~= t.1);
    assert(turtle_after(g, all.take(n + 3)) == t);
    assert(strands_after(g, all.take(n + 1)) == s0);
    assert(strands_after(g, all.take(n + 2)) == s0.push(seq![p]));
    assert(strands_after(g, all.take(n + 3)) == s0.push(seq![p]));
    assert(strands_after(g, all.take(n + 4)) == s0.push(seq![p]).push(seq![p]));
    assert(props_after(g, all.take(n + 1)) == props_after(g, before));
    assert(props_after(g, all.take(n + 2)) == props_after(g, before));
    assert(props_after(g, all.take(n + 3)) == props_after(g, before));
    assert(props_after(g, all.take(n + 4)) == props_after(g, before));
    assert(turtle_after(g, all.take(n + 4)) == t);
    assert(s0.push(seq![p]).push(seq![p]) =~= s0 + seq![seq![p], seq![p]]);
}

proof fn lemma_branch_script(ops: Map<u16, TurtleOp>, f: u16, open: u16, close: u16)
    requires
        op_of(ops, f) == TurtleOp::Draw,
        op_of(ops, open) == TurtleOp::Push,
        op_of(ops, close) == TurtleOp::Pop,
    ensures
        script_of(
            ops,
            seq![Some((f, 1usize)), Some((open, 0usize)), Some((f, 1usize)), Some((close, 0usize)), Some((f, 1usize))],
        ) == seq![
            Action { index: 0, effect: Effect::Emit { force_new_strand: true } },
            Action { index: 0, effect: Effect::Advance },
            Action { index: 0, effect: Effect::Bend },
            Action { index: 0, effect: Effect::Emit { force_new_strand: false } },
            Action { index: 1, effect: Effect::Save },
            Action { index: 1, effect: Effect::Emit { force_new_strand: true } },
            Action { index: 2, effect: Effect::Advance },
            Action { index: 2, effect: Effect::Bend },
            Action { index: 2, effect: Effect::Emit { force_new_strand: false } },
            Action { index: 3, effect: Effect::Restore },
            Action { index: 3, effect: Effect::Emit { force_new_strand: true } },
            Action { index: 4, effect: Effect::Advance },
            Action { index: 4, effect: Effect::Bend },
            Action { index: 4, effect: Effect::Emit { force_new_strand: false } },
        ],
{
    let views = seq![
        Some((f, 1usize)),
        Some((open, 0usize)),
        Some((f, 1usize)),
        Some((close, 0usize)),
        Some((f, 1usize)),
    ];
    let s5 = script_from(ops, views, 5, true, 0);
    assert(s5 == Seq::<Action>::empty());
    let s4 = script_from(ops, views, 4, true, 0);
    assert(s4 =~= tagged(effects_of(TurtleOp::Draw, true, 0, 1), 4) + s5);
    let s3 = script_from(ops, views, 3, true, 1);
    assert(s3 =~= tagged(effects_of(TurtleOp::Pop, true, 1, 0), 3) + s4);
    let s2 = script_from(ops, views, 2, true, 1);
    assert(s2 =~= tagged(effects_of(TurtleOp::Draw, true, 1, 1), 2) + s3);
    let s1 = script_from(ops, views, 1, true, 0);
    assert(s1 =~= tagged(effects_of(TurtleOp::Push, true, 0, 0), 1) + s2);
    let s0 = script_from(ops, views, 0, false, 0);
    assert(s0 =~= tagged(effects_of(TurtleOp::Draw, false, 0, 1), 0) + s1);
    assert(s0 =~= seq![
        Action { index: 0, effect: Effect::Emit { force_new_strand: true } },
        Action { index: 0, effect: Effect::Advance },
        Action { index: 0, effect: Effect::Bend },
        Action { index: 0, effect: Effect::Emit { force_new_strand: false } },
        Action { index: 1, effect: Effect::Save },
        Action { index: 1, effect: Effect::Emit { force_new_strand: true } },
        Action { index: 2, effect: Effect::Advance },
        Action { index: 2, effect: Effect::Bend },
        Action { index: 2, effect: Effect::Emit { force_new_strand: false } },
        Action { index: 3, effect: Effect::Restore },
        Action { index: 3, effect: Effect::Emit { force_new_strand: true } },
        Action { index: 4, effect: Effect::Advance },
        Action { index: 4, effect: Effect::Bend },
        Action { index: 4, effect: Effect::Emit { force_new_strand: false } },
    ]);
}

proof fn lemma_branch_run<G: Geometry>(g: G, s: Seq<Action>)
    requires
        s == seq![
            Action { index: 0, effect: Effect::Emit { force_new_strand: true } },
            Action { index: 0, effect: Effect::Advance },
            Action { index: 0, effect: Effect::Bend },
            Action { index: 0, effect: Effect::Emit { force_new_strand: false } },
            Action { index: 1, effect: Effect::Save },
            Action { index: 1, effect: Effect::Emit { force_new_strand: true } },
            Action { index: 2, effect: Effect::Advance },
            Action { index: 2, effect: Effect::Bend },
            Action { index: 2, effect: Effect::Emit { force_new_strand: false } },
            Action { index: 3, effect: Effect::Restore },
            Action { index: 3, effect: Effect::Emit { force_new_strand: true } },
            Action { index: 4, effect: Effect::Advance },
            Action { index: 4, effect: Effect::Bend },
            Action { index: 4, effect: Effect::Emit { force_new_strand: false } },
        ],
    ensures
        ({
            let branch_point = g.point_of(turtle_after(g, s.take(4)).0);
            let strands = strands_after(g, s);
            &&& strands.len() == 3
            &&& strands[0].last() == branch_point || g.near_of(strands[0].last(), branch_point)
            &&& strands[1][0] == branch_point
            &&& strands[2][0] == branch_point
            &&& props_after(g, s).len() == 0
        }),
{
    assert(s[0] == Action { index: 0, effect: Effect::Emit { force_new_strand: true } });
    assert(s[1] == Action { index: 0, effect: Effect::Advance });
    assert(s[2] == Action { index: 0, effect: Effect::Bend });
    assert(s[3] == Action { index: 0, effect: Effect::Emit { force_new_strand: false } });
    assert(s[4] == Action { index: 1, effect: Effect::Save });
    assert(s[5] == Action { index: 1, effect: Effect::Emit { force_new_strand: true } });
    assert(s[6] == Action { index: 2, effect: Effect::Advance });
    assert(s[7] == Action { index: 2, effect: Effect::Bend });
    assert(s[8] == Action { index: 2, effect: Effect::Emit { force_new_strand: false } });
    assert(s[9] == Action { index: 3, effect: Effect::Restore });
    assert(s[10] == Action { index: 3, effect: Effect::Emit { force_new_strand: true } });
    assert(s[11] == Action { index: 4, effect: Effect::Advance });
    assert(s[12] == Action { index: 4, effect: Effect::Bend });
    assert(s[13] == Action { index: 4, effect: Effect::Emit { force_new_strand: false } });
    assert(s.take(0) =~= Seq::<Action>::empty());
    assert(s.take(14) =~= s);
    lemma_take_next(s, 0);
    lemma_take_next(s, 1);
    lemma_take_next(s, 2);
    lemma_take_next(s, 3);
    lemma_take_next(s, 4);
    lemma_take_next(s, 5);
    lemma_take_next(s, 6);
    lemma_take_next(s, 7);
    lemma_take_next(s, 8);
    lemma_take_next(s, 9);
    lemma_take_next(s, 10);
    lemma_take_next(s, 11);
    lemma_take_next(s, 12);
    lemma_take_next(s, 13);
    let t0 = g.initial_of();
    let e = Seq::<G::Turtle>::empty();
    assert(turtle_after(g, s.take(0)) == (t0, e));
    assert(strands_after(g, s.take(0)).len() == 0);
    assert(props_after(g, s.take(0)).len() == 0);
    assert(turtle_after(g, s.take(1)) == (t0, e));
    let p0 = g.point_of(t0);
    assert(strands_after(g, s.take(1)) == seq![seq![p0]]);
    let t1 = g.apply_of(t0, Effect::Advance, 0);
    assert(turtle_after(g, s.take(2)) == (t1, e));
    assert(strands_after(g, s.take(2)) == seq![seq![p0]]);
    let t2 = g.apply_of(t1, Effect::Bend, 0);
    assert(turtle_after(g, s.take(3)) == (t2, e));
    assert(strands_after(g, s.take(3)) == seq![seq![p0]]);
    assert(turtle_after(g, s.take(4)) == (t2, e));
    let bp = g.point_of(t2);
    let s4 = strands_after(g, s.take(4));
    assert(s4 == with_node(seq![seq![p0]], bp, false, near_last(g, seq![seq![p0]], bp)));
    assert(s4.len() == 1);
    assert(s4[0].last() == bp || g.near_of(s4[0].last(), bp));
    assert(turtle_after(g, s.take(5)) == (t2, seq![t2]));
    assert(strands_after(g, s.take(5)) == s4);
    let s6 = strands_after(g, s.take(6));
    assert(s6 == s4.push(seq![bp]));
    assert(turtle_after(g, s.take(6)) == (t2, seq![t2]));
    assert(turtle_after(g, s.take(7)).1 == seq![t2]);
    assert(strands_after(g, s.take(7)) == s6);
    assert(turtle_after(g, s.take(8)).1 == seq![t2]);
    assert(strands_after(g, s.take(8)) == s6);
    assert(turtle_after(g, s.take(9)).1 == seq![t2]);
    let s9 = strands_after(g, s.take(9));
    assert(s9.len() == 2 && s9[0] == s4[0] && s9[1][0] == bp);
    assert(seq![t2].drop_last() =~= e);
    assert(seq![t2].last() == t2);
    assert(turtle_after(g, s.take(10)) == (t2, e));
    assert(strands_after(g, s.take(10)) == s9);
    let s11 = strands_after(g, s.take(11));
    assert(s11 == s9.push(seq![bp]));
    assert(strands_after(g, s.take(12)) == s11);
    assert(strands_after(g, s.take(13)) == s11);
    let s14 = strands_after(g, s.take(14));
    assert(s14.len() == 3 && s14[0] == s4[0] && s14[1][0] == bp && s14[2][0] == bp);
    assert(props_after(g, s.take(1)).len() == 0);
    assert(props_after(g, s.take(2)).len() == 0);
    assert(props_after(g, s.take(3)).len() == 0);
    assert(props_after(g, s.take(4)).len() == 0);
    assert(props_after(g, s.take(5)).len() == 0);
    assert(props_after(g, s.take(6)).len() == 0);
    assert(props_after(g, s.take(7)).len() == 0);
    assert(props_after(g, s.take(8)).len() == 0);
    assert(props_after(g, s.take(9)).len() == 0);
    assert(props_after(g, s.take(10)).len() == 0);
    assert(props_after(g, s.take(11)).len() == 0);
    assert(props_after(g, s.take(12)).len() == 0);
    assert(props_after(g, s.take(13)).len() == 0);
    assert(props_after(g, s.take(14)).len() == 0);
}

/// The stream `F [ F ] F` (draw, push, draw, pop, draw) is dispatched into
/// three strands: the root, the branch that starts where the root ends, and
/// the resumed trunk that starts there too. Where the drawn points do not
/// fall on their predecessors, the strands are `[a, b]`, `[b, c]`, `[b, d]`.
pub proof fn lemma_branch_topology<P, G: Geometry>(
    ops: Map<u16, TurtleOp>,
    f: u16,
    open: u16,
    close: u16,
    a: P,
    b: P,
    c: P,
    d: P,
    g: G,
)
    requires
        op_of(ops, f) == TurtleOp::Draw,
        op_of(ops, open) == TurtleOp::Push,
        op_of(ops, close) == TurtleOp::Pop,
    ensures
        script_of(
            ops,
            seq![Some((f, 1usize)), Some((open, 0usize)), Some((f, 1usize)), Some((close, 0usize)), Some((f, 1usize))],
        ) == seq![
            Action { index: 0, effect: Effect::Emit { force_new_strand: true } },
            Action { index: 0, effect: Effect::Advance },
            Action { index: 0, effect: Effect::Bend },
            Action { index: 0, effect: Effect::Emit { force_new_strand: false } },
            Action { index: 1, effect: Effect::Save },
            Action { index: 1, effect: Effect::Emit { force_new_strand: true } },
            Action { index: 2, effect: Effect::Advance },
            Action { index: 2, effect: Effect::Bend },
            Action { index: 2, effect: Effect::Emit { force_new_strand: false } },
            Action { index: 3, effect: Effect::Restore },
            Action { index: 3, effect: Effect::Emit { force_new_strand: true } },
            Action { index: 4, effect: Effect::Advance },
            Action { index: 4, effect: Effect::Bend },
            Action { index: 4, effect: Effect::Emit { force_new_strand: false } },
        ],
        replay(
            Seq::<Seq<P>>::empty(),
            seq![
                (a, true, false),
                (b, false, false),
                (b, true, false),
                (c, false, false),
                (b, true, false),
                (d, false, false),
            ],
        ) == seq![seq![a, b], seq![b, c], seq![b, d]],
        ({
            let script = script_of(
                ops,
                seq![Some((f, 1usize)), Some((open, 0usize)), Some((f, 1usize)), Some((close, 0usize)), Some((f, 1usize))],
            );
            let branch_point = g.point_of(turtle_after(g, script.take(4)).0);
            let strands = strands_after(g, script);
            &&& strands.len() == 3
            &&& strands[0].last() == branch_point || g.near_of(strands[0].last(), branch_point)
            &&& strands[1][0] == branch_point
            &&& strands[2][0] == branch_point
            &&& props_after(g, script).len() == 0
        }),
{
    lemma_branch_script(ops, f, open, close);
    let s0 = script_of(
        ops,
        seq![Some((f, 1usize)), Some((open, 0usize)), Some((f, 1usize)), Some((close, 0usize)), Some((f, 1usize))],
    );
    lemma_branch_run(g, s0);

    let nodes = seq![
        (a, true, false),
        (b, false, false),
        (b, true, false),
        (c, false, false),
        (b, true, false),
        (d, false, false),
    ];
    let e = Seq::<Seq<P>>::empty();
    assert(nodes.subrange(0, 0) =~= Seq::<(P, bool, bool)>::empty());
    assert(replay(e, nodes.subrange(0, 0)) == e);
    assert(nodes.subrange(0, 1).drop_last() =~= nodes.subrange(0, 0));
    assert(replay(e, nodes.subrange(0, 1)) =~= seq![seq![a]]);
    assert(nodes.subrange(0, 2).drop_last() =~= nodes.subrange(0, 1));
    assert(seq![a].push(b) =~= seq![a, b]);
    assert(replay(e, nodes.subrange(0, 2)) =~= seq![seq![a, b]]);
    assert(nodes.subrange(0, 3).drop_last() =~= nodes.subrange(0, 2));
    assert(replay(e, nodes.subrange(0, 3)) =~= seq![seq![a, b], seq![b]]);
    assert(nodes.subrange(0, 4).drop_last() =~= nodes.subrange(0, 3));
    assert(seq![b].push(c) =~= seq![b, c]);
    assert(replay(e, nodes.subrange(0, 4)) =~= seq![seq![a, b], seq![b, c]]);
    assert(nodes.subrange(0, 5).drop_last() =~= nodes.subrange(0, 4));
    assert(replay(e, nodes.subrange(0, 5)) =~= seq![seq![a, b], seq![b, c], seq![b]]);
    assert(nodes.drop_last() =~= nodes.subrange(0, 5));
    assert(seq![b].push(d) =~= seq![b, d]);
    assert(replay(e, nodes) =~= seq![seq![a, b], seq![b, c], seq![b, d]]);
}

/// Only the appearance operations change the appearance state: drawing,
/// moving, turning, branching and spawning carry it unchanged into the points
/// and props they emit.
pub proof fn lemma_appearance_only_from_appearance_ops(
    op: TurtleOp,
    has_strands: bool,
    depth: nat,
    n_params: nat,
    k: int,
)
    requires
        !(op is SetColor || op is SetMaterial || op is SetUVScale),
        0 <= k < effects_of(op, has_strands, depth, n_params).len(),
    ensures
        !is_appearance(effects_of(op, has_strands, depth, n_params)[k]),
{
    let effs = effects_of(op, has_strands, depth, n_params);
    if op is Draw || op is Move {
        if !has_strands {
            assert(k == 0 || !is_appearance(effs[k]));
        }
    }
}

/// Offering points never leaves an empty strand behind.
pub proof fn lemma_replay_keeps_strands_nonempty<P>(
    strands: Seq<Seq<P>>,
    nodes: Seq<(P, bool, bool)>,
)
    requires
        strands_nonempty(strands),
    ensures
        strands_nonempty(replay(strands, nodes)),
    decreases nodes.len(),
{
    if nodes.len() > 0 {
        lemma_replay_keeps_strands_nonempty(strands, nodes.drop_last());
        let before = replay(strands, nodes.drop_last());
        let (p, force, near) = nodes.last();
        let after = with_node(before, p, force, near);
        assert forall|i: int| 0 <= i < after.len() implies #[trigger] after[i].len() > 0 by {
            if !(force || before.len() == 0) && !near && i == before.len() - 1 {
                assert(after[i] == before.last().push(p));
            } else if i < before.len() {
                assert(before[i].len() > 0);
            }
        }
    }
}

/// A color instruction changes the color exactly when it has one, three or
/// four parameters.
pub proof fn lemma_color_arity(n: nat)
    ensures
        effects_of(TurtleOp::SetColor, true, 0, n).len() > 0 <==> color_arity(n),
{
}

/// Number of forced breaks among emitted points.
pub open spec fn break_count(flags: Seq<bool>) -> nat
    decreases flags.len(),
{
    if flags.len() == 0 {
        0
    } else {
        break_count(flags.drop_last()) + if flags.last() {
            1nat
        } else {
            0nat
        }
    }
}

proof fn lemma_emit_flags_append(a: Seq<Action>, b: Seq<Action>)
    ensures
        emit_flags(a + b) == emit_flags(a) + emit_flags(b),
    decreases b.len(),
{
    if b.len() == 0 {
        assert(a + b =~= a);
        assert(emit_flags(a) + emit_flags(b) =~= emit_flags(a));
    } else {
        lemma_emit_flags_append(a, b.drop_last());
        assert((a + b).drop_last() =~= a + b.drop_last());
        assert((a + b).last() == b.last());
        match b.last().effect {
            Effect::Emit { force_new_strand } => {
                assert(emit_flags(a) + emit_flags(b.drop_last()).push(force_new_strand) =~= (
                emit_flags(a) + emit_flags(b.drop_last())).push(force_new_strand));
            },
            _ => {},
        }
    }
}

proof fn lemma_break_count_positive(flags: Seq<bool>)
    requires
        flags.len() > 0,
        flags[0],
    ensures
        break_count(flags) > 0,
    decreases flags.len(),
{
    if flags.len() > 1 {
        lemma_break_count_positive(flags.drop_last());
    }
}

proof fn lemma_strands_count_breaks(actions: Seq<Action>)
    requires
        emit_flags(actions).len() > 0 ==> emit_flags(actions)[0],
    ensures
        strand_count(actions) == break_count(emit_flags(actions)),
    decreases actions.len(),
{
    if actions.len() > 0 {
        let before = actions.drop_last();
        let fb = emit_flags(before);
        let fa = emit_flags(actions);
        match actions.last().effect {
            Effect::Emit { force_new_strand } => {
                assert(fa == fb.push(force_new_strand));
                if fb.len() > 0 {
                    assert(fb[0] == fa[0]);
                    lemma_break_count_positive(fb);
                }
                assert(fa.drop_last() =~= fb);
                lemma_strands_count_breaks(before);
            },
            _ => {
                lemma_strands_count_breaks(before);
            },
        }
    }
}

proof fn lemma_tagged_flags(effects: Seq<Effect>, index: usize, flags: Seq<bool>)
    requires
        effects.len() <= 4,
        flags.len() <= 4,
        flags.len() == effects.len(),
        forall|k: int|
            0 <= k < effects.len() ==> (effects[k] is Emit <==> flags[k]) && (effects[k] is Emit
                ==> effects[k] == Effect::Emit { force_new_strand: true }),
    ensures
        emit_flags(tagged(effects, index)).len() > 0 ==> emit_flags(tagged(effects, index))[0],
    decreases effects.len(),
{
    let t = tagged(effects, index);
    if effects.len() > 0 {
        lemma_tagged_flags(effects.drop_last(), index, flags.drop_last());
        assert(t.drop_last() =~= tagged(effects.drop_last(), index));
        let before = emit_flags(t.drop_last());
        if before.len() == 0 && effects.last() is Emit {
            assert(emit_flags(t) == before.push(true));
        }
    }
}

proof fn lemma_first_emit_forced(
    ops: Map<u16, TurtleOp>,
    views: Seq<Option<(u16, usize)>>,
    i: nat,
    depth: nat,
)
    ensures
        emit_flags(script_from(ops, views, i, false, depth)).len() > 0 ==> emit_flags(
            script_from(ops, views, i, false, depth),
        )[0],
    decreases views.len() - i,
{
    if i < views.len() && views[i as int] is Some {
        let (sym, n) = views[i as int]->Some_0;
        let op = op_of(ops, sym);
        let effs = effects_of(op, false, depth, n as nat);
        let head = tagged(effs, i as usize);
        let rest = script_from(
            ops,
            views,
            i + 1,
            has_strands_after(op, false, depth),
            depth_after(op, depth),
        );
        lemma_emit_flags_append(head, rest);
        let emit = Effect::Emit { force_new_strand: true };
        if op is Draw {
            assert(effs =~= seq![emit, Effect::Advance, Effect::Bend, Effect::Emit { force_new_strand: false }]);
            lemma_tagged_flags(effs.take(1), i as usize, seq![true]);
            assert(head.take(1) =~= tagged(effs.take(1), i as usize));
            lemma_emit_flags_append(head.take(1), head.skip(1));
            assert(head.take(1) + head.skip(1) =~= head);
        } else if op is Move {
            assert(effs =~= seq![emit, Effect::Advance, emit]);
            lemma_tagged_flags(effs, i as usize, seq![true, false, true]);
        } else if op is Push {
            assert(effs =~= seq![Effect::Save, emit]);
            lemma_tagged_flags(effs, i as usize, seq![false, true]);
        } else if op is Pop && depth > 0 {
            assert(effs =~= seq![Effect::Restore, emit]);
            lemma_tagged_flags(effs, i as usize, seq![false, true]);
        } else {
            assert(forall|k: int| 0 <= k < effs.len() ==> !(#[trigger] effs[k] is Emit));
            lemma_tagged_flags(effs, i as usize, Seq::new(effs.len(), |k: int| false));
            assert(!has_strands_after(op, false, depth));
            lemma_no_emits(effs, i as usize);
            lemma_first_emit_forced(ops, views, i + 1, depth_after(op, depth));
            assert(emit_flags(head) + emit_flags(rest) =~= emit_flags(rest));
        }
    }
}

proof fn lemma_no_emits(effects: Seq<Effect>, index: usize)
    requires
        forall|k: int| 0 <= k < effects.len() ==> !(#[trigger] effects[k] is Emit),
    ensures
        emit_flags(tagged(effects, index)).len() == 0,
    decreases effects.len(),
{
    if effects.len() > 0 {
        lemma_no_emits(effects.drop_last(), index);
        assert(tagged(effects, index).drop_last() =~= tagged(effects.drop_last(), index));
    }
}

/// A strand begins exactly where continuity is broken: the very first point
/// of a stream always forces a break, so the strands of any stream number as
/// many as its forced breaks (first point, branch push and pop, move).
pub proof fn lemma_strands_start_at_breaks(
    ops: Map<u16, TurtleOp>,
    views: Seq<Option<(u16, usize)>>,
)
    ensures
        strand_count(script_of(ops, views)) == break_count(emit_flags(script_of(ops, views))),
{
    lemma_first_emit_forced(ops, views, 0, 0);
    lemma_strands_count_breaks(script_of(ops, views));
}

/// Within a strand, the geometry judged no point near the point before it:
/// a point that would fall on the last point of the current strand is
/// dropped, unless it starts a new strand.
pub proof fn lemma_strands_deduplicated<G: Geometry>(g: G, actions: Seq<Action>)
    ensures
        forall|i: int, j: int|
            0 <= i < strands_after(g, actions).len() && 0 < j < strands_after(g, actions)[i].len()
                ==> !g.near_of(
                #[trigger] strands_after(g, actions)[i][j - 1],
                strands_after(g, actions)[i][j],
            ),
    decreases actions.len(),
{
    if actions.len() > 0 {
        let prev = actions.drop_last();
        lemma_strands_deduplicated(g, prev);
        let before = strands_after(g, prev);
        let after = strands_after(g, actions);
        match actions.last().effect {
            Effect::Emit { force_new_strand } => {
                let p = g.point_of(turtle_after(g, prev).0);
                let near = near_last(g, before, p);
                assert forall|i: int, j: int|
                    0 <= i < after.len() && 0 < j < after[i].len() implies !g.near_of(
                    #[trigger] after[i][j - 1],
                    after[i][j],
                ) by {
                    if !(force_new_strand || before.len() == 0) && !near && i == before.len() - 1 {
                        assert(after[i] == before.last().push(p));
                        if j < before.last().len() {
                            assert(after[i][j - 1] == before[i][j - 1]);
                            assert(after[i][j] == before[i][j]);
                        } else {
                            assert(after[i][j - 1] == before.last().last());
                        }
                    } else if i < before.len() {
                        assert(after[i] == before[i]);
                    }
                }
            },
            _ => {},
        }
    }
}

/// The strand state and stack depth with which dispatch from record `i` on
/// reaches the end of the records; `None` where an unreadable record stops
/// it first.
pub open spec fn end_state(
    ops: Map<u16, TurtleOp>,
    views: Seq<Option<(u16, usize)>>,
    i: nat,
    has_strands: bool,
    depth: nat,
) -> Option<(bool, nat)>
    decreases views.len() - i,
{
    if i >= views.len() {
        Some((has_strands, depth))
    } else {
        match views[i as int] {
            None => None,
            Some((sym, n)) => {
                let op = op_of(ops, sym);
                end_state(
                    ops,
                    views,
                    i + 1,
                    has_strands_after(op, has_strands, depth),
                    depth_after(op, depth),
                )
            },
        }
    }
}

/// The actions that a record appended after `views` adds to the script.
pub open spec fn appended_actions(
    ops: Map<u16, TurtleOp>,
    views: Seq<Option<(u16, usize)>>,
    record: (u16, usize),
) -> Seq<Action> {
    match end_state(ops, views, 0, false, 0) {
        Some((has_strands, depth)) => tagged(
            effects_of(op_of(ops, record.0), has_strands, depth, record.1 as nat),
            views.len() as usize,
        ),
        None => seq![],
    }
}

proof fn lemma_script_push(
    ops: Map<u16, TurtleOp>,
    views: Seq<Option<(u16, usize)>>,
    record: (u16, usize),
    i: nat,
    has_strands: bool,
    depth: nat,
)
    requires
        i <= views.len(),
        views.len() < usize::MAX,
    ensures
        script_from(ops, views.push(Some(record)), i, has_strands, depth) == script_from(
            ops,
            views,
            i,
            has_strands,
            depth,
        ) + match end_state(ops, views, i, has_strands, depth) {
            Some((h, d)) => tagged(
                effects_of(op_of(ops, record.0), h, d, record.1 as nat),
                views.len() as usize,
            ),
            None => Seq::<Action>::empty(),
        },
    decreases views.len() - i,
{
    let w = views.push(Some(record));
    if i == views.len() {
        assert(w[i as int] == Some(record));
        let t = tagged(effects_of(op_of(ops, record.0), has_strands, depth, record.1 as nat), i as usize);
        assert(script_from(ops, w, i + 1, has_strands_after(op_of(ops, record.0), has_strands, depth), depth_after(op_of(ops, record.0), depth)) == Seq::<Action>::empty());
        assert(t + Seq::<Action>::empty() =~= t);
        assert(Seq::<Action>::empty() + t =~= t);
    } else {
        assert(w[i as int] == views[i as int]);
        match views[i as int] {
            None => {
                assert(Seq::<Action>::empty() + Seq::<Action>::empty() =~= Seq::<Action>::empty());
            },
            Some((sym, n)) => {
                let op = op_of(ops, sym);
                let h = has_strands_after(op, has_strands, depth);
                let d = depth_after(op, depth);
                lemma_script_push(ops, views, record, i + 1, h, d);
                let head = tagged(effects_of(op, has_strands, depth, n as nat), i as usize);
                let tail = match end_state(ops, views, i + 1, h, d) {
                    Some((h2, d2)) => tagged(
                        effects_of(op_of(ops, record.0), h2, d2, record.1 as nat),
                        views.len() as usize,
                    ),
                    None => Seq::<Action>::empty(),
                };
                assert(head + (script_from(ops, views, i + 1, h, d) + tail) =~= (head
                    + script_from(ops, views, i + 1, h, d)) + tail);
            },
        }
    }
}

/// Appending a record to a stream adds exactly that record's actions to the
/// end of the script; the actions of the earlier records do not change.
pub proof fn lemma_script_grows_at_end(
    ops: Map<u16, TurtleOp>,
    views: Seq<Option<(u16, usize)>>,
    record: (u16, usize),
)
    requires
        views.len() < usize::MAX,
    ensures
        script_of(ops, views.push(Some(record))) == script_of(ops, views) + appended_actions(
            ops,
            views,
            record,
        ),
{
    lemma_script_push(ops, views, record, 0, false, 0);
}

/// A record that cannot act leaves the result as if it were absent: after
/// any stream, an unmapped symbol, or a pop while no branch is open, adds no
/// action, so the strands and props are those of the stream without it, on
/// every geometry.
pub proof fn lemma_inert_record_appended<G: Geometry>(
    g: G,
    ops: Map<u16, TurtleOp>,
    views: Seq<Option<(u16, usize)>>,
    record: (u16, usize),
)
    requires
        views.len() < usize::MAX,
        !ops.contains_key(record.0) || (ops[record.0] == TurtleOp::Pop && (end_state(
            ops,
            views,
            0,
            false,
            0,
        ) is None || end_state(ops, views, 0, false, 0)->Some_0.1 == 0)),
    ensures
        script_of(ops, views.push(Some(record))) == script_of(ops, views),
        strands_after(g, script_of(ops, views.push(Some(record)))) == strands_after(
            g,
            script_of(ops, views),
        ),
        props_after(g, script_of(ops, views.push(Some(record)))) == props_after(
            g,
            script_of(ops, views),
        ),
{
    lemma_script_grows_at_end(ops, views, record);
    let extra = appended_actions(ops, views, record);
    assert(extra =~= Seq::<Action>::empty());
    assert(script_of(ops, views) + extra =~= script_of(ops, views));
}

proof fn lemma_end_state_push(
    ops: Map<u16, TurtleOp>,
    views: Seq<Option<(u16, usize)>>,
    record: (u16, usize),
    i: nat,
    has_strands: bool,
    depth: nat,
)
    requires
        i <= views.len(),
    ensures
        end_state(ops, views.push(Some(record)), i, has_strands, depth) == match end_state(
            ops,
            views,
            i,
            has_strands,
            depth,
        ) {
            Some((h, d)) => Some(
                (
                    has_strands_after(op_of(ops, record.0), h, d),
                    depth_after(op_of(ops, record.0), d),
                ),
            ),
            None => None,
        },
    decreases views.len() - i,
{
    let w = views.push(Some(record));
    if i == views.len() {
        assert(w[i as int] == Some(record));
        let op = op_of(ops, record.0);
        assert(end_state(
            ops,
            w,
            i + 1,
            has_strands_after(op, has_strands, depth),
            depth_after(op, depth),
        ) == Some((has_strands_after(op, has_strands, depth), depth_after(op, depth))));
    } else {
        assert(w[i as int] == views[i as int]);
        match views[i as int] {
            None => {},
            Some((sym, n)) => {
                let op = op_of(ops, sym);
                lemma_end_state_push(
                    ops,
                    views,
                    record,
                    i + 1,
                    has_strands_after(op, has_strands, depth),
                    depth_after(op, depth),
                );
            },
        }
    }
}

/// A push followed directly by a pop at the end of a readable stream adds
/// two one-point strands, both made from the turtle the stream ends with,
/// adds no prop, and leaves the turtle and its saved stack as they were.
pub proof fn lemma_push_pop_appended<G: Geometry>(
    g: G,
    ops: Map<u16, TurtleOp>,
    views: Seq<Option<(u16, usize)>>,
    push: (u16, usize),
    pop: (u16, usize),
)
    requires
        views.len() + 1 < usize::MAX,
        op_of(ops, push.0) == TurtleOp::Push,
        op_of(ops, pop.0) == TurtleOp::Pop,
        end_state(ops, views, 0, false, 0) is Some,
    ensures
        ({
            let before = script_of(ops, views);
            let after = script_of(ops, views.push(Some(push)).push(Some(pop)));
            let p = g.point_of(turtle_after(g, before).0);
            &&& strands_after(g, after) == strands_after(g, before) + seq![seq![p], seq![p]]
            &&& props_after(g, after) == props_after(g, before)
            &&& turtle_after(g, after) == turtle_after(g, before)
        }),
{
    let v1 = views.push(Some(push));
    let (h, d) = end_state(ops, views, 0, false, 0)->Some_0;
    lemma_script_grows_at_end(ops, views, push);
    lemma_end_state_push(ops, views, push, 0, false, 0);
    lemma_script_grows_at_end(ops, v1, pop);
    let before = script_of(ops, views);
    let a1 = appended_actions(ops, views, push);
    let a2 = appended_actions(ops, v1, pop);
    assert(a1 == tagged(effects_of(TurtleOp::Push, h, d, push.1 as nat), views.len() as usize));
    assert(a2 == tagged(
        effects_of(TurtleOp::Pop, has_strands_after(TurtleOp::Push, h, d), depth_after(TurtleOp::Push, d), pop.1 as nat),
        v1.len() as usize,
    ));
    lemma_push_then_pop(g, before, views.len() as usize, v1.len() as usize, h, d, push.1 as nat, pop.1 as nat);
    assert(script_of(ops, v1.push(Some(pop))) == before + a1 + a2);
}

} // verus!
