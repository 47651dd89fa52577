//! The operation table, and the interpretation of whole instruction streams.
use crate::execute::{
    prop_count, props_after, run_script, strand_count, strands_after, Geometry,
};
use crate::dispatch::{
    depth_after, effects_of, has_strands_after, op_of, push_effects, script_from, script_of,
    tagged, Action,
};
use crate::skeleton::Skeleton;
use crate::stream::{lookup_symbol, module_at, module_count, module_views, symbol_ids};
use crate::turtle::{Sign, TurtleOp};
use std::collections::HashMap;
use symbios::{SymbiosState, SymbolTable};
use vstd::prelude::*;

verus! {

broadcast use vstd::std_specs::hash::group_hash_axioms;

/// Number of standard tokens.
pub const STANDARD_COUNT: usize = 17;

/// The standard token at position `i` (of [`STANDARD_COUNT`]), as its one
/// character, with the operation it stands for.
pub open spec fn standard_entry(i: int) -> (char, TurtleOp) {
    if i == 0 {
        ('F', TurtleOp::Draw)
    } else if i == 1 {
        ('f', TurtleOp::Move)
    } else if i == 2 {
        ('+', TurtleOp::Yaw(Sign::Positive))
    } else if i == 3 {
        ('-', TurtleOp::Yaw(Sign::Negative))
    } else if i == 4 {
        ('&', TurtleOp::Pitch(Sign::Positive))
    } else if i == 5 {
        ('^', TurtleOp::Pitch(Sign::Negative))
    } else if i == 6 {
        ('\\', TurtleOp::Roll(Sign::Positive))
    } else if i == 7 {
        ('/', TurtleOp::Roll(Sign::Negative))
    } else if i == 8 {
        ('|', TurtleOp::TurnAround)
    } else if i == 9 {
        ('$', TurtleOp::Vertical)
    } else if i == 10 {
        ('!', TurtleOp::SetWidth)
    } else if i == 11 {
        ('[', TurtleOp::Push)
    } else if i == 12 {
        (']', TurtleOp::Pop)
    } else if i == 13 {
        ('~', TurtleOp::Spawn(0))
    } else if i == 14 {
        ('\'', TurtleOp::SetColor)
    } else if i == 15 {
        (',', TurtleOp::SetMaterial)
    } else {
        (';', TurtleOp::SetUVScale)
    }
}

/// The text of the standard token at position `i`.
pub open spec fn standard_token(i: int) -> Seq<char> {
    seq![standard_entry(i).0]
}

/// Whether `id` is the identifier of a standard token known to the interner.
pub open spec fn is_standard_id(ids: Map<Seq<char>, u16>, id: u16) -> bool {
    exists|i: int|
        0 <= i < STANDARD_COUNT && ids.contains_key(#[trigger] standard_token(i)) && ids[standard_token(i)] == id
}

/// The table after mapping one token, where the interner knows it.
pub open spec fn with_token(
    ops: Map<u16, TurtleOp>,
    ids: Map<Seq<char>, u16>,
    token: Seq<char>,
    op: TurtleOp,
) -> Map<u16, TurtleOp> {
    if ids.contains_key(token) {
        ops.insert(ids[token], op)
    } else {
        ops
    }
}

proof fn lemma_standard_tokens_distinct()
    ensures
        forall|i: int, j: int|
            0 <= i < STANDARD_COUNT && 0 <= j < STANDARD_COUNT && i != j ==> #[trigger] standard_token(
                i,
            ) != #[trigger] standard_token(j),
{
    assert forall|i: int, j: int|
        0 <= i < STANDARD_COUNT && 0 <= j < STANDARD_COUNT && i != j implies #[trigger] standard_token(
            i,
        ) != #[trigger] standard_token(j) by {
        assert(standard_token(i)[0] == standard_entry(i).0);
        assert(standard_token(j)[0] == standard_entry(j).0);
    }
}

/// The standard token at position `i`, as text, and its operation.
fn standard_at(i: usize) -> (r: (&'static str, TurtleOp))
    requires
        i < STANDARD_COUNT,
    ensures
        r.0@ == standard_token(i as int),
        r.1 == standard_entry(i as int).1,
{
    if i == 0 {
        proof {
            reveal_strlit("F");
        }
        assert("F"@ =~= seq!['F']);
        ("F", TurtleOp::Draw)
    } else if i == 1 {
        proof {
            reveal_strlit("f");
        }
        assert("f"@ =~= seq!['f']);
        ("f", TurtleOp::Move)
    } else if i == 2 {
        proof {
            reveal_strlit("+");
        }
        assert("+"@ =~= seq!['+']);
        ("+", TurtleOp::Yaw(Sign::Positive))
    } else if i == 3 {
        proof {
            reveal_strlit("-");
        }
        assert("-"@ =~= seq!['-']);
        ("-", TurtleOp::Yaw(Sign::Negative))
    } else if i == 4 {
        proof {
            reveal_strlit("&");
        }
        assert("&"@ =~= seq!['&']);
        ("&", TurtleOp::Pitch(Sign::Positive))
    } else if i == 5 {
        proof {
            reveal_strlit("^");
        }
        assert("^"@ =~= seq!['^']);
        ("^", TurtleOp::Pitch(Sign::Negative))
    } else if i == 6 {
        proof {
            reveal_strlit("\\");
        }
        assert("\\"@ =~= seq!['\\']);
        ("\\", TurtleOp::Roll(Sign::Positive))
    } else if i == 7 {
        proof {
            reveal_strlit("/");
        }
        assert("/"@ =~= seq!['/']);
        ("/", TurtleOp::Roll(Sign::Negative))
    } else if i == 8 {
        proof {
            reveal_strlit("|");
        }
        assert("|"@ =~= seq!['|']);
        ("|", TurtleOp::TurnAround)
    } else if i == 9 {
        proof {
            reveal_strlit("$");
        }
        assert("$"@ =~= seq!['$']);
        ("$", TurtleOp::Vertical)
    } else if i == 10 {
        proof {
            reveal_strlit("!");
        }
        assert("!"@ =~= seq!['!']);
        ("!", TurtleOp::SetWidth)
    } else if i == 11 {
        proof {
            reveal_strlit("[");
        }
        assert("["@ =~= seq!['[']);
        ("[", TurtleOp::Push)
    } else if i == 12 {
        proof {
            reveal_strlit("]");
        }
        assert("]"@ =~= seq![']']);
        ("]", TurtleOp::Pop)
    } else if i == 13 {
        proof {
            reveal_strlit("~");
        }
        assert("~"@ =~= seq!['~']);
        ("~", TurtleOp::Spawn(0))
    } else if i == 14 {
        proof {
            reveal_strlit("'");
        }
        assert("'"@ =~= seq!['\'']);
        ("'", TurtleOp::SetColor)
    } else if i == 15 {
        proof {
            reveal_strlit(",");
        }
        assert(","@ =~= seq![',']);
        (",", TurtleOp::SetMaterial)
    } else {
        proof {
            reveal_strlit(";");
        }
        assert(";"@ =~= seq![';']);
        (";", TurtleOp::SetUVScale)
    }
}

/// Maps symbol identifiers to operations and turns instruction streams into
/// scripts of effects. `C` is the caller's numeric configuration, which the
/// library carries without reading.
pub struct TurtleInterpreter<C> {
    op_map: HashMap<u16, TurtleOp>,
    config: C,
}

impl<C> TurtleInterpreter<C> {
    /// The operation table.
    pub closed spec fn ops(&self) -> Map<u16, TurtleOp> {
        self.op_map@
    }

    pub closed spec fn config_spec(&self) -> C {
        self.config
    }

    /// An interpreter with an empty operation table.
    pub fn new(config: C) -> (r: Self)
        ensures
            r.ops() == Map::<u16, TurtleOp>::empty(),
            r.config_spec() == config,
    {
        TurtleInterpreter { op_map: HashMap::new(), config }
    }

    /// Replaces the whole operation table.
    pub fn with_map(self, map: HashMap<u16, TurtleOp>) -> (r: Self)
        ensures
            r.ops() == map@,
            r.config_spec() == self.config_spec(),
    {
        TurtleInterpreter { op_map: map, config: self.config }
    }

    /// Maps one symbol identifier, replacing any earlier mapping.
    pub fn set_op(&mut self, sym_id: u16, op: TurtleOp)
        ensures
            final(self).ops() == old(self).ops().insert(sym_id, op),
            final(self).config_spec() == old(self).config_spec(),
    {
        self.op_map.insert(sym_id, op);
    }

    /// The configuration.
    pub fn config(&self) -> (r: &C)
        ensures
            *r == self.config_spec(),
    {
        &self.config
    }

    /// The operation of a symbol; `Ignore` where none is mapped.
    pub fn op_for(&self, sym: u16) -> (r: TurtleOp)
        ensures
            r == op_of(self.ops(), sym),
    {
        match self.op_map.get(&sym) {
            Some(op) => *op,
            None => TurtleOp::Ignore,
        }
    }

    fn map_token(&mut self, interner: &SymbolTable, token: &str, op: TurtleOp)
        ensures
            final(self).ops() == with_token(old(self).ops(), symbol_ids(*interner), token@, op),
            final(self).config_spec() == old(self).config_spec(),
            symbol_ids(*interner).contains_key(token@) ==> forall|k: Seq<char>|
                #[trigger] symbol_ids(*interner).contains_key(k) && k != token@ ==> symbol_ids(
                    *interner,
                )[k] != symbol_ids(*interner)[token@],
    {
        match lookup_symbol(interner, token) {
            Some(id) => {
                self.op_map.insert(id, op);
            },
            None => {},
        }
    }

    /// Maps the standard tokens that the interner knows to their operations;
    /// unknown tokens are skipped. Each known standard token then maps to its
    /// own operation, and every other identifier keeps its earlier mapping,
    /// or stays unmapped.
    pub fn populate_standard_symbols(&mut self, interner: &SymbolTable)
        ensures
            forall|i: int|
                0 <= i < STANDARD_COUNT && symbol_ids(*interner).contains_key(
                    #[trigger] standard_token(i),
                ) ==> {
                    &&& final(self).ops().contains_key(symbol_ids(*interner)[standard_token(i)])
                    &&& final(self).ops()[symbol_ids(*interner)[standard_token(i)]]
                        == standard_entry(i).1
                },
            forall|id: u16|
                !is_standard_id(symbol_ids(*interner), id) ==> {
                    &&& (#[trigger] final(self).ops().contains_key(id) <==> old(
                        self,
                    ).ops().contains_key(id))
                    &&& old(self).ops().contains_key(id) ==> final(self).ops()[id] == old(
                        self,
                    ).ops()[id]
                },
            final(self).config_spec() == old(self).config_spec(),
    {
        let ghost base = self.ops();
        let ghost ids = symbol_ids(*interner);
        proof {
            lemma_standard_tokens_distinct();
        }
        let mut k: usize = 0;
        while k < STANDARD_COUNT
            invariant
                k <= STANDARD_COUNT,
                ids == symbol_ids(*interner),
                self.config_spec() == old(self).config_spec(),
                base == old(self).ops(),
                forall|i: int, j: int|
                    0 <= i < STANDARD_COUNT && 0 <= j < STANDARD_COUNT && i != j
                        ==> #[trigger] standard_token(i) != #[trigger] standard_token(j),
                forall|i: int|
                    0 <= i < k && ids.contains_key(#[trigger] standard_token(i)) ==> {
                        &&& self.ops().contains_key(ids[standard_token(i)])
                        &&& self.ops()[ids[standard_token(i)]] == standard_entry(i).1
                        &&& forall|t: Seq<char>|
                            #[trigger] ids.contains_key(t) && t != standard_token(i) ==> ids[t]
                                != ids[standard_token(i)]
                    },
                forall|id: u16|
                    (forall|i: int|
                        0 <= i < k && ids.contains_key(#[trigger] standard_token(i)) ==> ids[standard_token(i)] != id)
                        ==> {
                        &&& (#[trigger] self.ops().contains_key(id) <==> base.contains_key(id))
                        &&& base.contains_key(id) ==> self.ops()[id] == base[id]
                    },
            decreases STANDARD_COUNT - k,
        {
            let (token, op) = standard_at(k);
            self.map_token(interner, token, op);
            k = k + 1;
        }
        assert forall|id: u16| !is_standard_id(ids, id) implies (forall|i: int|
            0 <= i < STANDARD_COUNT && ids.contains_key(#[trigger] standard_token(i))
                ==> ids[standard_token(i)] != id) by {}
    }

    /// The actions of an instruction stream, in order: each readable record,
    /// from the first, is resolved to its operation and dispatched; the first
    /// record that cannot be read ends the stream.
    pub fn script(&self, state: &SymbiosState) -> (r: Vec<Action>)
        ensures
            r@ == script_of(self.ops(), module_views(*state)),
    {
        let ghost ops = self.ops();
        let ghost views = module_views(*state);
        let n = module_count(state);
        let mut out: Vec<Action> = Vec::new();
        let mut has_strands = false;
        let mut depth: usize = 0;
        let mut i: usize = 0;
        while i < n
            invariant
                n == views.len(),
                ops == self.ops(),
                views == module_views(*state),
                depth <= i,
                out@ + script_from(ops, views, i as nat, has_strands, depth as nat) == script_of(
                    ops,
                    views,
                ),
            ensures
                out@ == script_of(ops, views),
            decreases n - i,
        {
            match module_at(state, i) {
                None => {
                    assert(out@ + seq![] =~= out@);
                    break ;
                },
                Some((sym, n_params)) => {
                    let op = self.op_for(sym);
                    let ghost prev = out@;
                    push_effects(&mut out, i, op, has_strands, depth, n_params);
                    let ghost rest = script_from(
                        ops,
                        views,
                        (i + 1) as nat,
                        has_strands_after(op, has_strands, depth as nat),
                        depth_after(op, depth as nat),
                    );
                    assert(prev + (tagged(
                        effects_of(op, has_strands, depth as nat, n_params as nat),
                        i,
                    ) + rest) =~= out@ + rest);
                    has_strands = has_strands || op == TurtleOp::Draw || op == TurtleOp::Move
                        || op == TurtleOp::Push || (op == TurtleOp::Pop && depth > 0);
                    match op {
                        TurtleOp::Push => {
                            depth = depth + 1;
                        },
                        TurtleOp::Pop => {
                            if depth > 0 {
                                depth = depth - 1;
                            }
                        },
                        _ => {},
                    }
                },
            }
            i = i + 1;
        }
        assert(out@ + seq![] =~= out@);
        out
    }

    /// Interprets an instruction stream on the caller's geometry: the script
    /// of the stream, carried out in order. The strands and props are exactly
    /// those that the geometry's functions give along the script.
    pub fn build_skeleton<G: Geometry>(&self, state: &SymbiosState, geometry: &G) -> (r: Skeleton<
        G::Point,
        G::Prop,
    >)
        ensures
            r.wf(),
            r.strand_seq() == strands_after(*geometry, script_of(self.ops(), module_views(*state))),
            r.props@ == props_after(*geometry, script_of(self.ops(), module_views(*state))),
            r.strand_seq().len() == strand_count(script_of(self.ops(), module_views(*state))),
            r.props@.len() == prop_count(script_of(self.ops(), module_views(*state))),
    {
        let script = self.script(state);
        run_script(&script, geometry)
    }
}

} // verus!
