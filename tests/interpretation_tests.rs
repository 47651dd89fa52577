use symbios::{SymbiosState, SymbolTable};
use symbios_turtle_3d::{color_from_params, param_or, Effect, Geometry};
use symbios_turtle_3d::{Outline, Skeleton, TurtleInterpreter};

fn setup_interpreter() -> (TurtleInterpreter<()>, SymbolTable) {
    let mut interner = SymbolTable::new();
    let mut interpreter = TurtleInterpreter::new(());
    interner.intern("F").unwrap();
    interner.intern("+").unwrap();
    interner.intern("[").unwrap();
    interner.intern("]").unwrap();
    interpreter.populate_standard_symbols(&interner);
    (interpreter, interner)
}

/// Geometry along the world Y axis only: advances add the step, nothing
/// rotates. Enough for unrotated streams.
struct AlongY<'a> {
    state: &'a SymbiosState,
}

impl Geometry for AlongY<'_> {
    type Turtle = f64;
    type Point = f64;
    type Prop = (u16, f64);

    fn initial_of(&self) -> f64 {
        self.initial()
    }

    fn apply_of(&self, t: f64, effect: Effect, index: usize) -> f64 {
        self.apply(t, effect, index)
    }

    fn point_of(&self, t: f64) -> f64 {
        self.point(&t)
    }

    fn near_of(&self, last: f64, next: f64) -> bool {
        self.near(&last, &next)
    }

    fn prop_of(&self, t: f64, default_id: u16, index: usize) -> (u16, f64) {
        self.prop(&t, default_id, index)
    }

    fn initial(&self) -> f64 {
        0.0
    }

    fn apply(&self, y: f64, effect: Effect, index: usize) -> f64 {
        let params = self.state.get_view(index).unwrap().params;
        match effect {
            Effect::Advance => y + param_or(params, 0, 1.0),
            _ => y,
        }
    }

    fn point(&self, y: &f64) -> f64 {
        *y
    }

    fn near(&self, last: &f64, next: &f64) -> bool {
        (last - next) * (last - next) < 0.00001
    }

    fn prop(&self, y: &f64, default_id: u16, index: usize) -> (u16, f64) {
        let params = self.state.get_view(index).unwrap().params;
        (param_or(params, 0, default_id as f64) as u16, *y)
    }
}

fn walk_y(interpreter: &TurtleInterpreter<()>, state: &SymbiosState) -> Skeleton<f64, (u16, f64)> {
    interpreter.build_skeleton(state, &AlongY { state })
}

#[test]
fn test_draw_forward() {
    let (interpreter, interner) = setup_interpreter();
    let f_id = interner.resolve_id("F").unwrap();

    let mut state = SymbiosState::new();
    state.push(f_id, 0.0, &[10.0]).unwrap();

    let skeleton = walk_y(&interpreter, &state);
    assert_eq!(skeleton.strands.len(), 1);
    assert_eq!(skeleton.strands[0].len(), 2);
    assert_eq!(skeleton.strands[0][0], 0.0);
    assert_eq!(skeleton.strands[0][1], 10.0);
}

#[test]
fn test_branching_topology() {
    let (interpreter, interner) = setup_interpreter();
    let f_id = interner.resolve_id("F").unwrap();
    let push_id = interner.resolve_id("[").unwrap();
    let pop_id = interner.resolve_id("]").unwrap();

    let mut state = SymbiosState::new();
    state.push(f_id, 0.0, &[10.0]).unwrap();
    state.push(push_id, 0.0, &[]).unwrap();
    state.push(f_id, 0.0, &[5.0]).unwrap();
    state.push(pop_id, 0.0, &[]).unwrap();
    state.push(f_id, 0.0, &[10.0]).unwrap();

    let skeleton = walk_y(&interpreter, &state);
    assert_eq!(skeleton.strands.len(), 3);

    assert_eq!(*skeleton.strands[0].last().unwrap(), 10.0);
    assert_eq!(*skeleton.strands[1].first().unwrap(), 10.0);
    assert_eq!(*skeleton.strands[2].first().unwrap(), 10.0);
    assert_eq!(*skeleton.strands[1].last().unwrap(), 15.0);
    assert_eq!(*skeleton.strands[2].last().unwrap(), 20.0);
    for strand in &skeleton.strands {
        assert_eq!(strand.len(), 2);
    }
}

#[test]
fn test_stack_underflow_resilience() {
    let mut interner = SymbolTable::new();
    let mut interpreter = TurtleInterpreter::new(());
    interner.intern("NaN").unwrap();
    interner.intern("Pop").unwrap();
    interpreter.set_op(
        interner.resolve_id("NaN").unwrap(),
        symbios_turtle_3d::TurtleOp::Yaw(symbios_turtle_3d::Sign::Positive),
    );
    interpreter.set_op(interner.resolve_id("Pop").unwrap(), symbios_turtle_3d::TurtleOp::Pop);
    let pop_id = interner.resolve_id("Pop").unwrap();

    let mut state = SymbiosState::new();
    state.push(pop_id, 0.0, &[]).unwrap();
    state.push(pop_id, 0.0, &[]).unwrap();

    assert!(interpreter.script(&state).is_empty());
    let skeleton = walk_y(&interpreter, &state);
    assert!(skeleton.strands.is_empty() || skeleton.strands[0].len() <= 1);
}

#[test]
fn resumed_trunk_after_pop_starts_at_branch_point() {
    let (interpreter, interner) = setup_interpreter();
    let f_id = interner.resolve_id("F").unwrap();
    let push_id = interner.resolve_id("[").unwrap();
    let pop_id = interner.resolve_id("]").unwrap();

    // F(2) [ F(3) [ F(4) ] F(5) ] F(6)
    let mut state = SymbiosState::new();
    state.push(f_id, 0.0, &[2.0]).unwrap();
    state.push(push_id, 0.0, &[]).unwrap();
    state.push(f_id, 0.0, &[3.0]).unwrap();
    state.push(push_id, 0.0, &[]).unwrap();
    state.push(f_id, 0.0, &[4.0]).unwrap();
    state.push(pop_id, 0.0, &[]).unwrap();
    state.push(f_id, 0.0, &[5.0]).unwrap();
    state.push(pop_id, 0.0, &[]).unwrap();
    state.push(f_id, 0.0, &[6.0]).unwrap();

    let skeleton = walk_y(&interpreter, &state);
    assert_eq!(
        skeleton.strands,
        vec![
            vec![0.0, 2.0],
            vec![2.0, 5.0],
            vec![5.0, 9.0],
            vec![5.0, 10.0],
            vec![2.0, 8.0],
        ]
    );
}

#[test]
fn zero_length_draw_is_deduplicated() {
    let (interpreter, interner) = setup_interpreter();
    let f_id = interner.resolve_id("F").unwrap();

    let mut state = SymbiosState::new();
    state.push(f_id, 0.0, &[0.0]).unwrap();
    state.push(f_id, 0.0, &[1.0]).unwrap();
    state.push(f_id, 0.0, &[0.0]).unwrap();

    let skeleton = walk_y(&interpreter, &state);
    assert_eq!(skeleton.strands, vec![vec![0.0, 1.0]]);
}

#[test]
fn missing_step_uses_default() {
    let (interpreter, interner) = setup_interpreter();
    let f_id = interner.resolve_id("F").unwrap();

    let mut state = SymbiosState::new();
    state.push(f_id, 0.0, &[]).unwrap();
    state.push(f_id, 0.0, &[]).unwrap();

    let skeleton = walk_y(&interpreter, &state);
    assert_eq!(skeleton.strands, vec![vec![0.0, 1.0, 2.0]]);
}

#[test]
fn props_are_placed_where_the_turtle_stands() {
    let mut interner = SymbolTable::new();
    interner.intern("F").unwrap();
    interner.intern("~").unwrap();
    interner.intern("[").unwrap();
    interner.intern("]").unwrap();
    let mut interpreter = TurtleInterpreter::new(());
    interpreter.populate_standard_symbols(&interner);
    let f_id = interner.resolve_id("F").unwrap();
    let spawn_id = interner.resolve_id("~").unwrap();
    let push_id = interner.resolve_id("[").unwrap();
    let pop_id = interner.resolve_id("]").unwrap();

    // F(4) [ F(1) ~(7) ] ~
    let mut state = SymbiosState::new();
    state.push(f_id, 0.0, &[4.0]).unwrap();
    state.push(push_id, 0.0, &[]).unwrap();
    state.push(f_id, 0.0, &[1.0]).unwrap();
    state.push(spawn_id, 0.0, &[7.0]).unwrap();
    state.push(pop_id, 0.0, &[]).unwrap();
    state.push(spawn_id, 0.0, &[]).unwrap();

    let skeleton = walk_y(&interpreter, &state);
    assert_eq!(skeleton.props, vec![(7, 5.0), (0, 4.0)]);
    assert_eq!(skeleton.strands, vec![vec![0.0, 4.0], vec![4.0, 5.0], vec![4.0]]);
}

#[test]
fn move_starts_a_new_strand() {
    let mut interner = SymbolTable::new();
    interner.intern("F").unwrap();
    interner.intern("f").unwrap();
    let mut interpreter = TurtleInterpreter::new(());
    interpreter.populate_standard_symbols(&interner);
    let f_id = interner.resolve_id("F").unwrap();
    let move_id = interner.resolve_id("f").unwrap();

    let mut state = SymbiosState::new();
    state.push(f_id, 0.0, &[]).unwrap();
    state.push(move_id, 0.0, &[]).unwrap();
    state.push(f_id, 0.0, &[]).unwrap();

    let skeleton = walk_y(&interpreter, &state);
    assert_eq!(skeleton.strands, vec![vec![0.0, 1.0], vec![2.0, 3.0]]);
}

/// A turtle with a height along world Y and an appearance.
#[derive(Clone, Copy, Debug, PartialEq)]
struct Painted {
    y: f64,
    color: (f64, f64, f64, f64),
    material_id: u8,
    uv_scale: f64,
}

/// Geometry along world Y that also carries the appearance state into the
/// points and props it makes.
struct PaintedGeometry<'a> {
    state: &'a SymbiosState,
}

impl Geometry for PaintedGeometry<'_> {
    type Turtle = Painted;
    type Point = Painted;
    type Prop = (u16, Painted);

    fn initial_of(&self) -> Painted {
        self.initial()
    }

    fn apply_of(&self, t: Painted, effect: Effect, index: usize) -> Painted {
        self.apply(t, effect, index)
    }

    fn point_of(&self, t: Painted) -> Painted {
        self.point(&t)
    }

    fn near_of(&self, last: Painted, next: Painted) -> bool {
        self.near(&last, &next)
    }

    fn prop_of(&self, t: Painted, default_id: u16, index: usize) -> (u16, Painted) {
        self.prop(&t, default_id, index)
    }

    fn initial(&self) -> Painted {
        Painted {
            y: 0.0,
            color: (1.0, 1.0, 1.0, 1.0),
            material_id: 0,
            uv_scale: 1.0,
        }
    }

    fn apply(&self, mut t: Painted, effect: Effect, index: usize) -> Painted {
        let params = self.state.get_view(index).unwrap().params;
        match effect {
            Effect::Advance => t.y += param_or(params, 0, 1.0),
            Effect::SetColor => {
                if let Some(c) = color_from_params(params, 1.0) {
                    t.color = c;
                }
            }
            Effect::SetMaterial => {
                t.material_id = param_or(params, 0, t.material_id as f64) as u8
            }
            Effect::SetUVScale => t.uv_scale = param_or(params, 0, t.uv_scale),
            _ => {}
        }
        t
    }

    fn point(&self, t: &Painted) -> Painted {
        *t
    }

    fn near(&self, last: &Painted, next: &Painted) -> bool {
        (last.y - next.y) * (last.y - next.y) < 0.00001
    }

    fn prop(&self, t: &Painted, default_id: u16, index: usize) -> (u16, Painted) {
        let params = self.state.get_view(index).unwrap().params;
        (param_or(params, 0, default_id as f64) as u16, *t)
    }
}

fn painted_setup() -> (TurtleInterpreter<()>, SymbolTable) {
    let mut interner = SymbolTable::new();
    for t in ["F", "'", ",", ";", "~", "[", "]"] {
        interner.intern(t).unwrap();
    }
    let mut interpreter = TurtleInterpreter::new(());
    interpreter.populate_standard_symbols(&interner);
    (interpreter, interner)
}

#[test]
fn test_material_state_changes() {
    let (interpreter, interner) = painted_setup();
    let f_id = interner.resolve_id("F").unwrap();
    let color_id = interner.resolve_id("'").unwrap();
    let mat_id = interner.resolve_id(",").unwrap();
    let uv_id = interner.resolve_id(";").unwrap();

    let mut state = SymbiosState::new();
    state.push(color_id, 0.0, &[1.0, 0.0, 0.0]).unwrap();
    state.push(mat_id, 0.0, &[1.0]).unwrap();
    state.push(uv_id, 0.0, &[2.5]).unwrap();
    state.push(f_id, 0.0, &[1.0]).unwrap();

    let skeleton = interpreter.build_skeleton(&state, &PaintedGeometry { state: &state });
    let strand = &skeleton.strands[0];
    assert_eq!(strand.len(), 2);
    let point = strand[1];
    assert_eq!(point.color, (1.0, 0.0, 0.0, 1.0));
    assert_eq!(point.material_id, 1);
    assert_eq!(point.uv_scale, 2.5);
    // The start of the strand carries the same appearance.
    assert_eq!(strand[0].color, (1.0, 0.0, 0.0, 1.0));
    assert_eq!(strand[0].material_id, 1);
}

#[test]
fn test_prop_inherits_turtle_material_state() {
    let (interpreter, interner) = painted_setup();
    let color_id = interner.resolve_id("'").unwrap();
    let mat_id = interner.resolve_id(",").unwrap();
    let spawn_id = interner.resolve_id("~").unwrap();

    let mut state = SymbiosState::new();
    state.push(color_id, 0.0, &[0.0, 1.0, 0.0]).unwrap();
    state.push(mat_id, 0.0, &[3.0]).unwrap();
    state.push(spawn_id, 0.0, &[7.0]).unwrap();

    let skeleton = interpreter.build_skeleton(&state, &PaintedGeometry { state: &state });
    assert_eq!(skeleton.props.len(), 1);
    let (surface_id, prop) = skeleton.props[0];
    assert_eq!(surface_id, 7);
    assert_eq!(prop.color, (0.0, 1.0, 0.0, 1.0));
    assert_eq!(prop.material_id, 3);
}

#[test]
fn test_prop_default_material_state() {
    let (interpreter, interner) = painted_setup();
    let spawn_id = interner.resolve_id("~").unwrap();

    let mut state = SymbiosState::new();
    state.push(spawn_id, 0.0, &[0.0]).unwrap();

    let skeleton = interpreter.build_skeleton(&state, &PaintedGeometry { state: &state });
    assert_eq!(skeleton.props.len(), 1);
    let (_, prop) = skeleton.props[0];
    assert_eq!(prop.color, (1.0, 1.0, 1.0, 1.0));
    assert_eq!(prop.material_id, 0);
}

#[test]
fn test_uv_scale_default() {
    let (interpreter, interner) = painted_setup();
    let f_id = interner.resolve_id("F").unwrap();

    let mut state = SymbiosState::new();
    state.push(f_id, 0.0, &[1.0]).unwrap();

    let skeleton = interpreter.build_skeleton(&state, &PaintedGeometry { state: &state });
    assert_eq!(skeleton.strands[0][0].uv_scale, 1.0);
}

#[test]
fn pop_restores_saved_appearance() {
    let (interpreter, interner) = painted_setup();
    let f_id = interner.resolve_id("F").unwrap();
    let color_id = interner.resolve_id("'").unwrap();
    let spawn_id = interner.resolve_id("~").unwrap();
    let push_id = interner.resolve_id("[").unwrap();
    let pop_id = interner.resolve_id("]").unwrap();

    // '(0.5) [ '(0.2) F(1) ] ~ F(2)
    let mut state = SymbiosState::new();
    state.push(color_id, 0.0, &[0.5]).unwrap();
    state.push(push_id, 0.0, &[]).unwrap();
    state.push(color_id, 0.0, &[0.2]).unwrap();
    state.push(f_id, 0.0, &[1.0]).unwrap();
    state.push(pop_id, 0.0, &[]).unwrap();
    state.push(spawn_id, 0.0, &[]).unwrap();
    state.push(f_id, 0.0, &[2.0]).unwrap();

    let skeleton = interpreter.build_skeleton(&state, &PaintedGeometry { state: &state });
    let gray = |v: f64| (v, v, v, 1.0);
    // The push opens the first strand; the pop starts the second.
    assert_eq!(skeleton.strands.len(), 2);
    assert_eq!(skeleton.strands[0][0].color, gray(0.5));
    assert_eq!(skeleton.strands[0][1].color, gray(0.2));
    assert_eq!(skeleton.strands[0][1].y, 1.0);
    assert_eq!(skeleton.props[0].1.color, gray(0.5));
    assert_eq!(skeleton.props[0].1.y, 0.0);
    assert_eq!(skeleton.strands[1][0].color, gray(0.5));
    assert_eq!(skeleton.strands[1][1].color, gray(0.5));
    assert_eq!(skeleton.strands[1][1].y, 2.0);
}

#[test]
fn outline_of_branching_stream() {
    let (interpreter, interner) = setup_interpreter();
    let f_id = interner.resolve_id("F").unwrap();
    let push_id = interner.resolve_id("[").unwrap();
    let pop_id = interner.resolve_id("]").unwrap();

    let mut state = SymbiosState::new();
    state.push(f_id, 0.0, &[10.0]).unwrap();
    state.push(push_id, 0.0, &[]).unwrap();
    state.push(f_id, 0.0, &[5.0]).unwrap();
    state.push(pop_id, 0.0, &[]).unwrap();
    state.push(f_id, 0.0, &[10.0]).unwrap();

    // Each draw applies two numeric effects (advance and bend).
    let skeleton = interpreter.build_skeleton(&state, &Outline);
    assert_eq!(skeleton.strands, vec![vec![0, 2], vec![2, 4], vec![2, 4]]);
    assert!(skeleton.props.is_empty());
}

#[test]
fn outline_push_then_pop_gives_two_single_point_strands() {
    let (interpreter, interner) = setup_interpreter();
    let f_id = interner.resolve_id("F").unwrap();
    let push_id = interner.resolve_id("[").unwrap();
    let pop_id = interner.resolve_id("]").unwrap();

    let mut state = SymbiosState::new();
    state.push(f_id, 0.0, &[]).unwrap();
    state.push(push_id, 0.0, &[]).unwrap();
    state.push(pop_id, 0.0, &[]).unwrap();
    state.push(pop_id, 0.0, &[]).unwrap();

    let skeleton = interpreter.build_skeleton(&state, &Outline);
    assert_eq!(skeleton.strands, vec![vec![0, 2], vec![2], vec![2]]);
}

#[test]
fn outline_props_record_their_instruction() {
    let mut interner = SymbolTable::new();
    interner.intern("~").unwrap();
    interner.intern("+").unwrap();
    let mut interpreter = TurtleInterpreter::new(());
    interpreter.populate_standard_symbols(&interner);
    let spawn_id = interner.resolve_id("~").unwrap();
    let yaw_id = interner.resolve_id("+").unwrap();

    let mut state = SymbiosState::new();
    state.push(spawn_id, 0.0, &[3.0]).unwrap();
    state.push(yaw_id, 0.0, &[]).unwrap();
    state.push(spawn_id, 0.0, &[]).unwrap();

    let skeleton = interpreter.build_skeleton(&state, &Outline);
    assert_eq!(skeleton.props, vec![(0, 0), (0, 2)]);
    assert!(skeleton.strands.is_empty());
}
