//! Scenario tests of the simulation core: starting-position resolution,
//! bounds-checked movement, collision reciprocity, two-phase destruction and
//! rasterization.

use game::entity::{Effect, Entity, Frac, Input, Rotation, Sprite, Update, Vector};
use game::render::render_record;
use game::state::{apply_update, resolve_position, Bounds, Position, State};
use game::{Engine, GameError, TickOutcome};

/// What a test entity does every tick.
#[derive(Copy, Clone)]
enum Plan {
    Stay,
    Move(Vector),
    Turn(Vector, Rotation),
    Die,
}

/// An entity whose behavior is scripted, and which records what happens to
/// it.
struct Scripted {
    start: (u16, u16),
    size: (u32, u32),
    plan: Plan,
    give: Option<Effect>,
    collisions: u32,
    received: Vec<Effect>,
}

impl Scripted {
    fn new(start: (u16, u16), size: (u32, u32), plan: Plan) -> Self {
        Scripted {
            start,
            size,
            plan,
            give: None,
            collisions: 0,
            received: Vec::new(),
        }
    }

    fn giving(mut self, effect: Effect) -> Self {
        self.give = Some(effect);
        self
    }
}

impl Entity for Scripted {
    fn start_pos(&self) -> (Frac, Frac) {
        (Frac { num: self.start.0 }, Frac { num: self.start.1 })
    }

    fn sprite(&self) -> Sprite {
        let (w, h) = self.size;
        Sprite::new(w, h, vec![(9, 9, 9); (w * h) as usize]).unwrap()
    }

    fn update(&mut self, _input: Input) -> Update {
        match self.plan {
            Plan::Stay => Update::Noop,
            Plan::Move(step) => Update::Action {
                step,
                rotate: Rotation::Zero,
            },
            Plan::Turn(step, rotate) => Update::Action { step, rotate },
            Plan::Die => Update::Destroy,
        }
    }

    fn collision(&mut self) -> Option<Effect> {
        self.collisions += 1;
        self.give
    }

    fn effect(&mut self, effect: Effect) {
        self.received.push(effect);
    }
}

fn canvas() -> Bounds {
    Bounds {
        width: 40,
        height: 20,
    }
}

fn ready_engine(entities: Vec<Scripted>) -> Engine<Scripted> {
    let mut engine = Engine::new().starting_entities(entities);
    engine.init(canvas()).unwrap();
    engine
}

#[test]
fn start_pos_resolves_centered() {
    let sprite = Sprite::new(4, 4, vec![(0, 0, 0); 16]).unwrap();
    let pos = resolve_position(Frac { num: 500 }, Frac { num: 500 }, &sprite, canvas());
    assert_eq!(pos, Some(Position { x: 16, y: 8 }));
}

#[test]
fn start_pos_out_of_bounds_is_rejected() {
    let sprite = Sprite::new(4, 4, vec![(0, 0, 0); 16]).unwrap();
    assert_eq!(
        resolve_position(Frac { num: 0 }, Frac { num: 500 }, &sprite, canvas()),
        None
    );
    assert_eq!(
        resolve_position(Frac { num: 999 }, Frac { num: 500 }, &sprite, canvas()),
        None
    );
}

#[test]
fn init_resolves_positions() {
    let engine = ready_engine(vec![Scripted::new((500, 500), (4, 4), Plan::Stay)]);
    let record = engine.state().record(0);
    assert_eq!(record.pos, Some(Position { x: 16, y: 8 }));
    assert_eq!(record.rot, Rotation::Zero);
}

#[test]
fn resolution_is_idempotent() {
    let mut state: State<Scripted> = State::new();
    state.add_entity(Scripted::new((500, 500), (4, 4), Plan::Stay));
    state.set_bounds(canvas());
    assert!(state.set_starting_positions().is_ok());
    let pos = state.record(0).pos;
    // A second pass finds nothing left to resolve and must succeed,
    // changing no position.
    assert!(state.set_starting_positions().is_ok());
    assert_eq!(state.record(0).pos, pos);
}

#[test]
fn init_with_no_entities_succeeds() {
    let mut engine: Engine<Scripted> = Engine::new();
    assert_eq!(engine.init(canvas()), Ok(()));
}

#[test]
fn init_fails_on_bad_placement() {
    let mut engine = Engine::new().starting_entities(vec![Scripted::new(
        (0, 500),
        (4, 4),
        Plan::Stay,
    )]);
    assert_eq!(engine.init(canvas()), Err(GameError::OutOfBounds));
}

#[test]
fn step_is_scaled_per_axis() {
    let mut engine = ready_engine(vec![Scripted::new(
        (500, 500),
        (4, 4),
        Plan::Move(Vector::new(1, 0)),
    )]);
    engine.tick(Input::Idle).unwrap();
    assert_eq!(
        engine.state().record(0).pos,
        Some(Position { x: 18, y: 8 })
    );

    let mut engine = ready_engine(vec![Scripted::new(
        (500, 500),
        (4, 4),
        Plan::Move(Vector::new(0, 1)),
    )]);
    engine.tick(Input::Idle).unwrap();
    assert_eq!(
        engine.state().record(0).pos,
        Some(Position { x: 16, y: 9 })
    );
}

#[test]
fn blocked_move_is_rolled_back() {
    let mut engine = ready_engine(vec![Scripted::new(
        (500, 500),
        (4, 4),
        Plan::Move(Vector::new(20, 0)),
    )]);
    engine.tick(Input::Idle).unwrap();
    assert_eq!(
        engine.state().record(0).pos,
        Some(Position { x: 16, y: 8 })
    );
}

#[test]
fn rotation_applies_even_when_move_is_blocked() {
    let mut engine = ready_engine(vec![Scripted::new(
        (500, 500),
        (4, 4),
        Plan::Turn(Vector::new(20, 0), Rotation::HalfPi),
    )]);
    engine.tick(Input::Idle).unwrap();
    let record = engine.state().record(0);
    assert_eq!(record.pos, Some(Position { x: 16, y: 8 }));
    assert_eq!(record.rot, Rotation::HalfPi);
}

#[test]
fn apply_update_moves_and_rotates() {
    let sprite = Sprite::new(4, 4, vec![(0, 0, 0); 16]).unwrap();
    let mut record = game::state::EntityState::<Scripted> {
        id: 0,
        pos: Some(Position { x: 16, y: 8 }),
        rot: Rotation::Zero,
        sprite,
        entity: None,
    };
    apply_update(
        &mut record,
        Update::Action {
            step: Vector::new(1, 0),
            rotate: Rotation::Pi,
        },
        canvas(),
    );
    assert_eq!(record.pos, Some(Position { x: 18, y: 8 }));
    assert_eq!(record.rot, Rotation::Pi);
}

#[test]
fn overlapping_entities_both_notified_once() {
    // Two 4x4-sprite entities at (10, 10) and (12, 10): the scaled boxes
    // intersect, so both receive exactly one collision notification.
    let a = Scripted::new((350, 600), (4, 4), Plan::Stay).giving(Effect::Damage(10));
    let b = Scripted::new((400, 600), (4, 4), Plan::Stay);
    let mut engine = ready_engine(vec![a, b]);
    assert_eq!(engine.state().record(0).pos, Some(Position { x: 10, y: 10 }));
    assert_eq!(engine.state().record(1).pos, Some(Position { x: 12, y: 10 }));

    engine.tick(Input::Idle).unwrap();

    let a = engine.state().record(0).entity.as_ref().unwrap();
    let b = engine.state().record(1).entity.as_ref().unwrap();
    assert_eq!(a.collisions, 1);
    assert_eq!(b.collisions, 1);
    // The effect a dealt was delivered to b, after the collision pass.
    assert_eq!(b.received, vec![Effect::Damage(10)]);
    assert_eq!(a.received, vec![]);
}

#[test]
fn separated_entities_are_not_notified() {
    let a = Scripted::new((250, 250), (2, 2), Plan::Stay);
    let b = Scripted::new((750, 750), (2, 2), Plan::Stay);
    let mut engine = ready_engine(vec![a, b]);
    engine.tick(Input::Idle).unwrap();
    assert_eq!(engine.state().record(0).entity.as_ref().unwrap().collisions, 0);
    assert_eq!(engine.state().record(1).entity.as_ref().unwrap().collisions, 0);
}

#[test]
fn destroyed_entity_leaves_after_the_tick() {
    // The dying entity overlaps its neighbor, so it still takes part in the
    // collision pass of the tick that destroys it, and is gone afterwards.
    let doomed = Scripted::new((350, 600), (4, 4), Plan::Die);
    let survivor = Scripted::new((400, 600), (4, 4), Plan::Stay);
    let mut engine = ready_engine(vec![doomed, survivor]);
    let doomed_id = engine.state().record(0).id;

    engine.tick(Input::Idle).unwrap();

    assert_eq!(engine.state().len(), 1);
    let survivor = engine.state().record(0);
    assert_ne!(survivor.id, doomed_id);
    // The survivor's collision with the dying entity was still observed.
    assert_eq!(survivor.entity.as_ref().unwrap().collisions, 1);
}

#[test]
fn destroy_is_two_phase_in_the_store() {
    let mut state: State<Scripted> = State::new();
    state.add_entity(Scripted::new((500, 500), (4, 4), Plan::Die));
    state.add_entity(Scripted::new((250, 250), (4, 4), Plan::Stay));
    state.set_bounds(canvas());
    state.set_starting_positions().unwrap();

    state.update_entities(Input::Idle);
    // Phase one: the record is still present, its entity cleared.
    assert_eq!(state.len(), 2);
    assert!(state.record(0).entity.is_none());
    assert!(state.record(1).entity.is_some());

    state.prune();
    // Phase two: pruning removes exactly the destroyed record.
    assert_eq!(state.len(), 1);
    assert_eq!(state.record(0).id, 1);
}

#[test]
fn render_expands_scale_blocks() {
    let sprite = Sprite::new(1, 1, vec![(1, 2, 3)]).unwrap();
    let ops = render_record(
        Position { x: 5, y: 6 },
        Rotation::Zero,
        &sprite,
        canvas(),
    )
    .unwrap();
    assert_eq!(ops.len(), 2);
    assert_eq!((ops[0].x, ops[0].y, ops[0].rgb), (5, 6, (1, 2, 3)));
    assert_eq!((ops[1].x, ops[1].y, ops[1].rgb), (6, 6, (1, 2, 3)));
}

#[test]
fn render_remaps_pixels_for_quarter_turn() {
    let sprite = Sprite::new(2, 1, vec![(10, 0, 0), (0, 20, 0)]).unwrap();
    let ops = render_record(
        Position { x: 5, y: 5 },
        Rotation::HalfPi,
        &sprite,
        canvas(),
    )
    .unwrap();
    let got: Vec<(i64, i64, (u8, u8, u8))> = ops.iter().map(|o| (o.x, o.y, o.rgb)).collect();
    assert_eq!(
        got,
        vec![
            (5, 5, (0, 20, 0)),
            (6, 5, (0, 20, 0)),
            (5, 6, (10, 0, 0)),
            (6, 6, (10, 0, 0)),
        ]
    );
}

#[test]
fn render_remaps_pixels_for_half_turn() {
    let sprite = Sprite::new(2, 1, vec![(10, 0, 0), (0, 20, 0)]).unwrap();
    let ops = render_record(
        Position { x: 5, y: 5 },
        Rotation::Pi,
        &sprite,
        canvas(),
    )
    .unwrap();
    let got: Vec<(i64, i64, (u8, u8, u8))> = ops.iter().map(|o| (o.x, o.y, o.rgb)).collect();
    assert_eq!(
        got,
        vec![
            (5, 5, (0, 20, 0)),
            (6, 5, (0, 20, 0)),
            (7, 5, (10, 0, 0)),
            (8, 5, (10, 0, 0)),
        ]
    );
}

#[test]
fn render_off_canvas_is_fatal() {
    let sprite = Sprite::new(1, 1, vec![(0, 0, 0)]).unwrap();
    let r = render_record(
        Position { x: 39, y: 19 },
        Rotation::Zero,
        &sprite,
        canvas(),
    );
    assert_eq!(r, Err(GameError::OutOfBounds));
}

#[test]
fn tick_emits_a_frame() {
    let mut engine = ready_engine(vec![Scripted::new((500, 500), (1, 1), Plan::Stay)]);
    let outcome = engine.tick(Input::Idle).unwrap();
    match outcome {
        TickOutcome::Frame(ops) => assert_eq!(ops.len(), 2),
        TickOutcome::Quit => panic!("expected a frame"),
    }
}

#[test]
fn tick_quits_on_quit_input() {
    let mut engine = ready_engine(vec![Scripted::new((500, 500), (4, 4), Plan::Stay)]);
    let outcome = engine.tick(Input::Quit).unwrap();
    assert!(matches!(outcome, TickOutcome::Quit));
    // The quit tick runs no pass: the entity was never updated.
    assert_eq!(engine.state().len(), 1);
    assert_eq!(engine.state().record(0).entity.as_ref().unwrap().collisions, 0);
}

#[test]
fn ids_stay_stable_across_pruning() {
    let mut engine = ready_engine(vec![
        Scripted::new((250, 250), (2, 2), Plan::Die),
        Scripted::new((500, 500), (2, 2), Plan::Stay),
        Scripted::new((750, 750), (2, 2), Plan::Stay),
    ]);
    assert_eq!(engine.state().record(0).id, 0);
    assert_eq!(engine.state().record(1).id, 1);
    assert_eq!(engine.state().record(2).id, 2);

    engine.tick(Input::Idle).unwrap();

    assert_eq!(engine.state().len(), 2);
    assert_eq!(engine.state().record(0).id, 1);
    assert_eq!(engine.state().record(1).id, 2);
}
