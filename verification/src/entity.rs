//! The building blocks an embedding game supplies: inputs, movement vectors,
//! rotations, per-tick update outcomes, effects, sprites and the entity
//! capability trait.

use vstd::prelude::*;

verus! {

/// Input received from the player. `Idle` stands for the absence of input.
#[derive(Copy, Clone, Debug, PartialEq, Eq, Structural)]
pub enum Input {
    Idle,
    Up,
    Down,
    Left,
    Right,
    Quit,
}

/// Used for entities to specify movements/directions.
#[derive(Copy, Clone, Default, Debug, PartialEq, Eq, Structural)]
pub struct Vector {
    pub x: i32,
    pub y: i32,
}

impl Vector {
    pub fn new(x: i32, y: i32) -> (v: Self)
        ensures
            v == (Vector { x, y }),
    {
        Self { x, y }
    }
}

/// Used for entities to specify rotation, in steps of a quarter turn.
#[derive(Copy, Clone, Default, Debug, PartialEq, Eq, Structural)]
pub enum Rotation {
    #[default]
    Zero,
    HalfPi,
    Pi,
    ThreeHalvesPi,
}

impl Rotation {
    /// The number of quarter turns this rotation stands for.
    pub open spec fn index(self) -> int {
        match self {
            Rotation::Zero => 0,
            Rotation::HalfPi => 1,
            Rotation::Pi => 2,
            Rotation::ThreeHalvesPi => 3,
        }
    }

    /// The rotation standing for `i` quarter turns, for `0 <= i < 4`.
    pub open spec fn from_index(i: int) -> Rotation {
        if i == 0 {
            Rotation::Zero
        } else if i == 1 {
            Rotation::HalfPi
        } else if i == 2 {
            Rotation::Pi
        } else {
            Rotation::ThreeHalvesPi
        }
    }

    /// Rotations combine by modular addition of quarter turns.
    pub open spec fn spec_plus(self, rhs: Rotation) -> Rotation {
        Rotation::from_index((self.index() + rhs.index()) % 4)
    }

    /// Combine two rotations: the new rotation is
    /// `(self + rhs) mod 4` quarter turns.
    pub fn plus(self, rhs: Rotation) -> (r: Rotation)
        ensures
            r == self.spec_plus(rhs),
    {
        let a: u32 = self.quarter_turns();
        let b: u32 = rhs.quarter_turns();
        match (a + b) % 4 {
            0 => Rotation::Zero,
            1 => Rotation::HalfPi,
            2 => Rotation::Pi,
            _ => Rotation::ThreeHalvesPi,
        }
    }

    fn quarter_turns(self) -> (n: u32)
        ensures
            n == self.index(),
    {
        match self {
            Rotation::Zero => 0,
            Rotation::HalfPi => 1,
            Rotation::Pi => 2,
            Rotation::ThreeHalvesPi => 3,
        }
    }
}

/// Rotating by a quarter turn four times returns every rotation to its
/// original value.
pub proof fn lemma_rotation_quarter_turn_cycle(r: Rotation)
    ensures
        r.spec_plus(Rotation::HalfPi).spec_plus(Rotation::HalfPi).spec_plus(
            Rotation::HalfPi,
        ).spec_plus(Rotation::HalfPi) == r,
{
}

/// The outcome of one entity's tick: do nothing, move and rotate, or be
/// destroyed.
#[derive(Copy, Clone, Default, Debug)]
pub enum Update {
    #[default]
    Noop,
    Action { step: Vector, rotate: Rotation },
    Destroy,
}

/// An effect one entity deals to another on collision.
#[derive(Copy, Clone, Debug, PartialEq, Eq, Structural)]
pub enum Effect {
    Damage(i32),
}

/// Denominator of the fixed-point fractions used for starting positions.
pub const FRAC_DENOM: u16 = 1000;

/// A fixed-point fraction: `num` parts of [`FRAC_DENOM`]. Starting positions
/// are meant to lie in `[0, 1)`, that is `num < FRAC_DENOM`; a placement
/// outside that range is rejected as out of bounds when it is resolved.
#[derive(Copy, Clone, Default, Debug, PartialEq, Eq, Structural)]
pub struct Frac {
    pub num: u16,
}

/// A game entity's sprite used for rendering: an immutable row-major pixel
/// buffer with origin at the top left.
pub struct Sprite {
    width: u32,
    height: u32,
    pixels: Vec<(u8, u8, u8)>,
}

impl Sprite {
    /// Every sprite holds exactly `width * height` pixels.
    #[verifier::type_invariant]
    spec fn inv(self) -> bool {
        self.pixels@.len() == self.width * self.height
    }

    pub closed spec fn spec_width(&self) -> u32 {
        self.width
    }

    pub closed spec fn spec_height(&self) -> u32 {
        self.height
    }

    /// The pixel buffer, row-major from the top-left corner.
    pub closed spec fn pixels_view(&self) -> Seq<(u8, u8, u8)> {
        self.pixels@
    }

    /// The pixel at column `x` of row `y`.
    pub open spec fn spec_pixel(&self, x: int, y: int) -> (u8, u8, u8) {
        self.pixels_view()[y * self.spec_width() + x]
    }

    /// Build a sprite from its dimensions and pixel buffer; `None` if the
    /// buffer does not hold exactly `width * height` pixels.
    pub fn new(width: u32, height: u32, pixels: Vec<(u8, u8, u8)>) -> (r: Option<Sprite>)
        ensures
            r is Some <==> pixels@.len() == width * height,
            r matches Some(s) ==> s.spec_width() == width && s.spec_height() == height
                && s.pixels_view() == pixels@,
    {
        proof {
            assert((width as u64) * (height as u64) <= u64::MAX) by (nonlinear_arith)
                requires
                    width <= u32::MAX,
                    height <= u32::MAX,
            ;
        }
        if pixels.len() as u64 == (width as u64) * (height as u64) {
            Some(Sprite { width, height, pixels })
        } else {
            None
        }
    }

    #[verifier::when_used_as_spec(spec_width)]
    pub fn width(&self) -> (w: u32)
        ensures
            w == self.spec_width(),
    {
        self.width
    }

    #[verifier::when_used_as_spec(spec_height)]
    pub fn height(&self) -> (h: u32)
        ensures
            h == self.spec_height(),
    {
        self.height
    }

    /// Read the pixel at column `x` of row `y`.
    pub fn get_pixel(&self, x: u32, y: u32) -> (rgb: (u8, u8, u8))
        requires
            x < self.spec_width(),
            y < self.spec_height(),
        ensures
            rgb == self.spec_pixel(x as int, y as int),
    {
        let n = self.pixels.len();
        proof {
            use_type_invariant(self);
            assert(y * self.width + x < self.width * self.height) by (nonlinear_arith)
                requires
                    x < self.width,
                    y < self.height,
            ;
        }
        let idx: usize = (y as usize) * (self.width as usize) + (x as usize);
        self.pixels[idx]
    }
}

/// A game entity of some kind, supplied by the embedding application.
///
/// Entities never get direct access to one another: a collision is reported
/// to both participants, and each may answer with an effect that the engine
/// delivers to the other participant once the collision pass is over.
pub trait Entity {
    /// Starting position for the entity as fractions of the canvas extent,
    /// meant to lie in `[0, 1)` on both axes.
    fn start_pos(&self) -> (Frac, Frac);

    /// The entity's sprite; fixed for the entity's lifetime.
    fn sprite(&self) -> Sprite;

    /// Update the entity for this game tick.
    fn update(&mut self, input: Input) -> Update;

    /// Respond to a collision with another entity; the returned effect is
    /// delivered to the other participant.
    fn collision(&mut self) -> Option<Effect>;

    /// Respond to an effect dealt by another entity.
    fn effect(&mut self, effect: Effect);
}

} // verus!
