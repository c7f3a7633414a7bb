//! The engine: a builder for the game's configuration, startup placement,
//! and the per-tick decision step the embedding application drives.

use vstd::prelude::*;

use crate::entity::{Entity, Input, Rotation};
use crate::render::{cells_on_canvas, spec_render, PaintOp};
use crate::state::{pruned, updated_records, Bounds, EntityState, State};
use crate::GameError;

verus! {

/// Lowest accepted frames-per-second setting.
pub const FPS_MIN: u32 = 1;

/// Highest accepted frames-per-second setting.
pub const FPS_MAX: u32 = 30;

/// `ratatui`'s terminal color type, carried opaquely through the engine's
/// configuration for the display glue to consume.
#[verifier::external_type_specification]
#[verifier::external_body]
pub struct ExColor(ratatui::style::Color);

/// `ratatui`'s color-parse error type.
#[verifier::external_type_specification]
#[verifier::external_body]
pub struct ExParseColorError(ratatui::style::ParseColorError);

/// Relies on the derived `Clone` of `ratatui`'s `ParseColorError`, a unit
/// struct: cloning yields an equal value.
pub assume_specification[ <ratatui::style::ParseColorError as Clone>::clone ](
    e: &ratatui::style::ParseColorError,
) -> (r: ratatui::style::ParseColorError)
    ensures
        r == *e,
;

/// What `ratatui`'s color parser yields for a string: a color for named
/// colors, `#rrggbb` hex values and indexed colors, `None` otherwise. The
/// outcome is a function of the string's characters alone.
pub uninterp spec fn color_from_str(s: Seq<char>) -> Option<ratatui::style::Color>;

/// Relies on `ratatui`'s `Color::from_str`, reached through `str::parse`: it
/// returns a color exactly when it accepts the string, and its outcome is a
/// function of the string alone.
#[verifier::external_body]
fn parse_color(s: &str) -> (r: Result<ratatui::style::Color, ratatui::style::ParseColorError>)
    ensures
        r is Ok <==> color_from_str(s@) is Some,
        r matches Ok(c) ==> color_from_str(s@) == Some(c),
{
    s.parse()
}

/// The color value `ratatui` represents the given RGB components by; a
/// function of the components alone.
pub uninterp spec fn spec_rgb(r: u8, g: u8, b: u8) -> ratatui::style::Color;

/// Relies on `ratatui`'s `Color::Rgb` variant: builds the color value with
/// the given components.
#[verifier::external_body]
fn rgb_color(r: u8, g: u8, b: u8) -> (c: ratatui::style::Color)
    ensures
        c == spec_rgb(r, g, b),
{
    ratatui::style::Color::Rgb(r, g, b)
}

/// What one tick decides: stop the game, or paint a frame.
pub enum TickOutcome {
    Quit,
    Frame(Vec<PaintOp>),
}

/// Game engine configuration builder and tick driver.
pub struct Engine<E> {
    state: State<E>,
    title: &'static str,
    ui_color: ratatui::style::Color,
    bg_color: ratatui::style::Color,
    fps: u32,
}

impl<E: Entity> Engine<E> {
    /// The entity state store.
    pub closed spec fn spec_state(&self) -> State<E> {
        self.state
    }

    /// The configured title.
    pub closed spec fn spec_title(&self) -> Seq<char> {
        self.title@
    }

    /// The configured frames-per-second.
    pub closed spec fn spec_fps(&self) -> u32 {
        self.fps
    }

    /// The configured UI color.
    pub closed spec fn spec_ui_color(&self) -> ratatui::style::Color {
        self.ui_color
    }

    /// The configured background color.
    pub closed spec fn spec_bg_color(&self) -> ratatui::style::Color {
        self.bg_color
    }

    /// Everything but the entity store is configuration; whether two engines
    /// carry the same configuration.
    pub open spec fn same_config(&self, other: &Engine<E>) -> bool {
        &&& self.spec_title() == other.spec_title()
        &&& self.spec_fps() == other.spec_fps()
        &&& self.spec_ui_color() == other.spec_ui_color()
        &&& self.spec_bg_color() == other.spec_bg_color()
    }

    /// Whether the engine has been initialized and may tick: the store is
    /// well formed, the bounds are fixed and every record is positioned.
    pub open spec fn ready(&self) -> bool {
        &&& self.spec_state().wf()
        &&& self.spec_state().spec_bounds() is Some
        &&& forall|i: int|
            0 <= i < self.spec_state().records().len() ==> (#[trigger] self.spec_state().records()[i]).positioned()
    }

    /// A fresh engine: no entities, a black (`#000000`) UI on a gray
    /// (`#666666`) background, the default title and 15 frames per second.
    pub fn new() -> (e: Engine<E>)
        ensures
            e.spec_state().wf(),
            e.spec_state().records().len() == 0,
            e.spec_state().spec_bounds() is None,
            e.spec_state().spec_next_id() == 0,
            e.spec_fps() == 15,
            e.spec_title() == "Game"@,
            e.spec_ui_color() == spec_rgb(0x00, 0x00, 0x00),
            e.spec_bg_color() == spec_rgb(0x66, 0x66, 0x66),
    {
        Engine {
            state: State::new(),
            title: "Game",
            ui_color: rgb_color(0x00, 0x00, 0x00),
            bg_color: rgb_color(0x66, 0x66, 0x66),
            fps: 15,
        }
    }

    /// Set the window title.
    pub fn set_title(self, title: &'static str) -> (e: Self)
        ensures
            e.spec_title() == title@,
            e.spec_state() == self.spec_state(),
            e.spec_fps() == self.spec_fps(),
            e.spec_ui_color() == self.spec_ui_color(),
            e.spec_bg_color() == self.spec_bg_color(),
    {
        Engine { title, ..self }
    }

    /// Set the UI color from a color specification string; rejected with
    /// [`GameError::InvalidColor`] exactly when the string does not parse.
    pub fn set_ui_color(self, ui_color: &'static str) -> (r: Result<Self, GameError>)
        ensures
            r is Ok <==> color_from_str(ui_color@) is Some,
            r matches Ok(e) ==> color_from_str(ui_color@) == Some(e.spec_ui_color())
                && e.spec_state() == self.spec_state() && e.spec_title() == self.spec_title()
                && e.spec_fps() == self.spec_fps() && e.spec_bg_color() == self.spec_bg_color(),
            r is Err ==> r matches Err(GameError::InvalidColor(_)),
    {
        match parse_color(ui_color) {
            Ok(color) => Ok(Engine { ui_color: color, ..self }),
            Err(error) => Err(GameError::InvalidColor(error)),
        }
    }

    /// Set the background color from a color specification string; rejected
    /// with [`GameError::InvalidColor`] exactly when the string does not
    /// parse.
    pub fn set_bg_color(self, bg_color: &'static str) -> (r: Result<Self, GameError>)
        ensures
            r is Ok <==> color_from_str(bg_color@) is Some,
            r matches Ok(e) ==> color_from_str(bg_color@) == Some(e.spec_bg_color())
                && e.spec_state() == self.spec_state() && e.spec_title() == self.spec_title()
                && e.spec_fps() == self.spec_fps() && e.spec_ui_color() == self.spec_ui_color(),
            r is Err ==> r matches Err(GameError::InvalidColor(_)),
    {
        match parse_color(bg_color) {
            Ok(color) => Ok(Engine { bg_color: color, ..self }),
            Err(error) => Err(GameError::InvalidColor(error)),
        }
    }

    /// Set the tick rate; a rate outside `FPS_MIN..=FPS_MAX` is rejected at
    /// startup with [`GameError::InvalidArg`].
    pub fn set_fps(self, fps: u32) -> (r: Result<Self, GameError>)
        ensures
            r is Ok <==> FPS_MIN <= fps <= FPS_MAX,
            r matches Ok(e) ==> e.spec_fps() == fps && e.spec_state() == self.spec_state()
                && e.spec_title() == self.spec_title() && e.spec_ui_color()
                == self.spec_ui_color() && e.spec_bg_color() == self.spec_bg_color(),
            r matches Err(err) ==> err matches GameError::InvalidArg(m) && m@
                == "fps must be between 1 and 30"@,
    {
        if fps < FPS_MIN || fps > FPS_MAX {
            return Err(GameError::InvalidArg("fps must be between 1 and 30".to_owned()));
        }
        Ok(Engine { fps, ..self })
    }

    /// Register the initial entities, in order.
    pub fn starting_entities(self, entities: Vec<E>) -> (e: Self)
        requires
            self.spec_state().wf(),
            self.spec_state().spec_next_id() + entities@.len() <= u64::MAX,
        ensures
            e.same_config(&self),
            e.spec_state().wf(),
            e.spec_state().spec_bounds() == self.spec_state().spec_bounds(),
            e.spec_state().records().len() == self.spec_state().records().len()
                + entities@.len(),
            forall|i: int|
                0 <= i < self.spec_state().records().len()
                    ==> #[trigger] e.spec_state().records()[i] == self.spec_state().records()[i],
            e.spec_state().spec_next_id() == self.spec_state().spec_next_id() + entities@.len(),
            forall|k: int|
                0 <= k < entities@.len() ==> {
                    let r = #[trigger] e.spec_state().records()[self.spec_state().records().len()
                        + k];
                    &&& r.entity == Some(entities@[k])
                    &&& r.pos is None
                    &&& r.rot == Rotation::Zero
                    &&& r.id == self.spec_state().spec_next_id() + k
                },
    {
        let ghost orig = entities@;
        let ghost base_len = self.state.records().len();
        let ghost base_id = self.state.spec_next_id();
        let mut this = self;
        let mut entities = entities;
        while entities.len() > 0
            invariant
                this.state.wf(),
                this.same_config(&self),
                this.state.spec_bounds() == self.spec_state().spec_bounds(),
                entities@.len() <= orig.len(),
                entities@ =~= orig.subrange(
                    orig.len() - entities@.len(),
                    orig.len() as int,
                ),
                this.state.records().len() == base_len + orig.len() - entities@.len(),
                this.state.spec_next_id() == base_id + orig.len() - entities@.len(),
                base_id + orig.len() <= u64::MAX,
                base_len == self.spec_state().records().len(),
                base_id == self.spec_state().spec_next_id(),
                forall|i: int|
                    0 <= i < base_len ==> #[trigger] this.state.records()[i]
                        == self.spec_state().records()[i],
                forall|k: int|
                    0 <= k < orig.len() - entities@.len() ==> {
                        let r = #[trigger] this.state.records()[base_len + k];
                        &&& r.entity == Some(orig[k])
                        &&& r.pos is None
                        &&& r.rot == Rotation::Zero
                        &&& r.id == base_id + k
                    },
            decreases entities@.len(),
        {
            let ghost done: int = orig.len() - entities@.len();
            let ghost pre_entities = entities@;
            let ghost pre_records = this.state.records();
            let ent = entities.remove(0);
            proof {
                assert(pre_entities =~= orig.subrange(done, orig.len() as int));
                assert(ent == orig[done]);
                assert(entities@ =~= orig.subrange(done + 1, orig.len() as int));
            }
            this.state.add_entity(ent);
            proof {
                assert forall|i: int| 0 <= i < base_len implies #[trigger] this.state.records()[i]
                    == self.spec_state().records()[i] by {
                    assert(this.state.records()[i] == pre_records[i]);
                }
                assert forall|k: int| 0 <= k < done + 1 implies {
                    let r = #[trigger] this.state.records()[base_len + k];
                    &&& r.entity == Some(orig[k])
                    &&& r.pos is None
                    &&& r.rot == Rotation::Zero
                    &&& r.id == base_id + k
                } by {
                    if k < done {
                        assert(this.state.records()[base_len + k] == pre_records[base_len + k]);
                    } else {
                        assert(this.state.records()[base_len + k]
                            == this.state.records().last());
                    }
                }
            }
        }
        this
    }

    /// Fix the canvas bounds from the display surface and resolve every
    /// entity's starting position. Placement failure is fatal for startup.
    pub fn init(&mut self, bounds: Bounds) -> (r: Result<(), GameError>)
        requires
            old(self).spec_state().wf(),
            forall|i: int|
                0 <= i < old(self).spec_state().records().len() ==> !(#[trigger] old(
                    self,
                ).spec_state().records()[i]).positioned(),
        ensures
            final(self).same_config(old(self)),
            final(self).spec_state().records().len() == old(self).spec_state().records().len(),
            r is Ok ==> final(self).ready(),
            r is Err ==> r == Err::<(), GameError>(GameError::OutOfBounds),
            old(self).spec_state().records().len() == 0 ==> r is Ok,
    {
        self.state.set_bounds(bounds);
        match self.state.set_starting_positions() {
            Ok(()) => Ok(()),
            Err(e) => Err(e),
        }
    }

    /// Run one tick's decisions: consume the tick's input; on [`Input::Quit`]
    /// stop before any pass runs; otherwise run the collision and update
    /// pass, prune destroyed records, and rasterize the remaining ones.
    pub fn tick(&mut self, input: Input) -> (r: Result<TickOutcome, GameError>)
        requires
            old(self).ready(),
        ensures
            final(self).ready(),
            final(self).same_config(old(self)),
            input == Input::Quit ==> *final(self) == *old(self) && (r matches Ok(
                TickOutcome::Quit,
            )),
            input != Input::Quit ==> {
                &&& exists|mid: Seq<EntityState<E>>|
                    {
                        &&& #[trigger] updated_records(
                            old(self).spec_state().records(),
                            mid,
                            old(self).spec_state().spec_bounds().unwrap(),
                        )
                        &&& final(self).spec_state().records() == pruned(mid)
                    }
                &&& (r matches Ok(o) ==> o matches TickOutcome::Frame(ops) && ops@ == spec_render(
                    final(self).spec_state().records(),
                ))
                &&& (r is Err <==> !(forall|i: int|
                    0 <= i < final(self).spec_state().records().len() ==> cells_on_canvas(
                        (#[trigger] final(self).spec_state().records()[i]).pos.unwrap(),
                        final(self).spec_state().records()[i].rot,
                        final(self).spec_state().records()[i].sprite,
                        old(self).spec_state().spec_bounds().unwrap(),
                    )))
                &&& (r is Err ==> r == Err::<TickOutcome, GameError>(GameError::OutOfBounds))
            },
    {
        if input == Input::Quit {
            return Ok(TickOutcome::Quit);
        }
        self.state.update_entities(input);
        let ghost mid = self.state.records();
        self.state.prune();
        proof {
            assert forall|k: int|
                0 <= k < self.state.records().len() implies (#[trigger] self.state.records()[
                k]).positioned() by {
                let r = self.state.records()[k];
                assert(mid.contains(r));
                let m = choose|m: int| 0 <= m < mid.len() && mid[m] == r;
                assert(mid[m].positioned());
            }
        }
        match self.state.render_entities() {
            Ok(ops) => Ok(TickOutcome::Frame(ops)),
            Err(e) => Err(e),
        }
    }

    /// Bounds invariant: whenever the engine is ready to tick — so in
    /// particular after every completed tick, which ends ready — every
    /// record's box, its position plus its scaled sprite extent, lies
    /// strictly inside the canvas bounds.
    pub proof fn lemma_bounds_invariant(&self)
        requires
            self.ready(),
        ensures
            forall|i: int|
                0 <= i < self.spec_state().records().len()
                    ==> (#[trigger] self.spec_state().records()[i]).spec_within_bounds(
                    self.spec_state().spec_bounds().unwrap(),
                ),
    {
    }

    /// Read access to the entity state store.
    pub fn state(&self) -> (s: &State<E>)
        ensures
            *s == self.spec_state(),
    {
        &self.state
    }

    /// The configured title.
    pub fn title(&self) -> (t: &'static str)
        ensures
            t@ == self.spec_title(),
    {
        self.title
    }

    /// The configured frames-per-second.
    pub fn fps(&self) -> (f: u32)
        ensures
            f == self.spec_fps(),
    {
        self.fps
    }

    /// The configured UI color.
    pub fn ui_color(&self) -> (c: &ratatui::style::Color)
        ensures
            *c == self.spec_ui_color(),
    {
        &self.ui_color
    }

    /// The configured background color.
    pub fn bg_color(&self) -> (c: &ratatui::style::Color)
        ensures
            *c == self.spec_bg_color(),
    {
        &self.bg_color
    }
}

} // verus!
