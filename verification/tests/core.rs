//! Tests of the engine's building blocks: vectors, rotations, sprites, the
//! input slot, key decoding and the configuration builder.

use game::entity::{Effect, Entity, Frac, Input, Rotation, Sprite, Update};
use game::input::{decode_input, InputSlot, Key};
use game::{Engine, GameError};

/// A minimal entity for builder tests.
struct Still;

impl Entity for Still {
    fn start_pos(&self) -> (Frac, Frac) {
        (Frac { num: 500 }, Frac { num: 500 })
    }

    fn sprite(&self) -> Sprite {
        Sprite::new(1, 1, vec![(0, 0, 0)]).unwrap()
    }

    fn update(&mut self, _input: Input) -> Update {
        Update::Noop
    }

    fn collision(&mut self) -> Option<Effect> {
        None
    }

    fn effect(&mut self, _effect: Effect) {}
}

#[test]
fn vector_new_sets_components() {
    let v = game::entity::Vector::new(3, -4);
    assert_eq!(v.x, 3);
    assert_eq!(v.y, -4);
}

#[test]
fn rotation_quarter_turn_cycles_back() {
    for start in [
        Rotation::Zero,
        Rotation::HalfPi,
        Rotation::Pi,
        Rotation::ThreeHalvesPi,
    ] {
        let r = start
            .plus(Rotation::HalfPi)
            .plus(Rotation::HalfPi)
            .plus(Rotation::HalfPi)
            .plus(Rotation::HalfPi);
        assert_eq!(r, start);
    }
}

#[test]
fn rotation_addition_is_modular() {
    assert_eq!(Rotation::Zero.plus(Rotation::HalfPi), Rotation::HalfPi);
    assert_eq!(Rotation::Pi.plus(Rotation::Pi), Rotation::Zero);
    assert_eq!(Rotation::Pi.plus(Rotation::ThreeHalvesPi), Rotation::HalfPi);
    assert_eq!(
        Rotation::ThreeHalvesPi.plus(Rotation::ThreeHalvesPi),
        Rotation::Pi
    );
}

#[test]
fn sprite_requires_exact_pixel_count() {
    assert!(Sprite::new(2, 2, vec![(0, 0, 0); 4]).is_some());
    assert!(Sprite::new(2, 2, vec![(0, 0, 0); 3]).is_none());
    assert!(Sprite::new(0, 3, vec![]).is_some());
}

#[test]
fn sprite_pixels_are_row_major() {
    let pixels = vec![(1, 0, 0), (2, 0, 0), (3, 0, 0), (4, 0, 0), (5, 0, 0), (6, 0, 0)];
    let sprite = Sprite::new(3, 2, pixels).unwrap();
    assert_eq!(sprite.width(), 3);
    assert_eq!(sprite.height(), 2);
    assert_eq!(sprite.get_pixel(0, 0), (1, 0, 0));
    assert_eq!(sprite.get_pixel(2, 0), (3, 0, 0));
    assert_eq!(sprite.get_pixel(0, 1), (4, 0, 0));
    assert_eq!(sprite.get_pixel(2, 1), (6, 0, 0));
}

#[test]
fn input_slot_starts_empty() {
    let mut slot = InputSlot::new();
    assert_eq!(slot.take(), Input::Idle);
}

#[test]
fn input_slot_latest_write_wins() {
    let mut slot = InputSlot::new();
    slot.write(Input::Up);
    slot.write(Input::Down);
    assert_eq!(slot.take(), Input::Down);
}

#[test]
fn input_slot_take_resets() {
    let mut slot = InputSlot::new();
    slot.write(Input::Left);
    assert_eq!(slot.take(), Input::Left);
    assert_eq!(slot.take(), Input::Idle);
}

#[test]
fn decode_maps_quit_keys() {
    assert_eq!(decode_input(Key::Char('q'), false), Input::Quit);
    assert_eq!(decode_input(Key::Char('q'), true), Input::Quit);
    assert_eq!(decode_input(Key::Char('c'), true), Input::Quit);
    assert_eq!(decode_input(Key::Char('c'), false), Input::Idle);
}

#[test]
fn decode_maps_directions() {
    assert_eq!(decode_input(Key::Up, false), Input::Up);
    assert_eq!(decode_input(Key::Char('w'), false), Input::Up);
    assert_eq!(decode_input(Key::Down, false), Input::Down);
    assert_eq!(decode_input(Key::Char('s'), false), Input::Down);
    assert_eq!(decode_input(Key::Left, false), Input::Left);
    assert_eq!(decode_input(Key::Char('a'), false), Input::Left);
    assert_eq!(decode_input(Key::Right, false), Input::Right);
    assert_eq!(decode_input(Key::Char('d'), false), Input::Right);
}

#[test]
fn decode_ignores_other_keys() {
    assert_eq!(decode_input(Key::Char('x'), false), Input::Idle);
    assert_eq!(decode_input(Key::Other, false), Input::Idle);
    assert_eq!(decode_input(Key::Other, true), Input::Idle);
}

#[test]
fn builder_defaults() {
    let engine: Engine<Still> = Engine::new();
    assert_eq!(engine.fps(), 15);
    assert_eq!(engine.title(), "Game");
}

#[test]
fn builder_sets_title() {
    let engine: Engine<Still> = Engine::new().set_title("Snake");
    assert_eq!(engine.title(), "Snake");
}

#[test]
fn builder_rejects_fps_out_of_range() {
    let low = Engine::<Still>::new().set_fps(0);
    assert_eq!(
        low.err(),
        Some(GameError::InvalidArg(
            "fps must be between 1 and 30".to_string()
        ))
    );
    let high = Engine::<Still>::new().set_fps(31);
    assert!(matches!(high, Err(GameError::InvalidArg(_))));
}

#[test]
fn builder_accepts_fps_in_range() {
    assert_eq!(Engine::<Still>::new().set_fps(1).unwrap().fps(), 1);
    assert_eq!(Engine::<Still>::new().set_fps(30).unwrap().fps(), 30);
}

#[test]
fn builder_parses_colors() {
    assert!(Engine::<Still>::new().set_ui_color("#000000").is_ok());
    assert!(Engine::<Still>::new().set_ui_color("red").is_ok());
    assert!(Engine::<Still>::new().set_bg_color("#439155").is_ok());
}

#[test]
fn builder_stores_the_parsed_color() {
    let engine = Engine::<Still>::new().set_ui_color("#439155").unwrap();
    assert_eq!(*engine.ui_color(), ratatui::style::Color::Rgb(0x43, 0x91, 0x55));
    let engine = engine.set_bg_color("red").unwrap();
    assert_eq!(*engine.bg_color(), ratatui::style::Color::Red);
}

#[test]
fn builder_defaults_to_black_on_gray() {
    let engine: Engine<Still> = Engine::new();
    assert_eq!(*engine.ui_color(), ratatui::style::Color::Rgb(0x00, 0x00, 0x00));
    assert_eq!(*engine.bg_color(), ratatui::style::Color::Rgb(0x66, 0x66, 0x66));
}

#[test]
fn builder_rejects_bad_colors() {
    assert_eq!(
        Engine::<Still>::new().set_ui_color("not a color").err(),
        Some(GameError::InvalidColor(ratatui::style::ParseColorError))
    );
    assert_eq!(
        Engine::<Still>::new().set_bg_color("#12345").err(),
        Some(GameError::InvalidColor(ratatui::style::ParseColorError))
    );
}
