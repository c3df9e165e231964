use physics2d::scalar::Scalar;
use physics2d::systems::input::{Button, InputCommand, InputSystem, Key, Modifiers};
use physics2d::vector::Vec2;

fn units(x: f64) -> Scalar {
    Scalar::from_raw((x * 1e9).round() as i64)
}

fn at(x: f64, y: f64) -> Vec2 {
    Vec2::new(units(x), units(y))
}

#[test]
fn a_new_input_system_knows_no_cursor() {
    let input = InputSystem::new();
    assert_eq!(input.window_size, (800, 600));
    assert_eq!(input.cursor_position, None);
    assert_eq!(input.cursor_ndc, None);
    assert_eq!(
        input.modifiers,
        Modifiers { shift: false, control: false, alt: false, logo: false }
    );
}

#[test]
fn keys_give_commands() {
    let mut input = InputSystem::new();
    assert_eq!(input.handle_key(Key::Escape), Some(InputCommand::Exit));
    assert_eq!(input.handle_key(Key::KeyP), Some(InputCommand::TogglePause));
    assert_eq!(input.handle_key(Key::Space), Some(InputCommand::TogglePause));
    assert_eq!(input.handle_key(Key::KeyC), None);
    assert_eq!(input.handle_key(Key::KeyV), None);
    assert_eq!(input.handle_key(Key::Other), None);
    input.update_modifiers(Modifiers { shift: false, control: true, alt: false, logo: false });
    assert!(input.modifiers.control);
    assert_eq!(input.handle_key(Key::KeyC), None);
    assert_eq!(input.handle_key(Key::KeyV), None);
    assert_eq!(input.handle_key(Key::Escape), Some(InputCommand::Exit));
}

#[test]
fn pixels_map_to_normalized_device_coordinates() {
    let input = InputSystem::new();
    assert_eq!(input.physical_to_ndc(at(0.0, 0.0), 800, 600), at(-1.0, 1.0));
    assert_eq!(input.physical_to_ndc(at(800.0, 600.0), 800, 600), at(1.0, -1.0));
    assert_eq!(input.physical_to_ndc(at(400.0, 300.0), 800, 600), at(0.0, 0.0));
    assert_eq!(input.physical_to_ndc(at(200.0, 150.0), 800, 600), at(-0.5, 0.5));
    assert_eq!(input.physical_to_ndc(at(100.5, 0.0), 300, 600).x.raw(), -330_000_000);
}

#[test]
fn a_window_without_extent_maps_to_the_centre() {
    let input = InputSystem::new();
    assert_eq!(input.physical_to_ndc(at(10.0, 10.0), 0, 600), at(0.0, 0.0));
    assert_eq!(input.physical_to_ndc(at(10.0, 10.0), 800, 0), at(0.0, 0.0));
}

#[test]
fn clicks_need_a_cursor_and_a_press() {
    let mut input = InputSystem::new();
    assert_eq!(input.handle_mouse_button(Button::Left, true), None);
    input.update_cursor(at(200.0, 150.0));
    assert_eq!(input.cursor_position, Some(at(200.0, 150.0)));
    assert_eq!(input.cursor_ndc, Some(at(-0.5, 0.5)));
    assert_eq!(
        input.handle_mouse_button(Button::Left, true),
        Some(InputCommand::Click { position: at(-0.5, 0.5) })
    );
    assert_eq!(
        input.handle_mouse_button(Button::Right, true),
        Some(InputCommand::RightClick { position: at(-0.5, 0.5) })
    );
    assert_eq!(input.handle_mouse_button(Button::Other, true), None);
    assert_eq!(input.handle_mouse_button(Button::Left, false), None);
    assert_eq!(input.handle_mouse_button(Button::Right, false), None);
}

#[test]
fn resizing_the_window_places_the_cursor_anew() {
    let mut input = InputSystem::new();
    input.update_window_size(400, 300);
    assert_eq!(input.window_size, (400, 300));
    assert_eq!(input.cursor_ndc, None);
    input.update_cursor(at(200.0, 150.0));
    assert_eq!(input.cursor_ndc, Some(at(0.0, 0.0)));
    input.update_window_size(800, 600);
    assert_eq!(input.cursor_position, Some(at(200.0, 150.0)));
    assert_eq!(input.cursor_ndc, Some(at(-0.5, 0.5)));
}
