//! Turns raw input events into commands for the application.
use vstd::prelude::*;
use crate::scalar::{Scalar, SCALE};
use crate::vector::Vec2;

verus! {

/// The keys that the application tells apart.
#[derive(Clone, Copy, Debug, PartialEq, Eq, Structural)]
pub enum Key {
    Escape,
    KeyP,
    Space,
    KeyC,
    KeyV,
    Other,
}

/// The mouse buttons that the application tells apart.
#[derive(Clone, Copy, Debug, PartialEq, Eq, Structural)]
pub enum Button {
    Left,
    Right,
    Other,
}

/// Which modifier keys are held.
#[derive(Clone, Copy, Debug, PartialEq, Eq, Structural)]
pub struct Modifiers {
    pub shift: bool,
    pub control: bool,
    pub alt: bool,
    pub logo: bool,
}

/// What the application is asked to do.
#[derive(Clone, Copy, Debug, PartialEq, Eq, Structural)]
pub enum InputCommand {
    Exit,
    TogglePause,
    /// A left click at `position`, in normalized device coordinates.
    Click { position: Vec2 },
    /// A right click at `position`, in normalized device coordinates.
    RightClick { position: Vec2 },
}

/// A pixel position in normalized device coordinates: the window's left
/// edge is minus one and its right edge one, its top edge is one and its
/// bottom edge minus one. A window without extent maps everything to the
/// centre.
pub open spec fn ndc_of(position: Vec2, width: u32, height: u32) -> Vec2 {
    if width == 0 || height == 0 {
        Vec2 { x: Scalar { raw: 0 }, y: Scalar { raw: 0 } }
    } else {
        let two = Scalar { raw: (2 * SCALE) as i64 };
        let one = Scalar { raw: SCALE };
        Vec2 {
            x: position.x.div_spec(Scalar::of(width * SCALE)).mul_spec(two).sub_spec(one),
            y: one.sub_spec(position.y.div_spec(Scalar::of(height * SCALE)).mul_spec(two)),
        }
    }
}

/// The command that a key gives: escape exits, P and space toggle the
/// pause, and no other key gives any.
pub open spec fn command_of_key(key: Key) -> Option<InputCommand> {
    match key {
        Key::Escape => Some(InputCommand::Exit),
        Key::KeyP => Some(InputCommand::TogglePause),
        Key::Space => Some(InputCommand::TogglePause),
        _ => None,
    }
}

/// The command that a mouse button gives: none when it is released, nor
/// while the cursor's position is unknown; else a click of the left or
/// the right button at the cursor.
pub open spec fn command_of_button(cursor: Option<Vec2>, button: Button, pressed: bool) -> Option<
    InputCommand,
> {
    if !pressed {
        None
    } else {
        match (button, cursor) {
            (Button::Left, Some(position)) => Some(InputCommand::Click { position }),
            (Button::Right, Some(position)) => Some(InputCommand::RightClick { position }),
            _ => None,
        }
    }
}

/// What is known of keyboard, cursor and window.
#[derive(Clone, Copy, Debug)]
pub struct InputSystem {
    pub modifiers: Modifiers,
    /// The cursor in pixels from the window's top left corner.
    pub cursor_position: Option<Vec2>,
    /// The cursor in normalized device coordinates.
    pub cursor_ndc: Option<Vec2>,
    /// Width and height of the window in pixels.
    pub window_size: (u32, u32),
}

impl InputSystem {
    /// No modifier held, no cursor seen, a window of 800 by 600.
    pub fn new() -> (input: InputSystem)
        ensures
            input == (InputSystem {
                modifiers: Modifiers { shift: false, control: false, alt: false, logo: false },
                cursor_position: None,
                cursor_ndc: None,
                window_size: (800u32, 600u32),
            }),
    {
        InputSystem {
            modifiers: Modifiers { shift: false, control: false, alt: false, logo: false },
            cursor_position: None,
            cursor_ndc: None,
            window_size: (800, 600),
        }
    }

    pub fn update_modifiers(&mut self, modifiers: Modifiers)
        ensures
            *final(self) == (InputSystem { modifiers, ..*old(self) }),
    {
        self.modifiers = modifiers;
    }

    /// Records the window's size and places a known cursor anew.
    pub fn update_window_size(&mut self, width: u32, height: u32)
        ensures
            *final(self) == (InputSystem {
                window_size: (width, height),
                cursor_ndc: match old(self).cursor_position {
                    Some(position) => Some(ndc_of(position, width, height)),
                    None => old(self).cursor_ndc,
                },
                ..*old(self)
            }),
    {
        self.window_size = (width, height);
        match self.cursor_position {
            Some(position) => {
                self.cursor_ndc = Some(self.physical_to_ndc(position, width, height));
            },
            None => {},
        }
    }

    /// Records the cursor at `position`, in pixels.
    pub fn update_cursor(&mut self, position: Vec2)
        ensures
            *final(self) == (InputSystem {
                cursor_position: Some(position),
                cursor_ndc: Some(
                    ndc_of(position, old(self).window_size.0, old(self).window_size.1),
                ),
                ..*old(self)
            }),
    {
        self.cursor_position = Some(position);
        self.cursor_ndc = Some(
            self.physical_to_ndc(position, self.window_size.0, self.window_size.1),
        );
    }

    pub fn handle_key(&self, key: Key) -> (command: Option<InputCommand>)
        ensures
            command == command_of_key(key),
    {
        match key {
            Key::Escape => Some(InputCommand::Exit),
            Key::KeyP => Some(InputCommand::TogglePause),
            Key::Space => Some(InputCommand::TogglePause),
            _ => None,
        }
    }

    pub fn handle_mouse_button(&self, button: Button, pressed: bool) -> (command: Option<
        InputCommand,
    >)
        ensures
            command == command_of_button(self.cursor_ndc, button, pressed),
    {
        if !pressed {
            return None;
        }
        match button {
            Button::Left => match self.cursor_ndc {
                Some(position) => Some(InputCommand::Click { position }),
                None => None,
            },
            Button::Right => match self.cursor_ndc {
                Some(position) => Some(InputCommand::RightClick { position }),
                None => None,
            },
            Button::Other => None,
        }
    }

    /// Converts a position in pixels to normalized device coordinates.
    pub fn physical_to_ndc(&self, position: Vec2, width: u32, height: u32) -> (ndc: Vec2)
        ensures
            ndc == ndc_of(position, width, height),
    {
        if width == 0 || height == 0 {
            return Vec2::new(Scalar::from_raw(0), Scalar::from_raw(0));
        }
        let two = Scalar::from_raw(2 * SCALE);
        let one = Scalar::from_raw(SCALE);
        assert(0 <= width * SCALE <= 0xffff_ffff * SCALE) by (nonlinear_arith)
            requires
                0 <= width <= 0xffff_ffff,
                SCALE > 0,
        ;
        assert(0 <= height * SCALE <= 0xffff_ffff * SCALE) by (nonlinear_arith)
            requires
                0 <= height <= 0xffff_ffff,
                SCALE > 0,
        ;
        Vec2::new(
            position.x.div(Scalar::from_u32(width)).mul(two).sub(one),
            one.sub(position.y.div(Scalar::from_u32(height)).mul(two)),
        )
    }
}

} // verus!
