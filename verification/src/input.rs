//! Gameplay actions and their default key and mouse-button bindings.

use vstd::prelude::*;
use std::collections::HashMap;

verus! {

/// What the player can ask of the simulation.
#[derive(Debug, Clone, Copy, Hash, Eq, PartialEq, Structural)]
pub enum Action {
    MoveLeft,
    MoveRight,
    MoveUp,
    MoveDown,
    Shoot,
    RotateLeft,
    RotateRight,
    Pickup,
    Boost,
}

/// Physical keys the engine recognizes for binding.
#[derive(Debug, Clone, Copy, Hash, Eq, PartialEq, Structural)]
pub enum VirtualKey {
    Up,
    Down,
    Left,
    Right,
    W,
    A,
    S,
    D,
    Space,
    Q,
    E,
    F,
}

/// Mouse buttons the engine recognizes for binding.
#[derive(Debug, Clone, Copy, Hash, Eq, PartialEq, Structural)]
pub enum VirtualButton {
    Button1,
    Button2,
}

/// The default keyboard bindings: arrows and WASD for movement, space to
/// boost, Q/E to rotate, F to pick up.
pub fn get_default_button_mapping() -> HashMap<VirtualKey, Action> {
    let mut m = HashMap::new();
    m.insert(VirtualKey::Up, Action::MoveUp);
    m.insert(VirtualKey::W, Action::MoveUp);
    m.insert(VirtualKey::Left, Action::MoveLeft);
    m.insert(VirtualKey::A, Action::MoveLeft);
    m.insert(VirtualKey::Right, Action::MoveRight);
    m.insert(VirtualKey::D, Action::MoveRight);
    m.insert(VirtualKey::Space, Action::Boost);
    m.insert(VirtualKey::Q, Action::RotateLeft);
    m.insert(VirtualKey::E, Action::RotateRight);
    m.insert(VirtualKey::F, Action::Pickup);
    m
}

/// The default mouse bindings: the primary button shoots.
pub fn get_default_mouse_mapping() -> HashMap<VirtualButton, Action> {
    let mut m = HashMap::new();
    m.insert(VirtualButton::Button1, Action::Shoot);
    m
}

} // verus!
