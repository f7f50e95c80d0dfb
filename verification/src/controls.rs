//! Physical controls and the table that binds actions to them.
use vstd::prelude::*;

verus! {

/// A keyboard key. The keys that the default bindings use have names of
/// their own; any other key is known by the code that the windowing layer
/// gives it.
#[derive(Clone, Copy, Debug, PartialEq, Eq, Structural)]
pub enum KeyCode {
    W,
    A,
    S,
    D,
    L,
    Space,
    Up,
    Right,
    Down,
    Left,
    Other(u32),
}

/// A mouse button; one beyond the usual three is known by its number.
#[derive(Clone, Copy, Debug, PartialEq, Eq, Structural)]
pub enum MouseButton {
    Left,
    Right,
    Middle,
    Other(u16),
}

/// A physical control: a mouse button or a keyboard key, never both.
#[derive(Clone, Copy, Debug, PartialEq, Eq, Structural)]
pub enum Control {
    Mouse { mouse_button: MouseButton },
    Keyboard { key_code: KeyCode },
}

/// The control that each action is bound to.
#[derive(Clone, Copy, Debug, PartialEq, Eq, Structural)]
pub struct ControlConfig {
    pub move_forward: Control,
    pub move_back: Control,
    pub strafe_right: Control,
    pub strafe_left: Control,
    pub jump: Control,
    pub save: Control,
    pub load: Control,
    pub player_interact_1: Control,
    pub player_interact_2: Control,
    pub shoot_right: Control,
    pub shoot_up: Control,
    pub shoot_left: Control,
    pub shoot_down: Control,
}

/// The keyboard key as a control.
pub open spec fn key(key_code: KeyCode) -> Control {
    Control::Keyboard { key_code }
}

/// The mouse button as a control.
pub open spec fn button(mouse_button: MouseButton) -> Control {
    Control::Mouse { mouse_button }
}

/// The bindings that hold where nothing else was configured.
pub open spec fn default_bindings() -> ControlConfig {
    ControlConfig {
        move_forward: key(KeyCode::W),
        move_back: key(KeyCode::S),
        strafe_right: key(KeyCode::D),
        strafe_left: key(KeyCode::A),
        jump: key(KeyCode::Space),
        save: key(KeyCode::S),
        load: key(KeyCode::L),
        player_interact_1: button(MouseButton::Left),
        player_interact_2: button(MouseButton::Right),
        shoot_right: key(KeyCode::Right),
        shoot_up: key(KeyCode::Up),
        shoot_left: key(KeyCode::Left),
        shoot_down: key(KeyCode::Down),
    }
}

impl Default for ControlConfig {
    fn default() -> (config: ControlConfig)
        ensures
            config == default_bindings(),
    {
        ControlConfig {
            move_forward: move_forward_default(),
            move_back: move_back_default(),
            strafe_right: strafe_right_default(),
            strafe_left: strafe_left_default(),
            jump: jump_default(),
            save: save_default(),
            load: load_default(),
            player_interact_1: player_interact_1_default(),
            player_interact_2: player_interact_2_default(),
            shoot_right: shoot_right_default(),
            shoot_up: shoot_up_default(),
            shoot_left: shoot_left_default(),
            shoot_down: shoot_down_default(),
        }
    }
}

pub fn move_forward_default() -> (control: Control)
    ensures
        control == default_bindings().move_forward,
{
    Control::Keyboard { key_code: KeyCode::W }
}

pub fn move_back_default() -> (control: Control)
    ensures
        control == default_bindings().move_back,
{
    Control::Keyboard { key_code: KeyCode::S }
}

pub fn strafe_right_default() -> (control: Control)
    ensures
        control == default_bindings().strafe_right,
{
    Control::Keyboard { key_code: KeyCode::D }
}

pub fn strafe_left_default() -> (control: Control)
    ensures
        control == default_bindings().strafe_left,
{
    Control::Keyboard { key_code: KeyCode::A }
}

pub fn jump_default() -> (control: Control)
    ensures
        control == default_bindings().jump,
{
    Control::Keyboard { key_code: KeyCode::Space }
}

pub fn save_default() -> (control: Control)
    ensures
        control == default_bindings().save,
{
    Control::Keyboard { key_code: KeyCode::S }
}

pub fn load_default() -> (control: Control)
    ensures
        control == default_bindings().load,
{
    Control::Keyboard { key_code: KeyCode::L }
}

pub fn player_interact_1_default() -> (control: Control)
    ensures
        control == default_bindings().player_interact_1,
{
    Control::Mouse { mouse_button: MouseButton::Left }
}

pub fn player_interact_2_default() -> (control: Control)
    ensures
        control == default_bindings().player_interact_2,
{
    Control::Mouse { mouse_button: MouseButton::Right }
}

pub fn shoot_right_default() -> (control: Control)
    ensures
        control == default_bindings().shoot_right,
{
    Control::Keyboard { key_code: KeyCode::Right }
}

pub fn shoot_up_default() -> (control: Control)
    ensures
        control == default_bindings().shoot_up,
{
    Control::Keyboard { key_code: KeyCode::Up }
}

pub fn shoot_left_default() -> (control: Control)
    ensures
        control == default_bindings().shoot_left,
{
    Control::Keyboard { key_code: KeyCode::Left }
}

pub fn shoot_down_default() -> (control: Control)
    ensures
        control == default_bindings().shoot_down,
{
    Control::Keyboard { key_code: KeyCode::Down }
}

} // verus!
