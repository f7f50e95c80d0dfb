use sim_core::controls::{
    jump_default, load_default, move_back_default, move_forward_default,
    player_interact_1_default, player_interact_2_default, save_default, shoot_down_default,
    shoot_left_default, shoot_right_default, shoot_up_default, strafe_left_default,
    strafe_right_default, Control, ControlConfig, KeyCode, MouseButton,
};
use sim_core::direction::Direction;
use sim_core::external_event::ExternalEvent;
use sim_core::external_event_handler::ExternalEventHandler;
use sim_core::state_input_event::StateInputEvent;
use sim_core::vec2::Vec2;

fn press(key_code: KeyCode) -> ExternalEvent {
    ExternalEvent::KeyboardInput { key_code, pressed: true }
}

fn release(key_code: KeyCode) -> ExternalEvent {
    ExternalEvent::KeyboardInput { key_code, pressed: false }
}

fn handler() -> ExternalEventHandler {
    ExternalEventHandler::new(ControlConfig::default())
}

#[test]
fn default_bindings_are_the_documented_ones() {
    let config = ControlConfig::default();
    assert_eq!(config.move_forward, Control::Keyboard { key_code: KeyCode::W });
    assert_eq!(config.move_back, Control::Keyboard { key_code: KeyCode::S });
    assert_eq!(config.strafe_left, Control::Keyboard { key_code: KeyCode::A });
    assert_eq!(config.strafe_right, Control::Keyboard { key_code: KeyCode::D });
    assert_eq!(config.jump, Control::Keyboard { key_code: KeyCode::Space });
    assert_eq!(config.shoot_up, Control::Keyboard { key_code: KeyCode::Up });
    assert_eq!(config.shoot_right, Control::Keyboard { key_code: KeyCode::Right });
    assert_eq!(config.shoot_down, Control::Keyboard { key_code: KeyCode::Down });
    assert_eq!(config.shoot_left, Control::Keyboard { key_code: KeyCode::Left });
    assert_eq!(config.player_interact_1, Control::Mouse { mouse_button: MouseButton::Left });
    assert_eq!(config.player_interact_2, Control::Mouse { mouse_button: MouseButton::Right });
    assert_eq!(config.save, Control::Keyboard { key_code: KeyCode::S });
    assert_eq!(config.load, Control::Keyboard { key_code: KeyCode::L });
}

#[test]
fn each_default_is_the_binding_of_its_action() {
    let config = ControlConfig::default();
    assert_eq!(move_forward_default(), config.move_forward);
    assert_eq!(move_back_default(), config.move_back);
    assert_eq!(strafe_right_default(), config.strafe_right);
    assert_eq!(strafe_left_default(), config.strafe_left);
    assert_eq!(jump_default(), config.jump);
    assert_eq!(save_default(), config.save);
    assert_eq!(load_default(), config.load);
    assert_eq!(player_interact_1_default(), config.player_interact_1);
    assert_eq!(player_interact_2_default(), config.player_interact_2);
    assert_eq!(shoot_right_default(), config.shoot_right);
    assert_eq!(shoot_up_default(), config.shoot_up);
    assert_eq!(shoot_left_default(), config.shoot_left);
    assert_eq!(shoot_down_default(), config.shoot_down);
}

#[test]
fn synthetic_and_nameless_key_reports_are_dropped() {
    assert_eq!(
        ExternalEvent::from_keyboard_input(Some(KeyCode::W), true, false),
        Some(ExternalEvent::KeyboardInput { key_code: KeyCode::W, pressed: true })
    );
    assert_eq!(
        ExternalEvent::from_keyboard_input(Some(KeyCode::Other(77)), false, false),
        Some(ExternalEvent::KeyboardInput { key_code: KeyCode::Other(77), pressed: false })
    );
    assert_eq!(ExternalEvent::from_keyboard_input(Some(KeyCode::W), true, true), None);
    assert_eq!(ExternalEvent::from_keyboard_input(None, true, false), None);
}

#[test]
fn a_press_fires_once_while_the_control_is_held() {
    let mut handler = handler();
    handler.handle_event(press(KeyCode::Space));
    handler.handle_event(press(KeyCode::Space));
    handler.handle_event(press(KeyCode::Space));
    assert!(handler.control_state(Control::Keyboard { key_code: KeyCode::Space }));
    assert_eq!(handler.tick_events(), vec![StateInputEvent::Jump]);
    assert_eq!(handler.tick_events(), vec![]);
    handler.handle_event(release(KeyCode::Space));
    assert!(!handler.control_state(Control::Keyboard { key_code: KeyCode::Space }));
    handler.handle_event(press(KeyCode::Space));
    assert_eq!(handler.tick_events(), vec![StateInputEvent::Jump]);
}

#[test]
fn a_release_of_a_control_that_is_not_held_does_nothing() {
    let mut handler = handler();
    handler.handle_event(release(KeyCode::Space));
    handler.handle_event(release(KeyCode::Right));
    assert_eq!(handler.tick_events(), vec![]);
}

#[test]
fn a_shot_fires_on_release_in_the_held_direction() {
    let mut handler = handler();
    handler.handle_event(press(KeyCode::Right));
    assert_eq!(handler.tick_events(), vec![StateInputEvent::Charge(Direction::Right)]);
    assert_eq!(handler.tick_events(), vec![StateInputEvent::Charge(Direction::Right)]);
    handler.handle_event(release(KeyCode::Right));
    assert_eq!(handler.tick_events(), vec![StateInputEvent::Shoot(Direction::Right)]);
    assert_eq!(handler.tick_events(), vec![]);
}

#[test]
fn every_held_shoot_control_charges() {
    let mut handler = handler();
    handler.handle_inputs(&vec![press(KeyCode::Down), press(KeyCode::Up), press(KeyCode::Left)]);
    assert_eq!(
        handler.tick_events(),
        vec![
            StateInputEvent::Charge(Direction::Up),
            StateInputEvent::Charge(Direction::Left),
            StateInputEvent::Charge(Direction::Down)
        ]
    );
}

#[test]
fn movement_is_summed_without_being_shortened() {
    let mut handler = handler();
    handler.handle_inputs(&vec![press(KeyCode::W), press(KeyCode::D)]);
    assert_eq!(
        handler.tick_events(),
        vec![StateInputEvent::MovePlayerRelative { delta: Vec2 { x: 1, y: 1 } }]
    );
    handler.handle_event(press(KeyCode::S));
    assert_eq!(
        handler.tick_events(),
        vec![StateInputEvent::MovePlayerRelative { delta: Vec2 { x: 1, y: 0 } }]
    );
    handler.handle_event(press(KeyCode::A));
    assert_eq!(handler.tick_events(), vec![]);
    handler.handle_inputs(&vec![release(KeyCode::W), release(KeyCode::D)]);
    assert_eq!(
        handler.tick_events(),
        vec![StateInputEvent::MovePlayerRelative { delta: Vec2 { x: -1, y: -1 } }]
    );
}

#[test]
fn discrete_events_come_before_the_events_of_held_controls() {
    let mut handler = handler();
    handler.handle_inputs(&vec![
        press(KeyCode::W),
        press(KeyCode::Up),
        press(KeyCode::Space),
        release(KeyCode::Up),
        press(KeyCode::Left),
        ExternalEvent::MouseMotion { delta: Vec2 { x: 5, y: 5 } },
    ]);
    assert_eq!(
        handler.tick_events(),
        vec![
            StateInputEvent::Jump,
            StateInputEvent::Shoot(Direction::Up),
            StateInputEvent::MovePlayerRelative { delta: Vec2 { x: 0, y: 1 } },
            StateInputEvent::Charge(Direction::Left)
        ]
    );
}

#[test]
fn mouse_buttons_are_controls_too() {
    let mut config = ControlConfig::default();
    config.jump = Control::Mouse { mouse_button: MouseButton::Middle };
    config.shoot_up = Control::Mouse { mouse_button: MouseButton::Other(4) };
    let mut handler = ExternalEventHandler::new(config);
    handler.handle_event(ExternalEvent::MouseInput { button: MouseButton::Middle, pressed: true });
    handler.handle_event(ExternalEvent::MouseInput { button: MouseButton::Middle, pressed: true });
    handler.handle_event(press(KeyCode::Space));
    handler
        .handle_event(ExternalEvent::MouseInput { button: MouseButton::Other(4), pressed: true });
    assert!(handler.control_state(Control::Mouse { mouse_button: MouseButton::Other(4) }));
    assert!(!handler.control_state(Control::Mouse { mouse_button: MouseButton::Other(5) }));
    assert_eq!(
        handler.tick_events(),
        vec![StateInputEvent::Jump, StateInputEvent::Charge(Direction::Up)]
    );
    handler
        .handle_event(ExternalEvent::MouseInput { button: MouseButton::Other(4), pressed: false });
    assert_eq!(handler.tick_events(), vec![StateInputEvent::Shoot(Direction::Up)]);
}

#[test]
fn a_control_bound_to_two_shots_fires_both() {
    let mut config = ControlConfig::default();
    config.shoot_left = config.shoot_right;
    let mut handler = ExternalEventHandler::new(config);
    handler.handle_event(press(KeyCode::Right));
    handler.handle_event(release(KeyCode::Right));
    assert_eq!(
        handler.tick_events(),
        vec![StateInputEvent::Shoot(Direction::Right), StateInputEvent::Shoot(Direction::Left)]
    );
}

#[test]
fn directions_have_names_and_unit_vectors() {
    assert_eq!(Direction::Up.lowercase(), "up");
    assert_eq!(Direction::Right.lowercase(), "right");
    assert_eq!(Direction::Down.lowercase(), "down");
    assert_eq!(Direction::Left.lowercase(), "left");
    assert_eq!(Vec2::from(Direction::Up), Vec2 { x: 0, y: 1 });
    assert_eq!(Vec2::from(Direction::Right), Vec2 { x: 1, y: 0 });
    assert_eq!(Vec2::from(Direction::Down), Vec2 { x: 0, y: -1 });
    assert_eq!(Vec2::from(Direction::Left), Vec2 { x: -1, y: 0 });
}
