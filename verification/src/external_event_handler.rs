//! Translates external events into state input events.
//!
//! A press or release produces its event at the moment the control changes
//! state, so a control that is held does not fire again. Movement and
//! charging are read off the held controls once per tick.
use vstd::prelude::*;
use crate::controls::{Control, ControlConfig};
use crate::direction::Direction;
use crate::external_event::ExternalEvent;
use crate::state_input_event::StateInputEvent;
use crate::vec2::Vec2;

verus! {

/// Handles external events and produces state input events.
pub struct ExternalEventHandler {
    /// The controls that are down, each once.
    held: Vec<Control>,
    /// The state events generated since the last tick.
    tick_state_events: Vec<StateInputEvent>,
    /// Configuration for controls.
    control_config: ControlConfig,
}

/// What an [`ExternalEventHandler`] stands for: the set of controls that are
/// down, the events waiting for the next tick, and the bindings.
pub struct HandlerState {
    pub held: Set<Control>,
    pub pending: Seq<StateInputEvent>,
    pub config: ControlConfig,
}

/// The one event `event` if `fires`, else none.
pub open spec fn one_if(fires: bool, event: StateInputEvent) -> Seq<StateInputEvent> {
    if fires {
        seq![event]
    } else {
        Seq::empty()
    }
}

/// The events that pressing `control` produces.
pub open spec fn press_events(config: ControlConfig, control: Control) -> Seq<StateInputEvent> {
    one_if(control == config.jump, StateInputEvent::Jump)
}

/// The events that releasing `control` produces.
pub open spec fn release_events(config: ControlConfig, control: Control) -> Seq<
    StateInputEvent,
> {
    one_if(control == config.shoot_right, StateInputEvent::Shoot(Direction::Right)) + one_if(
        control == config.shoot_up,
        StateInputEvent::Shoot(Direction::Up),
    ) + one_if(control == config.shoot_left, StateInputEvent::Shoot(Direction::Left)) + one_if(
        control == config.shoot_down,
        StateInputEvent::Shoot(Direction::Down),
    )
}

/// The state after `control` went down or up. Only a change of state has
/// an effect.
pub open spec fn after_control(state: HandlerState, control: Control, pressed: bool)
    -> HandlerState {
    if pressed && !state.held.contains(control) {
        HandlerState {
            held: state.held.insert(control),
            pending: state.pending + press_events(state.config, control),
            config: state.config,
        }
    } else if !pressed && state.held.contains(control) {
        HandlerState {
            held: state.held.remove(control),
            pending: state.pending + release_events(state.config, control),
            config: state.config,
        }
    } else {
        state
    }
}

/// The state after one external event.
pub open spec fn after_event(state: HandlerState, event: ExternalEvent) -> HandlerState {
    match event {
        ExternalEvent::MouseMotion { delta } => state,
        ExternalEvent::KeyboardInput { key_code, pressed } => after_control(
            state,
            Control::Keyboard { key_code },
            pressed,
        ),
        ExternalEvent::MouseInput { button, pressed } => after_control(
            state,
            Control::Mouse { mouse_button: button },
            pressed,
        ),
    }
}

/// The state after a run of external events, in order.
pub open spec fn after_events(state: HandlerState, events: Seq<ExternalEvent>) -> HandlerState
    decreases events.len(),
{
    if events.len() == 0 {
        state
    } else {
        after_event(after_events(state, events.drop_last()), events.last())
    }
}

/// One if the control is down, else zero.
pub open spec fn weight(held: Set<Control>, control: Control) -> int {
    if held.contains(control) {
        1
    } else {
        0
    }
}

/// The sum of the unit vectors of the movement controls that are down.
/// The sum is not brought to length one: moving diagonally is faster.
pub open spec fn move_vector(state: HandlerState) -> Vec2 {
    Vec2 {
        x: (weight(state.held, state.config.strafe_right) - weight(
            state.held,
            state.config.strafe_left,
        )) as i32,
        y: (weight(state.held, state.config.move_forward) - weight(
            state.held,
            state.config.move_back,
        )) as i32,
    }
}

/// The events that the held controls produce in a tick: a move where the
/// movement controls do not cancel out, then a charge for each shoot control
/// that is down.
pub open spec fn level_events(state: HandlerState) -> Seq<StateInputEvent> {
    one_if(
        move_vector(state) != (Vec2 { x: 0, y: 0 }),
        StateInputEvent::MovePlayerRelative { delta: move_vector(state) },
    ) + one_if(
        state.held.contains(state.config.shoot_right),
        StateInputEvent::Charge(Direction::Right),
    ) + one_if(state.held.contains(state.config.shoot_up), StateInputEvent::Charge(Direction::Up))
        + one_if(
        state.held.contains(state.config.shoot_left),
        StateInputEvent::Charge(Direction::Left),
    ) + one_if(
        state.held.contains(state.config.shoot_down),
        StateInputEvent::Charge(Direction::Down),
    )
}

impl View for ExternalEventHandler {
    type V = HandlerState;

    closed spec fn view(&self) -> HandlerState {
        HandlerState {
            held: Set::new(|control: Control| self.held@.contains(control)),
            pending: self.tick_state_events@,
            config: self.control_config,
        }
    }
}

impl ExternalEventHandler {
    #[verifier::type_invariant]
    spec fn each_held_once(self) -> bool {
        self.held@.no_duplicates()
    }

    /// A handler with the given bindings, no control down and no event
    /// waiting.
    pub fn new(control_config: ControlConfig) -> (handler: ExternalEventHandler)
        ensures
            handler@ == (HandlerState {
                held: Set::empty(),
                pending: Seq::empty(),
                config: control_config,
            }),
    {
        let handler = ExternalEventHandler {
            held: Vec::new(),
            tick_state_events: Vec::new(),
            control_config,
        };
        proof {
            assert(handler@.held =~= Set::<Control>::empty());
        }
        handler
    }

    fn place_of(&self, control: Control) -> (place: Option<usize>)
        ensures
            place is Some == self@.held.contains(control),
            place is Some ==> place->0 < self.held@.len() && self.held@[place->0 as int]
                == control,
    {
        let mut i: usize = 0;
        while i < self.held.len()
            invariant
                i <= self.held@.len(),
                forall|j: int| 0 <= j < i ==> self.held@[j] != control,
            decreases self.held.len() - i,
        {
            if self.held[i] == control {
                return Some(i);
            }
            i += 1;
        }
        None
    }

    /// Whether the control is down.
    pub fn control_state(&self, control: Control) -> (down: bool)
        ensures
            down == self@.held.contains(control),
    {
        self.place_of(control).is_some()
    }

    /// Handles a batch of external events in order.
    pub fn handle_inputs(&mut self, events: &Vec<ExternalEvent>)
        ensures
            final(self)@ == after_events(old(self)@, events@),
    {
        let mut i: usize = 0;
        proof {
            assert(events@.take(0) =~= Seq::<ExternalEvent>::empty());
        }
        while i < events.len()
            invariant
                i <= events@.len(),
                self@ == after_events(old(self)@, events@.take(i as int)),
            decreases events.len() - i,
        {
            proof {
                assert(events@.take(i + 1).drop_last() =~= events@.take(i as int));
            }
            self.handle_event(events[i]);
            i += 1;
        }
        proof {
            assert(events@.take(i as int) =~= events@);
        }
    }

    /// Handles the ExternalEvent by turning it into the right StateInputEvents.
    pub fn handle_event(&mut self, event: ExternalEvent)
        ensures
            final(self)@ == after_event(old(self)@, event),
    {
        match event {
            ExternalEvent::MouseMotion { delta: _ } => {},
            ExternalEvent::KeyboardInput { key_code, pressed } => {
                self.handle_control(Control::Keyboard { key_code }, pressed);
            },
            ExternalEvent::MouseInput { button, pressed } => {
                self.handle_control(Control::Mouse { mouse_button: button }, pressed);
            },
        }
    }

    fn handle_control(&mut self, control: Control, pressed: bool)
        ensures
            final(self)@ == after_control(old(self)@, control, pressed),
    {
        proof {
            use_type_invariant(&*self);
        }
        let place = self.place_of(control);
        let mut held: Vec<Control> = Vec::new();
        let mut pending: Vec<StateInputEvent> = Vec::new();
        std::mem::swap(&mut self.held, &mut held);
        std::mem::swap(&mut self.tick_state_events, &mut pending);
        let ghost held_before = held@;
        match place {
            None => {
                if pressed {
                    held.push(control);
                    handle_control_press(&mut pending, &self.control_config, control);
                    proof {
                        assert(held@.drop_last() =~= held_before);
                        assert forall|other: Control|
                            held@.contains(other) <==> old(self)@.held.insert(control).contains(
                                other,
                            ) by {
                            if held@.contains(other) {
                                let i = choose|i: int| 0 <= i < held@.len() && held@[i] == other;
                                if i < held_before.len() {
                                    assert(held_before[i] == other);
                                }
                            }
                            if held_before.contains(other) {
                                let i = choose|i: int|
                                    0 <= i < held_before.len() && held_before[i] == other;
                                assert(held@[i] == other);
                            }
                            if other == control {
                                assert(held@[held@.len() - 1] == control);
                            }
                        }
                    }
                }
            },
            Some(index) => {
                if !pressed {
                    held.remove(index);
                    handle_control_release(&mut pending, &self.control_config, control);
                    proof {
                        assert forall|other: Control|
                            held@.contains(other) <==> old(self)@.held.remove(control).contains(
                                other,
                            ) by {
                            if held@.contains(other) {
                                let i = choose|i: int| 0 <= i < held@.len() && held@[i] == other;
                                if i < index {
                                    assert(held_before[i] == other);
                                } else {
                                    assert(held_before[i + 1] == other);
                                }
                            }
                            if held_before.contains(other) && other != control {
                                let i = choose|i: int|
                                    0 <= i < held_before.len() && held_before[i] == other;
                                if i < index {
                                    assert(held@[i] == other);
                                } else {
                                    assert(held@[i - 1] == other);
                                }
                            }
                        }
                    }
                }
            },
        }
        std::mem::swap(&mut self.held, &mut held);
        std::mem::swap(&mut self.tick_state_events, &mut pending);
        proof {
            assert(self@.held =~= after_control(old(self)@, control, pressed).held);
        }
    }

    /// Returns and clears the current event buffer, with the events that
    /// the held controls add for this tick at its end.
    pub fn tick_events(&mut self) -> (events: Vec<StateInputEvent>)
        ensures
            events@ == old(self)@.pending + level_events(old(self)@),
            final(self)@ == (HandlerState { pending: Seq::empty(), ..old(self)@ }),
    {
        proof {
            use_type_invariant(&*self);
        }
        let mut state_result: Vec<StateInputEvent> = Vec::new();
        std::mem::swap(&mut self.tick_state_events, &mut state_result);
        let ghost pending = state_result@;
        let mut move_x: i32 = 0;
        let mut move_y: i32 = 0;
        if self.control_state(self.control_config.move_forward) {
            move_y = move_y + 1;
        }
        if self.control_state(self.control_config.strafe_right) {
            move_x = move_x + 1;
        }
        if self.control_state(self.control_config.move_back) {
            move_y = move_y - 1;
        }
        if self.control_state(self.control_config.strafe_left) {
            move_x = move_x - 1;
        }
        if move_x != 0 || move_y != 0 {
            state_result.push(
                StateInputEvent::MovePlayerRelative { delta: Vec2 { x: move_x, y: move_y } },
            );
        }
        if self.control_state(self.control_config.shoot_right) {
            state_result.push(StateInputEvent::Charge(Direction::Right));
        }
        if self.control_state(self.control_config.shoot_up) {
            state_result.push(StateInputEvent::Charge(Direction::Up));
        }
        if self.control_state(self.control_config.shoot_left) {
            state_result.push(StateInputEvent::Charge(Direction::Left));
        }
        if self.control_state(self.control_config.shoot_down) {
            state_result.push(StateInputEvent::Charge(Direction::Down));
        }
        proof {
            assert(state_result@ =~= pending + level_events(old(self)@));
        }
        state_result
    }
}

/// Appends the events that pressing `control` produces.
fn handle_control_press(
    events: &mut Vec<StateInputEvent>,
    config: &ControlConfig,
    control: Control,
)
    ensures
        final(events)@ == old(events)@ + press_events(*config, control),
{
    if control == config.jump {
        events.push(StateInputEvent::Jump);
    }
    proof {
        assert(events@ =~= old(events)@ + press_events(*config, control));
    }
}

/// Appends the events that releasing `control` produces.
fn handle_control_release(
    events: &mut Vec<StateInputEvent>,
    config: &ControlConfig,
    control: Control,
)
    ensures
        final(events)@ == old(events)@ + release_events(*config, control),
{
    if control == config.shoot_right {
        events.push(StateInputEvent::Shoot(Direction::Right));
    }
    if control == config.shoot_up {
        events.push(StateInputEvent::Shoot(Direction::Up));
    }
    if control == config.shoot_left {
        events.push(StateInputEvent::Shoot(Direction::Left));
    }
    if control == config.shoot_down {
        events.push(StateInputEvent::Shoot(Direction::Down));
    }
    proof {
        assert(events@ =~= old(events)@ + release_events(*config, control));
    }
}

} // verus!
