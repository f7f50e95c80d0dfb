use sim_core::animation::Animation;
use sim_core::components::{Asset, Position};
use sim_core::draw_state::DrawState;
use sim_core::handoff::FrameSlot;
use sim_core::vec2::Vec2;

fn item(name: &str, y: i32) -> (Asset, Position) {
    (
        Asset { name: name.to_string(), animation: 0, animation_start_time: 0 },
        Position { x: 0, y },
    )
}

fn names(state: &DrawState) -> Vec<String> {
    state.entities().iter().map(|entry| entry.0.name.clone()).collect()
}

#[test]
fn a_snapshot_runs_from_the_highest_to_the_lowest() {
    let state = DrawState::new(
        vec![item("a", 1), item("b", 5), item("c", -3), item("d", 5), item("e", 1)],
        Vec2 { x: 7, y: 8 },
        99,
    );
    assert_eq!(names(&state), vec!["b", "d", "a", "e", "c"]);
    assert_eq!(state.camera_offset(), Vec2 { x: 7, y: 8 });
    assert_eq!(state.time(), 99);
    let heights: Vec<i32> = state.entities().iter().map(|entry| entry.1.y).collect();
    assert_eq!(heights, vec![5, 5, 1, 1, -3]);
}

#[test]
fn an_empty_snapshot_is_empty() {
    let state = DrawState::new(Vec::new(), Vec2 { x: 0, y: 0 }, 0);
    assert!(state.entities().is_empty());
}

#[test]
fn the_slot_holds_the_most_recent_snapshot_only() {
    let mut slot = FrameSlot::new();
    assert!(slot.take().is_none());
    assert!(!slot.publish(DrawState::new(vec![item("first", 0)], Vec2 { x: 0, y: 0 }, 1)));
    assert!(slot.publish(DrawState::new(vec![item("second", 0)], Vec2 { x: 0, y: 0 }, 2)));
    assert!(slot.publish(DrawState::new(vec![item("third", 0)], Vec2 { x: 0, y: 0 }, 3)));
    let fetched = slot.take().unwrap();
    assert_eq!(fetched.time(), 3);
    assert_eq!(names(&fetched), vec!["third"]);
    assert!(slot.take().is_none());
    assert!(!slot.publish(DrawState::new(Vec::new(), Vec2 { x: 0, y: 0 }, 4)));
    assert_eq!(slot.take().unwrap().time(), 4);
}

#[test]
fn a_looping_animation_starts_over() {
    let animation = Animation::new(vec![6, 7, 38, 39], 200, false);
    assert_eq!(animation.steps(), 4);
    assert_eq!(animation.time_per_frame(), 200);
    assert_eq!(animation.index(0), 6);
    assert_eq!(animation.index(3), 39);
    assert_eq!(animation.index(4), 6);
    assert_eq!(animation.index(usize::MAX), [6, 7, 38, 39][usize::MAX % 4]);
    assert_eq!(animation.frame_at(0), Some(6));
    assert_eq!(animation.frame_at(199), Some(6));
    assert_eq!(animation.frame_at(200), Some(7));
    assert_eq!(animation.frame_at(1_000), Some(7));
}

#[test]
fn a_one_off_animation_stays_on_its_last_frame() {
    let animation = Animation::new(vec![8, 9, 10, 63], 125, true);
    assert_eq!(animation.index(0), 8);
    assert_eq!(animation.index(2), 10);
    assert_eq!(animation.index(3), 63);
    assert_eq!(animation.index(4), 63);
    assert_eq!(animation.index(usize::MAX), 63);
    assert_eq!(animation.frame_at(374), Some(10));
    assert_eq!(animation.frame_at(375), Some(63));
    assert_eq!(animation.frame_at(u64::MAX), Some(63));
}

#[test]
fn an_animation_without_frames_or_frame_time_shows_nothing() {
    assert_eq!(Animation::new(Vec::new(), 100, false).frame_at(5), None);
    assert_eq!(Animation::new(vec![1, 2], 0, false).frame_at(5), None);
    assert_eq!(Animation::new(Vec::new(), 100, true).steps(), 0);
}
