use sim_core::collision::aabb::{Aabb, AabbCorner};
use sim_core::collision::collision_mesh::{CollisionMesh, CollisionMeshManager};
use sim_core::collision::triangle::{Triangle, TriangleCorner, TriangleSide};
use sim_core::collision::world_collision_mesh::WorldCollisionMesh;
use sim_core::vec2::Vec2;

fn square(min_x: i32, min_y: i32, size: i32) -> Aabb {
    Aabb { min_x, min_y, max_x: min_x + size, max_y: min_y + size }
}

fn right_triangle() -> Triangle {
    Triangle::new(
        Vec2 { x: 0, y: 0 },
        Vec2 { x: 10_000, y: 0 },
        Vec2 { x: 0, y: 10_000 },
    )
}

#[test]
fn overlapping_boxes_collide_both_ways() {
    let a = square(0, 0, 10);
    let b = square(5, 5, 10);
    assert!(a.is_colliding(&b));
    assert!(b.is_colliding(&a));
}

#[test]
fn overlap_is_the_same_in_both_orders() {
    let boxes = [
        square(0, 0, 10),
        square(5, 5, 10),
        square(10, 0, 10),
        square(-3, 7, 4),
        Aabb { min_x: 4, min_y: 4, max_x: 2, max_y: 2 },
        square(100, 100, 1),
    ];
    for a in boxes.iter() {
        for b in boxes.iter() {
            assert_eq!(a.is_colliding(b), b.is_colliding(a));
        }
    }
}

#[test]
fn touching_boxes_do_not_collide() {
    let a = square(0, 0, 10);
    let b = square(10, 0, 10);
    assert!(!a.is_colliding(&b));
    assert!(!b.is_colliding(&a));
}

#[test]
fn corners_are_named_by_compass() {
    let a = Aabb { min_x: 1, min_y: 2, max_x: 3, max_y: 4 };
    assert_eq!(a.get_corner(AabbCorner::Sw), Vec2 { x: 1, y: 2 });
    assert_eq!(a.get_corner(AabbCorner::Se), Vec2 { x: 3, y: 2 });
    assert_eq!(a.get_corner(AabbCorner::Ne), Vec2 { x: 3, y: 4 });
    assert_eq!(a.get_corner(AabbCorner::Nw), Vec2 { x: 1, y: 4 });
}

#[test]
fn a_point_on_the_edge_is_not_inside() {
    let a = square(0, 0, 10);
    assert!(a.is_inside(Vec2 { x: 5, y: 5 }));
    assert!(!a.is_inside(Vec2 { x: 0, y: 5 }));
    assert!(!a.is_inside(Vec2 { x: 10, y: 5 }));
    assert!(!a.is_inside(Vec2 { x: 5, y: 11 }));
}

#[test]
fn surrounding_box_bounds_every_box() {
    let boxes = vec![
        Aabb { min_x: 0, min_y: 0, max_x: 10, max_y: 10 },
        Aabb { min_x: -7, min_y: 3, max_x: 2, max_y: 30 },
        Aabb { min_x: 4, min_y: -9, max_x: 25, max_y: 1 },
    ];
    let hull = Aabb::surrounding_aabb(&boxes);
    assert_eq!(hull, Aabb { min_x: -7, min_y: -9, max_x: 25, max_y: 30 });
    for inner in boxes.iter() {
        assert!(hull.min_x <= inner.min_x);
        assert!(hull.min_y <= inner.min_y);
        assert!(hull.max_x >= inner.max_x);
        assert!(hull.max_y >= inner.max_y);
    }
}

#[test]
fn surrounding_box_of_one_box_is_that_box() {
    let only = Aabb { min_x: 3, min_y: 4, max_x: 5, max_y: 6 };
    assert_eq!(Aabb::surrounding_aabb(&[only]), only);
}

#[test]
fn separating_vector_takes_the_shortest_way_out() {
    let a = Aabb { min_x: 0, min_y: 0, max_x: 10, max_y: 10 };
    let b = Aabb { min_x: 8, min_y: -5, max_x: 20, max_y: 30 };
    assert_eq!(a.closest_intersection_vector(&b), Vec2 { x: -2, y: 0 });
    let c = Aabb { min_x: -20, min_y: -5, max_x: 3, max_y: 30 };
    assert_eq!(a.closest_intersection_vector(&c), Vec2 { x: 3, y: 0 });
    let d = Aabb { min_x: -20, min_y: 6, max_x: 30, max_y: 30 };
    assert_eq!(a.closest_intersection_vector(&d), Vec2 { x: 0, y: -4 });
    let e = Aabb { min_x: -20, min_y: -30, max_x: 30, max_y: 1 };
    assert_eq!(a.closest_intersection_vector(&e), Vec2 { x: 0, y: 1 });
}

#[test]
fn separating_vector_breaks_ties_right_left_up_down() {
    let a = square(0, 0, 10);
    assert_eq!(a.closest_intersection_vector(&a), Vec2 { x: 10, y: 0 });
    let left_or_up = Aabb { min_x: 6, min_y: -20, max_x: 26, max_y: 4 };
    assert_eq!(a.closest_intersection_vector(&left_or_up), Vec2 { x: -4, y: 0 });
    let up_or_down = Aabb { min_x: -50, min_y: 5, max_x: 50, max_y: 5 };
    assert_eq!(a.closest_intersection_vector(&up_or_down), Vec2 { x: 0, y: 5 });
}

#[test]
fn moving_by_the_separating_vector_ends_the_overlap() {
    let a = square(0, 0, 10);
    let others = [
        Aabb { min_x: 8, min_y: -5, max_x: 20, max_y: 30 },
        Aabb { min_x: -20, min_y: -5, max_x: 3, max_y: 30 },
        Aabb { min_x: -20, min_y: 6, max_x: 30, max_y: 30 },
        Aabb { min_x: -20, min_y: -30, max_x: 30, max_y: 1 },
        square(0, 0, 10),
        square(3, 3, 2),
    ];
    for b in others.iter() {
        assert!(a.is_colliding(b));
        let moved = a.translate(a.closest_intersection_vector(b));
        assert!(!moved.is_colliding(b));
    }
}

#[test]
fn separating_vector_saturates_for_boxes_as_wide_as_the_range() {
    let all = Aabb { min_x: i32::MIN, min_y: i32::MIN, max_x: i32::MAX, max_y: i32::MAX };
    assert_eq!(all.closest_intersection_vector(&all), Vec2 { x: i32::MAX, y: 0 });
}

#[test]
fn translate_moves_and_saturates() {
    let a = Aabb { min_x: 1, min_y: 2, max_x: 3, max_y: 4 };
    assert_eq!(
        a.translate(Vec2 { x: 10, y: -20 }),
        Aabb { min_x: 11, min_y: -18, max_x: 13, max_y: -16 }
    );
    let far = Aabb { min_x: i32::MAX - 1, min_y: 0, max_x: i32::MAX, max_y: 0 };
    assert_eq!(
        far.translate(Vec2 { x: 5, y: 0 }),
        Aabb { min_x: i32::MAX, min_y: 0, max_x: i32::MAX, max_y: 0 }
    );
}

#[test]
fn scale_rounds_toward_zero() {
    let a = Aabb { min_x: -500, min_y: -500, max_x: 500, max_y: 500 };
    assert_eq!(
        a.scale(96_000),
        Aabb { min_x: -48_000, min_y: -48_000, max_x: 48_000, max_y: 48_000 }
    );
    let odd = Aabb { min_x: -3, min_y: -1, max_x: 3, max_y: 1 };
    assert_eq!(odd.scale(500), Aabb { min_x: -1, min_y: 0, max_x: 1, max_y: 0 });
}

#[test]
fn mesh_is_scaled_then_moved() {
    let mesh = CollisionMesh::new(Aabb { min_x: -500, min_y: -500, max_x: 500, max_y: 500 });
    let instance = mesh.transform(Vec2 { x: 100_000, y: -7_000 }, 16_000);
    assert_eq!(
        instance.aabb,
        Aabb { min_x: 92_000, min_y: -15_000, max_x: 108_000, max_y: 1_000 }
    );
    assert_eq!(mesh.aabb, Aabb { min_x: -500, min_y: -500, max_x: 500, max_y: 500 });
}

#[test]
fn meshes_collide_as_their_boxes_do() {
    let a = CollisionMesh::new(square(0, 0, 10));
    let b = CollisionMesh::new(square(8, 1, 10));
    let c = CollisionMesh::new(square(50, 50, 10));
    assert!(a.is_colliding(&b));
    assert!(!a.is_colliding(&c));
    assert_eq!(a.closest_intersection_vector(&b), Vec2 { x: -2, y: 0 });
}

#[test]
fn identifiers_stay_valid_as_the_arena_grows() {
    let mut manager = CollisionMeshManager::new();
    let first = manager.add_collision_mesh(CollisionMesh::new(square(0, 0, 1000)));
    let before = manager.get_collision_mesh(first, Vec2 { x: 0, y: 0 }, 1000);
    let second = manager.add_collision_mesh(CollisionMesh::new(square(5, 5, 2000)));
    assert_ne!(first, second);
    assert!(manager.has_collision_mesh(first));
    assert!(manager.has_collision_mesh(second));
    assert_eq!(manager.get_collision_mesh(first, Vec2 { x: 0, y: 0 }, 1000), before);
    assert_eq!(
        manager.get_collision_mesh(second, Vec2 { x: 1, y: 1 }, 2000).aabb,
        Aabb { min_x: 11, min_y: 11, max_x: 4011, max_y: 4011 }
    );
}

#[test]
fn an_identifier_of_a_larger_arena_is_unknown_to_a_smaller_one() {
    let mut large = CollisionMeshManager::new();
    large.add_collision_mesh(CollisionMesh::new(square(0, 0, 1)));
    let second = large.add_collision_mesh(CollisionMesh::new(square(0, 0, 2)));
    let mut small = CollisionMeshManager::new();
    assert!(!small.has_collision_mesh(second));
    small.add_collision_mesh(CollisionMesh::new(square(0, 0, 3)));
    assert!(!small.has_collision_mesh(second));
}

#[test]
fn sides_start_and_end_at_their_corners() {
    assert_eq!(TriangleSide::Ab.get_start_corner(), TriangleCorner::A);
    assert_eq!(TriangleSide::Ab.get_end_corner(), TriangleCorner::B);
    assert_eq!(TriangleSide::Bc.get_start_corner(), TriangleCorner::B);
    assert_eq!(TriangleSide::Bc.get_end_corner(), TriangleCorner::C);
    assert_eq!(TriangleSide::Ca.get_start_corner(), TriangleCorner::C);
    assert_eq!(TriangleSide::Ca.get_end_corner(), TriangleCorner::A);
}

#[test]
fn a_counter_clockwise_triangle_keeps_its_corners() {
    let triangle = right_triangle();
    assert_eq!(triangle.get_corner(TriangleCorner::A), Vec2 { x: 0, y: 0 });
    assert_eq!(triangle.get_corner(TriangleCorner::B), Vec2 { x: 10_000, y: 0 });
    assert_eq!(triangle.get_corner(TriangleCorner::C), Vec2 { x: 0, y: 10_000 });
}

#[test]
fn a_clockwise_triangle_is_turned_round() {
    let triangle = Triangle::new(
        Vec2 { x: 0, y: 0 },
        Vec2 { x: 0, y: 10_000 },
        Vec2 { x: 10_000, y: 0 },
    );
    assert_eq!(triangle.get_corner(TriangleCorner::A), Vec2 { x: 0, y: 0 });
    assert_eq!(triangle.get_corner(TriangleCorner::B), Vec2 { x: 10_000, y: 0 });
    assert_eq!(triangle.get_corner(TriangleCorner::C), Vec2 { x: 0, y: 10_000 });
}

#[test]
fn a_triangle_knows_its_bounding_box() {
    let triangle = Triangle::new(
        Vec2 { x: 0, y: -200_000 },
        Vec2 { x: 200_000, y: -200_000 },
        Vec2 { x: 200_000, y: 0 },
    );
    assert_eq!(
        triangle.surrounding_aabb(),
        Aabb { min_x: 0, min_y: -200_000, max_x: 200_000, max_y: 0 }
    );
}

#[test]
fn points_are_inside_up_to_the_slack() {
    let triangle = right_triangle();
    assert!(triangle.is_point_inside(&Vec2 { x: 3_000, y: 1_000 }));
    assert!(triangle.is_point_inside(&Vec2 { x: 0, y: 0 }));
    assert!(!triangle.is_point_inside(&Vec2 { x: 3_000, y: -1_000 }));
    assert!(!triangle.is_point_inside(&Vec2 { x: 8_000, y: 8_000 }));
    assert!(triangle.is_point_inside(&Vec2 { x: 5_000, y: -99 }));
    assert!(!triangle.is_point_inside(&Vec2 { x: 5_000, y: -100 }));
}

#[test]
fn a_box_with_a_corner_inside_collides() {
    let triangle = right_triangle();
    let inside = Aabb { min_x: 1_000, min_y: -1_000, max_x: 3_000, max_y: 1_000 };
    assert!(triangle.is_colliding(&inside));
    let away = Aabb { min_x: 20_000, min_y: 20_000, max_x: 30_000, max_y: 30_000 };
    assert!(!triangle.is_colliding(&away));
    let beyond_the_slope = Aabb { min_x: 8_000, min_y: 8_000, max_x: 9_000, max_y: 9_000 };
    assert!(!triangle.is_colliding(&beyond_the_slope));
}

#[test]
fn a_box_that_crosses_without_a_corner_inside_is_missed() {
    let triangle = right_triangle();
    let bar = Aabb { min_x: -1_000, min_y: 2_000, max_x: 11_000, max_y: 3_000 };
    assert!(triangle.surrounding_aabb().is_colliding(&bar));
    assert!(!triangle.is_colliding(&bar));
}

#[test]
fn the_box_leaves_through_the_side_it_entered_least() {
    let triangle = right_triangle();
    let shallow = Aabb { min_x: 1_000, min_y: -1_000, max_x: 3_000, max_y: 1_000 };
    assert_eq!(triangle.closest_intersection_vector(&shallow), Vec2 { x: 0, y: -1_000 });
    let at_the_slope = Aabb { min_x: 4_000, min_y: 4_000, max_x: 20_000, max_y: 20_000 };
    assert_eq!(triangle.closest_intersection_vector(&at_the_slope), Vec2 { x: 999, y: 999 });
}

#[test]
fn a_corner_in_the_slack_asks_for_no_move() {
    let triangle = right_triangle();
    let grazing = Aabb { min_x: 5_000, min_y: -5_000, max_x: 6_000, max_y: -50 };
    assert_eq!(triangle.closest_intersection_vector(&grazing), Vec2 { x: 0, y: 0 });
}

#[test]
fn without_a_corner_inside_the_bounding_box_decides() {
    let triangle = right_triangle();
    let bar = Aabb { min_x: -1_000, min_y: 2_000, max_x: 11_000, max_y: 3_000 };
    assert_eq!(triangle.closest_intersection_vector(&bar), Vec2 { x: 0, y: -3_000 });
}

#[test]
fn a_degenerate_triangle_is_guarded() {
    let point = Triangle::new(Vec2 { x: 5, y: 5 }, Vec2 { x: 5, y: 5 }, Vec2 { x: 5, y: 5 });
    let around = Aabb { min_x: 0, min_y: 0, max_x: 8, max_y: 10 };
    assert_eq!(point.closest_intersection_vector(&around), Vec2 { x: -3, y: 0 });
    assert!(point.is_point_inside(&Vec2 { x: 100, y: 100 }));
}

#[test]
fn the_first_of_equally_hard_pushes_wins() {
    let near = right_triangle();
    let far = Triangle::new(
        Vec2 { x: 0, y: -2_000 },
        Vec2 { x: 10_000, y: -2_000 },
        Vec2 { x: 0, y: 10_000 },
    );
    let shallow = Aabb { min_x: 1_000, min_y: -3_000, max_x: 3_000, max_y: 1_000 };
    assert_eq!(near.closest_intersection_vector(&shallow), Vec2 { x: 0, y: -1_000 });
    assert_eq!(far.closest_intersection_vector(&shallow), Vec2 { x: -1_000, y: 0 });
    let mesh = WorldCollisionMesh::new(vec![right_triangle(), far]);
    assert_eq!(mesh.find_collision(&shallow), Some(Vec2 { x: 0, y: -1_000 }));
}

#[test]
fn the_world_prefers_the_longer_vector() {
    let low = Triangle::new(
        Vec2 { x: 0, y: -1_000 },
        Vec2 { x: 10_000, y: -1_000 },
        Vec2 { x: 0, y: 10_000 },
    );
    let probe = Aabb { min_x: 4_000, min_y: -5_000, max_x: 5_000, max_y: 500 };
    assert_eq!(right_triangle().closest_intersection_vector(&probe), Vec2 { x: 0, y: -500 });
    assert_eq!(low.closest_intersection_vector(&probe), Vec2 { x: 0, y: -1_500 });
    let mesh = WorldCollisionMesh::new(vec![right_triangle(), low]);
    assert_eq!(mesh.find_collision(&probe), Some(Vec2 { x: 0, y: -1_500 }));
}

#[test]
fn the_world_has_nothing_to_say_about_a_box_far_away() {
    let mesh = WorldCollisionMesh::new(vec![right_triangle()]);
    let away = Aabb { min_x: 20_000, min_y: 20_000, max_x: 30_000, max_y: 30_000 };
    assert_eq!(mesh.find_collision(&away), None);
    let empty = WorldCollisionMesh::new(Vec::new());
    assert_eq!(empty.find_collision(&away), None);
}

#[test]
fn a_hit_that_asks_for_no_move_is_no_collision() {
    let mesh = WorldCollisionMesh::new(vec![right_triangle()]);
    let grazing = Aabb { min_x: 5_040, min_y: 5_040, max_x: 9_000, max_y: 9_000 };
    assert!(right_triangle().is_colliding(&grazing));
    assert_eq!(right_triangle().closest_intersection_vector(&grazing), Vec2 { x: 0, y: 0 });
    assert_eq!(mesh.find_collision(&grazing), None);
}
