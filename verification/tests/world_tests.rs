use chicken_road::world::{
    clamp, Aabb, Position, ARENA_BOTTOM, ARENA_LEFT, ARENA_RIGHT, ARENA_TOP, BASE_SPEED, STEP,
    TICKS_PER_SECOND, UNITS_PER_PIXEL,
};

fn boxed(x: i32, y: i32, width: u32, height: u32) -> Aabb {
    Aabb { center: Position { x, y }, width, height }
}

#[test]
fn step_is_base_speed_per_tick() {
    assert_eq!(STEP * TICKS_PER_SECOND, BASE_SPEED * UNITS_PER_PIXEL);
    assert_eq!(STEP, 25);
}

#[test]
fn arena_is_centred_on_the_origin() {
    assert_eq!(ARENA_LEFT, -2364);
    assert_eq!(ARENA_RIGHT, 2364);
    assert_eq!(ARENA_BOTTOM, -2304);
    assert_eq!(ARENA_TOP, 2304);
}

#[test]
fn identical_boxes_collide() {
    let a = boxed(6, 6, 6, 6);
    assert!(a.collide(&a));
}

#[test]
fn box_inside_another_collides() {
    let outer = boxed(12, 12, 12, 12);
    let inner = boxed(12, 12, 6, 6);
    assert!(outer.collide(&inner));
    assert!(inner.collide(&outer));
}

#[test]
fn boxes_that_share_an_edge_do_not_collide() {
    let a = boxed(0, 0, 10, 10);
    let right = boxed(10, 0, 10, 10);
    let above = boxed(0, 10, 10, 10);
    assert!(!a.collide(&right));
    assert!(!a.collide(&above));
    assert!(a.collide(&boxed(9, 0, 10, 10)));
    assert!(a.collide(&boxed(0, 9, 10, 10)));
}

#[test]
fn boxes_apart_on_one_axis_do_not_collide() {
    let a = boxed(0, 0, 192, 192);
    // same x, far apart in y
    assert!(!a.collide(&boxed(0, 1000, 720, 360)));
    // same y, far apart in x
    assert!(!a.collide(&boxed(1000, 0, 720, 360)));
    // apart on both
    assert!(!a.collide(&boxed(-1000, -1000, 720, 360)));
}

#[test]
fn odd_sizes_need_no_rounding() {
    // Half-sizes are 1.5 and 2.5: the boxes touch at distance 4 and overlap at 3.
    let a = boxed(0, 0, 3, 3);
    assert!(!a.collide(&boxed(4, 0, 5, 5)));
    assert!(a.collide(&boxed(3, 0, 5, 5)));
}

#[test]
fn player_and_car_boxes_meet_at_the_sum_of_half_widths() {
    // Player 192 wide, car 720 wide: half-widths 96 and 360.
    let player = boxed(0, 0, 192, 192);
    assert!(!player.collide(&boxed(-456, 0, 720, 360)));
    assert!(player.collide(&boxed(-455, 0, 720, 360)));
    // Heights 192 and 360: half-heights 96 and 180.
    assert!(!player.collide(&boxed(0, 276, 720, 360)));
    assert!(player.collide(&boxed(0, 275, 720, 360)));
}

#[test]
fn collide_at_the_ends_of_the_coordinate_range() {
    // As far apart as can be and as large as can be: the boxes share an edge, no more.
    let a = boxed(i32::MAX, i32::MIN, u32::MAX, u32::MAX);
    let b = boxed(i32::MIN, i32::MAX, u32::MAX, u32::MAX);
    assert!(!a.collide(&b));
    let nearer = boxed(i32::MIN + 1, i32::MAX - 1, u32::MAX, u32::MAX);
    assert!(a.collide(&nearer));
    let c = boxed(i32::MAX, i32::MAX, 1, 1);
    let d = boxed(i32::MIN, i32::MIN, 1, 1);
    assert!(!c.collide(&d));
}

#[test]
fn clamp_holds_a_value_to_its_range() {
    assert_eq!(clamp(0, -5, 5), 0);
    assert_eq!(clamp(-6, -5, 5), -5);
    assert_eq!(clamp(6, -5, 5), 5);
    assert_eq!(clamp(-5, -5, 5), -5);
    assert_eq!(clamp(5, -5, 5), 5);
    assert_eq!(clamp(i64::MAX, ARENA_LEFT, ARENA_RIGHT), ARENA_RIGHT);
    assert_eq!(clamp(i64::MIN, ARENA_LEFT, ARENA_RIGHT), ARENA_LEFT);
    assert_eq!(clamp(7, 7, 7), 7);
}
