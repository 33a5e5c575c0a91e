use arkanoid::kind::ObjectType;
use arkanoid::registry::{ObjSys, SpawnError};
use arkanoid::rules::{BallOrder, Keys, Order, PaddleOrder, Pin, Reach, Sighting, Turn};

const NO_KEYS: Keys = Keys { left: false, right: false };
const NOWHERE: Reach = Reach { left: false, right: false, bottom: false, top: false };
const AT_BOTTOM: Reach = Reach { left: false, right: false, bottom: true, top: false };

fn sighting(id: u64, reach: Reach) -> Sighting {
    Sighting { id, reach }
}

#[test]
fn a_new_set_is_empty() {
    let sys = ObjSys::new();
    assert_eq!(sys.ids(), Vec::<u64>::new());
    assert_eq!(sys.count_balls(), 0);
    assert!(sys.draw_all().is_empty());
    assert!(!sys.contains(0));
}

#[test]
fn the_first_free_identity_of_each_range_is_its_lowest() {
    let sys = ObjSys::new();
    assert_eq!(sys.free_id_by_type(ObjectType::Paddle), Some(0));
    assert_eq!(sys.free_id_by_type(ObjectType::Ball), Some(1));
    assert_eq!(sys.free_id_by_type(ObjectType::Brick), Some(1000));
}

#[test]
fn spawning_hands_out_the_lowest_free_identity() {
    let mut sys = ObjSys::new();
    assert_eq!(sys.add_hb(ObjectType::Paddle), Ok(0));
    assert_eq!(sys.add_hb(ObjectType::Ball), Ok(1));
    assert_eq!(sys.add_hb(ObjectType::Ball), Ok(2));
    assert_eq!(sys.add_hb(ObjectType::Brick), Ok(1000));
    assert_eq!(sys.add_hb(ObjectType::Ball), Ok(3));
    assert_eq!(sys.ids(), vec![0, 1, 2, 3, 1000]);
    assert!(sys.contains(3));
    assert!(!sys.contains(4));
}

#[test]
fn looking_for_a_free_identity_changes_nothing() {
    let mut sys = ObjSys::new();
    sys.add_hb(ObjectType::Ball).unwrap();
    assert_eq!(sys.free_id_by_type(ObjectType::Ball), Some(2));
    assert_eq!(sys.free_id_by_type(ObjectType::Ball), Some(2));
    assert_eq!(sys.ids(), vec![1]);
}

#[test]
fn a_second_paddle_finds_its_range_exhausted() {
    let mut sys = ObjSys::new();
    assert_eq!(sys.add_hb(ObjectType::Paddle), Ok(0));
    assert_eq!(sys.free_id_by_type(ObjectType::Paddle), None);
    assert_eq!(sys.add_hb(ObjectType::Paddle), Err(SpawnError::RangeExhausted));
    assert_eq!(sys.ids(), vec![0]);
}

#[test]
fn the_ball_range_holds_nine_hundred_ninety_nine() {
    let mut sys = ObjSys::new();
    for expected in 1..=999u64 {
        assert_eq!(sys.add_hb(ObjectType::Ball), Ok(expected));
    }
    assert_eq!(sys.count_balls(), 999);
    assert_eq!(sys.add_hb(ObjectType::Ball), Err(SpawnError::RangeExhausted));
    assert_eq!(sys.count_balls(), 999);
    assert!(!sys.contains(1000));
    assert_eq!(sys.add_hb(ObjectType::Brick), Ok(1000));
}

#[test]
fn count_balls_counts_balls_only() {
    let mut sys = ObjSys::new();
    sys.add_hb(ObjectType::Paddle).unwrap();
    sys.add_hb(ObjectType::Brick).unwrap();
    assert_eq!(sys.count_balls(), 0);
    sys.add_hb(ObjectType::Ball).unwrap();
    sys.add_hb(ObjectType::Ball).unwrap();
    sys.add_hb(ObjectType::Brick).unwrap();
    assert_eq!(sys.count_balls(), 2);
}

#[test]
fn draw_all_lists_each_shape_with_its_kind() {
    let mut sys = ObjSys::new();
    sys.add_hb(ObjectType::Ball).unwrap();
    sys.add_hb(ObjectType::Brick).unwrap();
    sys.add_hb(ObjectType::Paddle).unwrap();
    sys.add_hb(ObjectType::Ball).unwrap();
    assert_eq!(
        sys.draw_all(),
        vec![
            (0, ObjectType::Paddle),
            (1, ObjectType::Ball),
            (2, ObjectType::Ball),
            (1000, ObjectType::Brick),
        ]
    );
}

#[test]
fn a_ball_at_the_bottom_leaves_the_set_in_the_same_frame() {
    let mut sys = ObjSys::new();
    sys.add_hb(ObjectType::Paddle).unwrap();
    sys.add_hb(ObjectType::Ball).unwrap();
    sys.add_hb(ObjectType::Ball).unwrap();
    sys.add_hb(ObjectType::Ball).unwrap();
    let seen = vec![
        sighting(0, NOWHERE),
        sighting(1, NOWHERE),
        sighting(2, AT_BOTTOM),
        sighting(3, Reach { left: true, right: false, bottom: false, top: true }),
    ];
    let plan = sys.update_all(Keys { left: true, right: false }, &seen);
    assert_eq!(
        plan.orders,
        vec![
            Order::Paddle(PaddleOrder { velocity: -400, pin: Pin::Free }),
            Order::Ball(BallOrder { horizontal: Turn::Keep, dive: false, alive: true }),
            Order::Ball(BallOrder { horizontal: Turn::Keep, dive: false, alive: false }),
            Order::Ball(BallOrder { horizontal: Turn::Rightward, dive: true, alive: true }),
        ]
    );
    assert_eq!(plan.removed, vec![2]);
    assert_eq!(sys.ids(), vec![0, 1, 3]);
    assert_eq!(sys.count_balls(), 2);
}

#[test]
fn a_freed_identity_is_handed_out_again() {
    let mut sys = ObjSys::new();
    sys.add_hb(ObjectType::Ball).unwrap();
    sys.add_hb(ObjectType::Ball).unwrap();
    sys.add_hb(ObjectType::Ball).unwrap();
    let plan = sys.update_all(NO_KEYS, &vec![sighting(2, AT_BOTTOM)]);
    assert_eq!(plan.removed, vec![2]);
    assert_eq!(sys.add_hb(ObjectType::Ball), Ok(2));
    assert_eq!(sys.add_hb(ObjectType::Ball), Ok(4));
}

#[test]
fn the_paddle_and_bricks_never_leave_at_the_bottom() {
    let mut sys = ObjSys::new();
    sys.add_hb(ObjectType::Paddle).unwrap();
    sys.add_hb(ObjectType::Brick).unwrap();
    let plan = sys.update_all(NO_KEYS, &vec![sighting(0, AT_BOTTOM), sighting(1000, AT_BOTTOM)]);
    assert!(plan.removed.is_empty());
    assert_eq!(
        plan.orders,
        vec![Order::Paddle(PaddleOrder { velocity: 0, pin: Pin::Free }), Order::Rest]
    );
    assert_eq!(sys.ids(), vec![0, 1000]);
}

#[test]
fn a_ball_seen_twice_or_not_live_is_removed_at_most_once() {
    let mut sys = ObjSys::new();
    sys.add_hb(ObjectType::Ball).unwrap();
    let seen = vec![sighting(1, AT_BOTTOM), sighting(1, AT_BOTTOM), sighting(5, AT_BOTTOM)];
    let plan = sys.update_all(NO_KEYS, &seen);
    assert_eq!(plan.orders.len(), 3);
    assert_eq!(plan.removed, vec![1]);
    assert_eq!(sys.ids(), Vec::<u64>::new());
}

#[test]
fn the_set_mirrors_a_store_that_follows_its_answers() {
    let mut sys = ObjSys::new();
    let mut store = std::collections::BTreeSet::new();
    for kind in [ObjectType::Paddle, ObjectType::Ball, ObjectType::Ball, ObjectType::Brick, ObjectType::Ball] {
        let id = sys.add_hb(kind).unwrap();
        assert!(store.insert(id));
    }
    let seen: Vec<Sighting> = sys
        .ids()
        .into_iter()
        .map(|id| sighting(id, if id % 2 == 1 { AT_BOTTOM } else { NOWHERE }))
        .collect();
    let plan = sys.update_all(NO_KEYS, &seen);
    for id in plan.removed {
        assert!(store.remove(&id));
    }
    assert_eq!(sys.ids(), store.iter().copied().collect::<Vec<u64>>());
    assert_eq!(sys.ids(), vec![0, 2, 1000]);
    let id = sys.add_hb(ObjectType::Ball).unwrap();
    assert!(store.insert(id));
    assert_eq!(sys.ids(), store.into_iter().collect::<Vec<u64>>());
}

#[test]
fn an_empty_frame_changes_nothing() {
    let mut sys = ObjSys::new();
    sys.add_hb(ObjectType::Ball).unwrap();
    let plan = sys.update_all(NO_KEYS, &Vec::new());
    assert!(plan.orders.is_empty());
    assert!(plan.removed.is_empty());
    assert_eq!(sys.ids(), vec![1]);
}
