use stg_core::simulate_movement;
use stg_core::LifeCount;
use stg_core::MovePattern;
use stg_core::Vec3;

fn velocity_at(p: MovePattern, life: i64, before: Vec3) -> Vec3 {
    let mut v = before;
    let mut l = LifeCount::new();
    l.count = life;
    p.update_velocity(&l, &mut v);
    v
}

#[test]
fn down_stay_up_breakpoints() {
    let p = MovePattern::DownStayUp;
    assert_eq!(velocity_at(p, 0, Vec3::new(9, 9, 9)), Vec3::new(0, -3000, 0));
    assert_eq!(velocity_at(p, 1, Vec3::new(0, -3000, 0)), Vec3::new(0, -3000, 0));
    assert_eq!(velocity_at(p, 70, Vec3::new(0, -3000, 0)), Vec3::new(0, 0, 0));
    assert_eq!(velocity_at(p, 100, Vec3::new(0, 0, 0)), Vec3::new(0, 3000, 0));
    assert_eq!(velocity_at(p, 101, Vec3::new(0, 3000, 0)), Vec3::new(0, 3000, 0));
}

#[test]
fn down_stay_side_breakpoints() {
    let l = MovePattern::DownStayLeftBottom;
    assert_eq!(velocity_at(l, 100, Vec3::new(0, 0, 0)), Vec3::new(-1000, -2000, 0));
    let r = MovePattern::DownStayRightBottom;
    assert_eq!(velocity_at(r, 100, Vec3::new(0, 0, 0)), Vec3::new(1000, -2000, 0));
}

#[test]
fn fast_patterns_accelerate_until_a_hundred() {
    let p = MovePattern::FastDownLeft;
    assert_eq!(velocity_at(p, 0, Vec3::new(0, 0, 0)), Vec3::new(-50, -5050, 0));
    assert_eq!(velocity_at(p, 50, Vec3::new(-50, -5050, 0)), Vec3::new(-100, -5100, 0));
    assert_eq!(velocity_at(p, 100, Vec3::new(-100, -5100, 0)), Vec3::new(-100, -5100, 0));
    let q = MovePattern::FastDownRight;
    assert_eq!(velocity_at(q, 0, Vec3::new(0, 0, 0)), Vec3::new(50, -5050, 0));
}

#[test]
fn corner_patterns_set_once() {
    let l = MovePattern::LeftBottom;
    assert_eq!(velocity_at(l, 0, Vec3::new(0, 0, 0)), Vec3::new(-1000, -2000, 0));
    assert_eq!(velocity_at(l, 50, Vec3::new(-1000, -2000, 0)), Vec3::new(-1000, -2000, 0));
    let r = MovePattern::RightBottom;
    assert_eq!(velocity_at(r, 0, Vec3::new(0, 0, 0)), Vec3::new(1000, -2000, 0));
}

#[test]
fn pattern_indices_match_the_timeline_selectors() {
    assert_eq!(MovePattern::from_index(0), Some(MovePattern::DownStayUp));
    assert_eq!(MovePattern::from_index(1), Some(MovePattern::DownStayLeftBottom));
    assert_eq!(MovePattern::from_index(2), Some(MovePattern::DownStayRightBottom));
    assert_eq!(MovePattern::from_index(3), Some(MovePattern::FastDownLeft));
    assert_eq!(MovePattern::from_index(4), Some(MovePattern::FastDownRight));
    assert_eq!(MovePattern::from_index(5), Some(MovePattern::LeftBottom));
    assert_eq!(MovePattern::from_index(6), Some(MovePattern::RightBottom));
    assert_eq!(MovePattern::from_index(7), None);
    assert_eq!(MovePattern::from_index(-1), None);
}

#[test]
fn random_pattern_is_one_of_the_seven() {
    let p = MovePattern::random();
    let all = [
        MovePattern::DownStayUp,
        MovePattern::DownStayLeftBottom,
        MovePattern::DownStayRightBottom,
        MovePattern::FastDownLeft,
        MovePattern::FastDownRight,
        MovePattern::LeftBottom,
        MovePattern::RightBottom,
    ];
    assert!(all.contains(&p));
}

#[test]
fn replaying_the_same_lifetimes_reproduces_the_trajectory() {
    let start = Vec3::new(10_000, 20_000, 0);
    for p in [MovePattern::DownStayUp, MovePattern::FastDownRight, MovePattern::LeftBottom] {
        let a = simulate_movement(p, start, 150);
        let b = simulate_movement(p, start, 150);
        assert_eq!(a.len(), 151);
        assert_eq!(a, b);
    }
}

#[test]
fn down_stay_up_trajectory_turns_around() {
    let start = Vec3::new(0, 0, 0);
    let tr = simulate_movement(MovePattern::DownStayUp, start, 120);
    // descending until lifetime seventy, holding until a hundred,
    // climbing afterwards
    assert_eq!(tr[1].y, -3000);
    assert_eq!(tr[70].y, -69 * 3000);
    assert_eq!(tr[99].y, tr[70].y);
    assert_eq!(tr[100].y, tr[70].y + 3000);
    assert_eq!(tr[101].y, tr[100].y + 3000);
}
