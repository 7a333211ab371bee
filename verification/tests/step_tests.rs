use particle_life::particle::Particle;
use particle_life::scalar::Scalar;
use particle_life::step::{
    band, first_within, image_shift, in_reach, reflect, wrap_shift, Band, Shift,
};
use particle_life::universe::{PairRule, Universe};

const R_SMOOTH: f32 = 2.0;
const DIAMETER: f32 = 10.0;

fn s(x: f32) -> Scalar {
    Scalar::from_bits(x.to_bits())
}

fn f(x: Scalar) -> f32 {
    f32::from_bits(x.to_bits())
}

fn shifted(value: f32, shift: Shift, extent: f32) -> f32 {
    match shift {
        Shift::Keep => value,
        Shift::Add => value + extent,
        Shift::Subtract => value - extent,
    }
}

/// One tick of a world, with the sums and products done here and every
/// decision taken by the library.
fn tick(world: &mut Universe) {
    let count = world.particle_count();
    let (width, height) = (f(world.width()), f(world.height()));
    let (wrap, flat) = (world.wrap(), world.flat_force());
    for i in 0..count {
        let mut p = world.particle(i).unwrap();
        let (mut vx, mut vy) = (f(p.vx), f(p.vy));
        for j in 0..count {
            let q = world.particle(j).unwrap();
            let (mut dx, mut dy) = (f(q.x) - f(p.x), f(q.y) - f(p.y));
            dx = shifted(dx, image_shift(wrap, s(dx), s(width * 0.5), s(width)), width);
            dy = shifted(dy, image_shift(wrap, s(dy), s(height * 0.5), s(height)), height);
            let r2 = dx * dx + dy * dy;
            let rule = world.pair_rule(i, j).unwrap();
            let (attract, min_r, max_r) = (f(rule.attract), f(rule.min_r), f(rule.max_r));
            if !in_reach(s(r2), s(max_r * max_r)) {
                continue;
            }
            let r = r2.sqrt();
            dx /= r;
            dy /= r;
            let force = match band(s(r), rule.min_r, flat) {
                Band::FarFlat => attract,
                Band::FarProfiled => {
                    let numer = 2.0 * (r - 0.5 * (max_r + min_r)).abs();
                    attract * (1.0 - numer / (max_r - min_r))
                }
                Band::Close => R_SMOOTH * min_r * (1.0 / (min_r + R_SMOOTH) - 1.0 / (r + R_SMOOTH)),
            };
            vx += force * dx;
            vy += force * dy;
        }
        p.vx = s(vx);
        p.vy = s(vy);
        assert!(world.set_particle(i, p));
    }
    let friction = f(world.friction());
    for i in 0..count {
        let mut p = world.particle(i).unwrap();
        let (mut x, mut y) = (f(p.x) + f(p.vx), f(p.y) + f(p.vy));
        let (mut vx, mut vy) = (f(p.vx) * (1.0 - friction), f(p.vy) * (1.0 - friction));
        if wrap {
            x = shifted(x, wrap_shift(s(x), s(width)), width);
            y = shifted(y, wrap_shift(s(y), s(height)), height);
        } else {
            let (kept_x, kept_vx) = reflect(s(x), s(vx), s(width - DIAMETER));
            let (kept_y, kept_vy) = reflect(s(y), s(vy), s(height - DIAMETER));
            x = f(kept_x);
            vx = f(kept_vx);
            y = f(kept_y);
            vy = f(kept_vy);
        }
        p.x = s(x);
        p.y = s(y);
        p.vx = s(vx);
        p.vy = s(vy);
        assert!(world.set_particle(i, p));
    }
}

fn put(world: &mut Universe, index: usize, x: f32, y: f32, vx: f32, vy: f32, kind: u8) {
    assert!(world.set_particle(index, Particle { x: s(x), y: s(y), vx: s(vx), vy: s(vy), p_type: kind }));
}

fn rule_all(world: &mut Universe, types: usize, attract: f32, min_r: f32, max_r: f32) {
    for i in 0..types {
        for j in 0..types {
            assert!(world.set_rule(i, j, PairRule { attract: s(attract), min_r: s(min_r), max_r: s(max_r) }));
        }
    }
}

fn state(world: &Universe, index: usize) -> (f32, f32, f32, f32) {
    let p = world.particle(index).unwrap();
    (f(p.x), f(p.y), f(p.vx), f(p.vy))
}

fn walled(types: usize, count: usize, flat: bool) -> Universe {
    let mut world = Universe::new(types, count, s(100.0), s(100.0));
    world.toggle_wrap();
    let placements = vec![particle_life::universe::Placement { x: s(50.0), y: s(50.0), vx: s(0.0), vy: s(0.0) }; count];
    let draws = vec![
        particle_life::generator::RuleDraw { attract: s(0.0), min_r: s(0.0), max_r: s(0.0) };
        types * types
    ];
    world.re_seed(s(0.0), s(0.0), (s(0.0), s(0.0)), (s(0.0), s(0.0)), s(0.0), flat, &draws, &placements);
    world
}

#[test]
fn two_types_pull_each_other_together() {
    let mut world = walled(2, 2, true);
    rule_all(&mut world, 2, 0.0, 5.0, 50.0);
    assert!(world.set_rule(0, 1, PairRule { attract: s(1.0), min_r: s(5.0), max_r: s(50.0) }));
    assert!(world.set_rule(1, 0, PairRule { attract: s(1.0), min_r: s(5.0), max_r: s(50.0) }));
    put(&mut world, 0, 40.0, 50.0, 0.0, 0.0, 0);
    put(&mut world, 1, 60.0, 50.0, 0.0, 0.0, 1);
    tick(&mut world);
    let (x0, y0, vx0, vy0) = state(&world, 0);
    let (x1, y1, vx1, vy1) = state(&world, 1);
    assert_eq!(vx0, 1.0);
    assert_eq!(vx1, -1.0);
    assert!(vx0 != 0.0 && vx1 != 0.0 && vx0 == -vx1);
    assert_eq!((vy0, vy1), (0.0, 0.0));
    assert_eq!((x0, y0), (41.0, 50.0));
    assert_eq!((x1, y1), (59.0, 50.0));
}

#[test]
fn a_symmetric_rule_keeps_the_momentum() {
    let mut world = walled(2, 2, false);
    rule_all(&mut world, 2, -0.3, 10.0, 60.0);
    assert!(world.set_rule(0, 1, PairRule { attract: s(0.7), min_r: s(10.0), max_r: s(60.0) }));
    assert!(world.set_rule(1, 0, PairRule { attract: s(0.7), min_r: s(10.0), max_r: s(60.0) }));
    put(&mut world, 0, 30.0, 40.0, 0.25, -0.5, 0);
    put(&mut world, 1, 55.0, 63.0, -0.125, 0.75, 1);
    let before = (0.25 - 0.125, -0.5 + 0.75);
    tick(&mut world);
    let (_, _, vx0, vy0) = state(&world, 0);
    let (_, _, vx1, vy1) = state(&world, 1);
    assert!(vx0 != 0.25 && vx1 != -0.125);
    assert!((vx0 + vx1 - before.0).abs() <= 1.0e-6);
    assert!((vy0 + vy1 - before.1).abs() <= 1.0e-6);
}

#[test]
fn the_profile_peaks_halfway_between_the_radii() {
    let mut world = walled(1, 2, false);
    rule_all(&mut world, 1, 0.5, 10.0, 50.0);
    put(&mut world, 0, 20.0, 50.0, 0.0, 0.0, 0);
    put(&mut world, 1, 50.0, 50.0, 0.0, 0.0, 0);
    tick(&mut world);
    assert_eq!(state(&world, 0).2, 0.5);
    assert_eq!(state(&world, 1).2, -0.5);

    let mut world = walled(1, 2, false);
    rule_all(&mut world, 1, 0.5, 10.0, 50.0);
    put(&mut world, 0, 20.0, 50.0, 0.0, 0.0, 0);
    put(&mut world, 1, 40.0, 50.0, 0.0, 0.0, 0);
    tick(&mut world);
    assert_eq!(state(&world, 0).2, 0.25);
}

#[test]
fn close_particles_repel_whatever_the_rule() {
    let mut world = walled(1, 2, true);
    rule_all(&mut world, 1, 5.0, 10.0, 50.0);
    put(&mut world, 0, 50.0, 50.0, 0.0, 0.0, 0);
    put(&mut world, 1, 56.0, 50.0, 0.0, 0.0, 0);
    tick(&mut world);
    let expected = 2.0f32 * 10.0 * (1.0 / 12.0 - 1.0 / 8.0);
    assert!(expected < 0.0);
    assert_eq!(state(&world, 0).2, expected);
    assert_eq!(state(&world, 1).2, -expected);
}

#[test]
fn a_particle_on_the_far_edge_wraps_to_the_near_edge() {
    let mut world = Universe::new(1, 1, s(100.0), s(80.0));
    put(&mut world, 0, 100.0, 80.0, 0.0, 0.0, 0);
    tick(&mut world);
    assert_eq!(state(&world, 0), (0.0, 0.0, 0.0, 0.0));
    tick(&mut world);
    assert_eq!(state(&world, 0), (0.0, 0.0, 0.0, 0.0));
}

#[test]
fn a_particle_leaving_a_wrapping_world_comes_back_in() {
    let mut world = Universe::new(1, 1, s(100.0), s(100.0));
    put(&mut world, 0, 1.0, 99.0, -3.0, 2.5, 0);
    tick(&mut world);
    assert_eq!(state(&world, 0), (98.0, 1.5, -3.0, 2.5));
}

#[test]
fn a_particle_on_the_near_wall_is_sent_back() {
    let mut world = walled(1, 1, false);
    put(&mut world, 0, 10.0, 50.0, -2.0, 0.0, 0);
    tick(&mut world);
    let (x, y, vx, vy) = state(&world, 0);
    assert_eq!(x, 10.0);
    assert!(vx > 0.0);
    assert_eq!(vx, 2.0);
    assert!(x >= 0.0);
    assert_eq!((y, vy), (50.0, 0.0));
}

#[test]
fn a_particle_at_the_far_wall_is_sent_back() {
    let mut world = walled(1, 1, false);
    put(&mut world, 0, 89.0, 50.0, 3.0, 45.0, 0);
    tick(&mut world);
    assert_eq!(state(&world, 0), (90.0, 90.0, -3.0, -45.0));
}

#[test]
fn friction_takes_its_share_after_the_move() {
    let mut world = Universe::new(1, 1, s(100.0), s(100.0));
    let draws = vec![particle_life::generator::RuleDraw { attract: s(0.0), min_r: s(0.0), max_r: s(0.0) }];
    let placements = vec![particle_life::universe::Placement { x: s(50.0), y: s(50.0), vx: s(4.0), vy: s(-8.0) }];
    world.re_seed(s(0.0), s(0.0), (s(0.0), s(0.0)), (s(0.0), s(0.0)), s(0.25), false, &draws, &placements);
    tick(&mut world);
    assert_eq!(state(&world, 0), (54.0, 42.0, 3.0, -6.0));
}

#[test]
fn a_pair_out_of_reach_feels_nothing() {
    let mut world = walled(2, 2, true);
    rule_all(&mut world, 2, 1.0, 5.0, 20.0);
    put(&mut world, 0, 20.0, 50.0, 0.5, 0.25, 0);
    put(&mut world, 1, 50.0, 50.0, -0.5, 0.125, 1);
    tick(&mut world);
    assert_eq!(state(&world, 0), (20.5, 50.25, 0.5, 0.25));
    assert_eq!(state(&world, 1), (49.5, 50.125, -0.5, 0.125));
}

#[test]
fn a_pair_nearer_than_the_limit_feels_nothing() {
    let mut world = walled(2, 2, true);
    rule_all(&mut world, 2, 1.0, 10.0, 50.0);
    put(&mut world, 0, 50.0, 50.0, 0.0, 0.0, 0);
    put(&mut world, 1, 50.05, 50.05, 0.0, 0.0, 1);
    tick(&mut world);
    assert_eq!(state(&world, 0), (50.0, 50.0, 0.0, 0.0));
    assert_eq!(state(&world, 1), (50.05, 50.05, 0.0, 0.0));
}

#[test]
fn a_particle_alone_feels_nothing_of_itself() {
    let mut world = walled(1, 1, true);
    rule_all(&mut world, 1, 1.0, 10.0, 50.0);
    put(&mut world, 0, 50.0, 50.0, 0.0, 0.0, 0);
    tick(&mut world);
    assert_eq!(state(&world, 0), (50.0, 50.0, 0.0, 0.0));
}

#[test]
fn particles_across_the_seam_of_a_wrapping_world_are_neighbours() {
    let mut world = Universe::new(1, 2, s(100.0), s(100.0));
    let draws = vec![particle_life::generator::RuleDraw { attract: s(0.0), min_r: s(0.0), max_r: s(0.0) }];
    let placements = vec![particle_life::universe::Placement { x: s(0.0), y: s(0.0), vx: s(0.0), vy: s(0.0) }; 2];
    world.re_seed(s(0.0), s(0.0), (s(0.0), s(0.0)), (s(0.0), s(0.0)), s(0.0), true, &draws, &placements);
    rule_all(&mut world, 1, 1.0, 5.0, 30.0);
    put(&mut world, 0, 5.0, 50.0, 0.0, 0.0, 0);
    put(&mut world, 1, 90.0, 50.0, 0.0, 0.0, 0);
    tick(&mut world);
    assert_eq!(state(&world, 0).2, -1.0);
    assert_eq!(state(&world, 0).0, 4.0);
}

#[test]
fn image_shift_takes_the_short_way_round() {
    let (half, full) = (s(50.0), s(100.0));
    assert_eq!(image_shift(true, s(50.5), half, full), Shift::Subtract);
    assert_eq!(image_shift(true, s(50.0), half, full), Shift::Keep);
    assert_eq!(image_shift(true, s(-60.0), half, full), Shift::Keep);
    assert_eq!(image_shift(true, s(-100.0), half, full), Shift::Keep);
    assert_eq!(image_shift(true, s(-100.5), half, full), Shift::Add);
    assert_eq!(image_shift(true, s(f32::NAN), half, full), Shift::Keep);
    assert_eq!(image_shift(false, s(80.0), half, full), Shift::Keep);
    assert_eq!(image_shift(false, s(-180.0), half, full), Shift::Keep);
}

#[test]
fn in_reach_is_between_the_near_limit_and_the_reach() {
    assert!(in_reach(s(0.01), s(400.0)));
    assert!(!in_reach(s(0.0099999), s(400.0)));
    assert!(!in_reach(s(0.0), s(400.0)));
    assert!(in_reach(s(400.0), s(400.0)));
    assert!(!in_reach(s(400.00003), s(400.0)));
    assert!(!in_reach(s(f32::INFINITY), s(400.0)));
    assert!(in_reach(s(f32::NAN), s(400.0)));
    assert!(in_reach(s(3.0), s(f32::NAN)));
}

#[test]
fn band_goes_by_the_least_radius() {
    assert_eq!(band(s(10.0), s(10.0), false), Band::Close);
    assert_eq!(band(s(10.0), s(10.0), true), Band::Close);
    assert_eq!(band(s(3.0), s(10.0), true), Band::Close);
    assert_eq!(band(s(10.000001), s(10.0), false), Band::FarProfiled);
    assert_eq!(band(s(10.000001), s(10.0), true), Band::FarFlat);
    assert_eq!(band(s(f32::NAN), s(10.0), true), Band::Close);
}

#[test]
fn wrap_shift_brings_a_coordinate_back() {
    assert_eq!(wrap_shift(s(-0.5), s(100.0)), Shift::Add);
    assert_eq!(wrap_shift(s(-0.0), s(100.0)), Shift::Keep);
    assert_eq!(wrap_shift(s(0.0), s(100.0)), Shift::Keep);
    assert_eq!(wrap_shift(s(99.99), s(100.0)), Shift::Keep);
    assert_eq!(wrap_shift(s(100.0), s(100.0)), Shift::Subtract);
    assert_eq!(wrap_shift(s(250.0), s(100.0)), Shift::Subtract);
    assert_eq!(wrap_shift(s(f32::NAN), s(100.0)), Shift::Keep);
}

#[test]
fn reflect_sets_on_the_wall_and_turns_round() {
    let pair = |(a, b): (Scalar, Scalar)| (f(a), f(b));
    assert_eq!(pair(reflect(s(10.0), s(-2.0), s(90.0))), (10.0, 2.0));
    assert_eq!(pair(reflect(s(-4.0), s(-2.0), s(90.0))), (10.0, 2.0));
    assert_eq!(pair(reflect(s(10.5), s(-2.0), s(90.0))), (10.5, -2.0));
    assert_eq!(pair(reflect(s(90.0), s(3.0), s(90.0))), (90.0, -3.0));
    assert_eq!(pair(reflect(s(140.0), s(3.0), s(90.0))), (90.0, -3.0));
    assert_eq!(pair(reflect(s(89.5), s(3.0), s(90.0))), (89.5, 3.0));
    let (x, v) = reflect(s(f32::NAN), s(3.0), s(90.0));
    assert!(f(x).is_nan());
    assert_eq!(f(v), 3.0);
    assert_eq!(reflect(s(5.0), s(0.0), s(90.0)).1.to_bits(), (-0.0f32).to_bits());
}

#[test]
fn first_within_takes_the_lowest_index() {
    assert_eq!(first_within(&vec![s(9.0), s(4.0), s(1.0), s(4.0)], s(5.0)), Some(1));
    assert_eq!(first_within(&vec![s(5.0), s(6.0)], s(5.0)), None);
    assert_eq!(first_within(&vec![s(f32::NAN), s(4.9)], s(5.0)), Some(1));
    assert_eq!(first_within(&Vec::new(), s(5.0)), None);
    assert_eq!(first_within(&vec![s(1.0)], s(f32::NAN)), None);
}
