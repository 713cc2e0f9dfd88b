use dashline::geometry::{Aabb, Position};
use dashline::particles::{
    disc_point, expect_in_box, expect_in_disc, expect_on_span, extra_chance, particle_count,
    ribbon_point, Interval, ParticleDistribution, ParticleKind, SpawnParticles, DISC_TRIES, NANO,
    PI_NANO,
};
use rand::rngs::StdRng;
use rand::SeedableRng;

fn p(x: i32, y: i32) -> Position {
    Position::new(x, y)
}

#[test]
fn counts_are_kept_in_billionths() {
    assert_eq!(NANO, 1_000_000_000);
    assert_eq!(PI_NANO, 3_141_592_654);
    assert_eq!(DISC_TRIES, 64);
}

#[test]
fn particle_count_is_the_whole_part_plus_the_draw() {
    assert_eq!(particle_count(4_500_000_000, false), 4);
    assert_eq!(particle_count(4_500_000_000, true), 5);
    assert_eq!(particle_count(999_999_999, false), 0);
    assert_eq!(particle_count(999_999_999, true), 1);
    assert_eq!(particle_count(0, false), 0);
    assert_eq!(particle_count(7_000_000_000, false), 7);
    assert_eq!(particle_count(u128::MAX, true), u128::MAX / 1_000_000_000 + 1);
}

#[test]
fn extra_chance_is_the_fractional_part() {
    assert_eq!(extra_chance(4_500_000_000), 500_000_000);
    assert_eq!(extra_chance(7_000_000_000), 0);
    assert_eq!(extra_chance(123), 123);
    assert_eq!(extra_chance(999_999_999), 999_999_999);
}

#[test]
fn expected_count_in_a_box() {
    let area = Aabb { min: p(0, 0), max: p(2000, 3000) };
    assert_eq!(expect_in_box(750, &area), 4_500_000_000);
    assert_eq!(expect_in_box(5000, &Aabb { min: p(-5000, -5000), max: p(5000, 5000) }), 500_000_000_000);
    assert_eq!(expect_in_box(0, &area), 0);
    assert_eq!(expect_in_box(-750, &area), 0);
    assert_eq!(expect_in_box(750, &Aabb { min: p(0, 0), max: p(0, 3000) }), 0);
    assert_eq!(expect_in_box(750, &Aabb { min: p(2000, 0), max: p(0, 3000) }), 0);
}

#[test]
fn expected_count_in_a_disc() {
    assert_eq!(expect_in_disc(5000, 500), 3_926_990_817);
    assert_eq!(expect_in_disc(5000, -500), 3_926_990_817);
    assert_eq!(expect_in_disc(1000, 1000), 3_141_592_654);
    assert_eq!(expect_in_disc(0, 1000), 0);
    assert_eq!(expect_in_disc(-3, 1000), 0);
    assert_eq!(expect_in_disc(1000, 0), 0);
}

#[test]
fn expected_count_on_a_span() {
    assert_eq!(expect_on_span(500, &p(0, 0), &p(3000, 4000), 200), 500_000_000);
    assert_eq!(expect_on_span(500, &p(0, 0), &p(3000, 4000), 0), 0);
    assert_eq!(expect_on_span(500, &p(0, 0), &p(3000, 4000), -200), 0);
    assert_eq!(expect_on_span(-500, &p(0, 0), &p(3000, 4000), 200), 0);
    assert_eq!(expect_on_span(500, &p(7, 7), &p(7, 7), 200), 0);
}

#[test]
fn disc_point_takes_points_of_the_disc_only() {
    assert_eq!(disc_point(p(100, 100), 500, 300, 400), Some(p(400, 500)));
    assert_eq!(disc_point(p(100, 100), 500, 300, 401), None);
    assert_eq!(disc_point(p(100, 100), 500, -500, 0), Some(p(-400, 100)));
    assert_eq!(disc_point(p(100, 100), -500, 0, -500), Some(p(100, -400)));
    assert_eq!(disc_point(p(100, 100), 0, 0, 0), Some(p(100, 100)));
    assert_eq!(disc_point(p(100, 100), 500, i64::MAX, 0), None);
    assert_eq!(disc_point(p(100, 100), 500, 0, i64::MIN), None);
    assert_eq!(disc_point(p(i32::MAX, 0), 500, 300, 0), Some(p(i32::MAX, 0)));
}

#[test]
fn ribbon_point_lies_beside_its_span() {
    assert_eq!(ribbon_point(&p(0, 0), &p(4000, 0), 200, 500, 1000), p(2000, 200));
    assert_eq!(ribbon_point(&p(0, 0), &p(4000, 0), 200, 0, -1000), p(0, -200));
    assert_eq!(ribbon_point(&p(0, 0), &p(4000, 0), 200, 1000, 0), p(4000, 0));
    assert_eq!(ribbon_point(&p(0, 0), &p(3000, 4000), 200, 250, -500), p(830, 940));
    assert_eq!(ribbon_point(&p(50, 60), &p(50, 60), 200, 700, 900), p(50, 60));
}

#[test]
fn sample_of_a_box_stays_in_the_box() {
    let area = Aabb { min: p(-1000, 2000), max: p(1000, 5000) };
    let shape = ParticleDistribution::Aabb(area);
    let mut rng = StdRng::seed_from_u64(11);
    let mut trial = 0;
    while trial < 50 {
        let points = shape.sample(&mut rng, 750);
        assert!(points.len() == 4 || points.len() == 5);
        for q in &points {
            assert!(-1000 <= q.x && q.x <= 1000);
            assert!(2000 <= q.y && q.y <= 5000);
        }
        trial += 1;
    }
}

#[test]
fn sample_of_a_whole_count_is_exact() {
    let shape = ParticleDistribution::Aabb(Aabb { min: p(0, 0), max: p(2000, 2000) });
    let mut rng = StdRng::seed_from_u64(5);
    let mut trial = 0;
    while trial < 30 {
        assert_eq!(shape.sample(&mut rng, 1000).len(), 4);
        trial += 1;
    }
}

#[test]
fn sample_of_nothing_is_empty() {
    let mut rng = StdRng::seed_from_u64(1);
    let area = Aabb { min: p(0, 0), max: p(2000, 2000) };
    assert!(ParticleDistribution::Aabb(area).sample(&mut rng, 0).is_empty());
    assert!(ParticleDistribution::Aabb(area).sample(&mut rng, -1000).is_empty());
    let inverted = Aabb { min: p(2000, 2000), max: p(0, 0) };
    assert!(ParticleDistribution::Aabb(inverted).sample(&mut rng, 5000).is_empty());
    let circle = ParticleDistribution::Circle { center: p(0, 0), radius: 500 };
    assert!(circle.sample(&mut rng, 0).is_empty());
    let line = ParticleDistribution::Drawing { points: vec![p(0, 0)], width: 200 };
    assert!(line.sample(&mut rng, 5000).is_empty());
    let none = ParticleDistribution::Drawing { points: Vec::new(), width: 200 };
    assert!(none.sample(&mut rng, 5000).is_empty());
}

#[test]
fn sample_mean_converges_to_the_expected_count() {
    let shape = ParticleDistribution::Aabb(Aabb { min: p(0, 0), max: p(2000, 3000) });
    let mut rng = StdRng::seed_from_u64(2024);
    let trials: usize = 4000;
    let mut total: usize = 0;
    let mut trial = 0;
    while trial < trials {
        total += shape.sample(&mut rng, 750).len();
        trial += 1;
    }
    let mean = total as f64 / trials as f64;
    assert!((mean - 4.5).abs() < 0.05, "mean {}", mean);
}

#[test]
fn the_extra_particle_comes_and_goes() {
    let shape = ParticleDistribution::Aabb(Aabb { min: p(0, 0), max: p(2000, 3000) });
    let mut rng = StdRng::seed_from_u64(77);
    let mut with = 0;
    let mut without = 0;
    let mut trial = 0;
    while trial < 200 {
        if shape.sample(&mut rng, 750).len() == 5 {
            with += 1;
        } else {
            without += 1;
        }
        trial += 1;
    }
    assert!(with > 50);
    assert!(without > 50);
}

#[test]
fn sampled_points_vary() {
    let shape = ParticleDistribution::Aabb(Aabb { min: p(-4000, -4000), max: p(4000, 4000) });
    let mut rng = StdRng::seed_from_u64(3);
    let points = shape.sample(&mut rng, 1000);
    assert_eq!(points.len(), 64);
    assert!(points.iter().any(|q| q.x != -4000));
    assert!(points.iter().any(|q| q.y != -4000));
    assert!(points.iter().any(|q| q.x != 4000));
    assert!(points.iter().any(|q| *q != points[0]));
    assert!(points.iter().any(|q| q.x > 0) && points.iter().any(|q| q.x < 0));
    assert!(points.iter().any(|q| q.y > 0) && points.iter().any(|q| q.y < 0));
}

#[test]
fn the_same_seed_gives_the_same_sample() {
    let shape = ParticleDistribution::Circle { center: p(1000, 1000), radius: 2000 };
    let mut first = StdRng::seed_from_u64(99);
    let mut second = StdRng::seed_from_u64(99);
    assert_eq!(shape.sample(&mut first, 3000), shape.sample(&mut second, 3000));
}

#[test]
fn sample_of_a_disc_stays_in_the_disc() {
    let shape = ParticleDistribution::Circle { center: p(1000, -2000), radius: 1500 };
    let mut rng = StdRng::seed_from_u64(8);
    let points = shape.sample(&mut rng, 5000);
    assert!(points.len() == 35 || points.len() == 36);
    for q in &points {
        assert!(p(1000, -2000).distance_sq(q) <= 1500 * 1500);
    }
    assert!(points.iter().any(|q| *q != p(1000, -2000)));
}

#[test]
fn sample_of_a_ribbon_follows_the_path() {
    let path = vec![p(0, 0), p(4000, 0), p(4000, 4000)];
    let shape = ParticleDistribution::Drawing { points: path, width: 200 };
    let mut rng = StdRng::seed_from_u64(21);
    let points = shape.sample(&mut rng, 5000);
    assert_eq!(points.len(), 8);
    for q in &points {
        let first = -200 <= q.y && q.y <= 200 && 0 <= q.x && q.x <= 4000;
        let second = 3800 <= q.x && q.x <= 4200 && 0 <= q.y && q.y <= 4000;
        assert!(first || second);
    }
    for q in &points[..4] {
        assert!(-200 <= q.y && q.y <= 200 && 0 <= q.x && q.x <= 4000);
    }
    for q in &points[4..] {
        assert!(3800 <= q.x && q.x <= 4200 && 0 <= q.y && q.y <= 4000);
    }
    let thin = ParticleDistribution::Drawing { points: vec![p(0, 0), p(3000, 4000)], width: 200 };
    let mut trial = 0;
    while trial < 40 {
        let n = thin.sample(&mut rng, 500).len();
        assert!(n == 0 || n == 1);
        trial += 1;
    }
}

#[test]
fn usual_request() {
    let request = SpawnParticles::default();
    assert_eq!(request.kind, ParticleKind::Draw);
    assert_eq!(request.density, 5000);
    assert_eq!(request.size, Interval { min: 50, max: 150 });
    assert_eq!(request.velocity, p(0, 0));
    assert_eq!(request.lifetime, Interval { min: 500, max: 1500 });
    assert!(matches!(
        request.distribution,
        ParticleDistribution::Circle { center, radius } if center == p(0, 0) && radius == 500
    ));
    let other = SpawnParticles::new(ParticleKind::Heal, ParticleDistribution::Aabb(Aabb { min: p(0, 0), max: p(1, 1) }));
    assert_eq!(other.kind, ParticleKind::Heal);
    assert_eq!(other.density, 5000);
    assert!(matches!(other.distribution, ParticleDistribution::Aabb(_)));
}

#[test]
fn a_ribbon_is_sampled_span_by_span() {
    let path = vec![p(0, 0), p(10000, 0), p(10000, 50000), p(-30000, 50000)];
    let shape = ParticleDistribution::Drawing { points: path, width: 100 };
    let mut rng = StdRng::seed_from_u64(4);
    let mut trial = 0;
    while trial < 20 {
        let points = shape.sample(&mut rng, 2500);
        let first = points.iter().take_while(|q| q.y <= 100 && q.x <= 10000).count();
        assert!(first == 2 || first == 3);
        let second = points[first..].iter().take_while(|q| q.x >= 9900).count();
        assert!(second == 12 || second == 13);
        let third = points.len() - first - second;
        assert_eq!(third, 10);
        for q in &points[first + second..] {
            assert!(49900 <= q.y && q.y <= 50100 && q.x <= 10000);
        }
        trial += 1;
    }
}
