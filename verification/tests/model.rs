use dashline::bounded::Bounded;
use dashline::collider::{Collider, PhysicsBody, Shape};
use dashline::drawing::{DrawPoint, Drawing};
use dashline::enemy::{Enemy, EnemyAI, EnemyConfig};
use dashline::geometry::{Aabb, Position};
use dashline::events::{plan_sounds, Event, SoundEvent};
use dashline::model::{
    advance, move_direction, steer, Config, DashConfig, Model, PlayerConfig, PlayerControls,
};
use dashline::particles::{ParticleDistribution, ParticleKind};
use dashline::rooms::{Direction, Room};

fn p(x: i32, y: i32) -> Position {
    Position::new(x, y)
}

fn config() -> Config {
    Config {
        starting_area: p(10000, 10000),
        player: PlayerConfig {
            health: 10000,
            speed: 5000,
            acceleration: 20000,
            invincibility: 1000,
            dash: DashConfig { max_distance: 20000, speed: 30000, width: 400, damage: 1000 },
        },
    }
}

fn idle() -> PlayerControls {
    PlayerControls { move_dir: p(0, 0), drawing: None }
}

fn draw(x: i32, y: i32) -> PlayerControls {
    PlayerControls { move_dir: p(0, 0), drawing: Some(p(x, y)) }
}

fn target(x: i32, y: i32, health: i32, radius: i32) -> Enemy {
    Enemy::new(
        EnemyConfig {
            cost: None,
            score: None,
            health,
            damage: 1000,
            speed: 0,
            acceleration: 0,
            shape: Shape::circle(radius),
            ai: EnemyAI::Idle,
        },
        p(x, y),
    )
}

#[test]
fn a_game_starts_with_one_room_around_the_origin() {
    let model = Model::new(config());
    assert_eq!(
        model.rooms.rooms,
        vec![Room {
            area: Aabb { min: p(-5000, -5000), max: p(5000, 5000) },
            unlocked_after: None,
            expanded_direction: None,
        }]
    );
    assert_eq!(model.room_colliders.len(), 4);
    assert_eq!(model.player.body, PhysicsBody::new(p(0, 0), Shape::circle(500)));
    assert_eq!(model.player.health, Bounded { value: 10000, min: 0, max: 10000 });
    assert_eq!(model.player.invincibility, Bounded { value: 0, min: 0, max: 1000 });
    assert!(model.player.draw_action.is_none());
    assert!(model.enemies.is_empty());
    assert!(model.events.is_empty());
    assert!(model.particles_queue.is_empty());
    assert_eq!(model.real_time, 0);
    assert_eq!(model.config, config());
    assert!(model.can_expand());
}

#[test]
fn stroke_inside_the_room_becomes_a_dash() {
    let mut model = Model::new(config());
    model.controls(draw(0, 0), 16);
    model.controls(draw(4000, 0), 16);
    model.controls(draw(4000, 4000), 16);
    {
        let stroke = model.player.draw_action.as_ref().unwrap();
        assert_eq!(stroke.raw_positions(), vec![p(0, 0), p(0, 0), p(4000, 0), p(4000, 4000)]);
        assert_eq!(stroke.length(), 8000);
        assert!(stroke.points_smoothed.len() >= 2);
        assert_eq!(stroke.points_smoothed.len(), 7);
        assert_eq!(stroke.points_smoothed[3], p(4000, 0));
    }
    assert_eq!(model.player.body.collider.position, p(0, 0));
    assert_eq!(model.player.body.velocity, p(0, 0));
    model.controls(idle(), 16);
    assert!(model.player.draw_action.is_none());
    assert_eq!(model.player.body.collider.position, p(4000, 4000));
    let v = model.player.body.velocity;
    assert_eq!(v, p(-3718, 29773));
    assert!(v.y > 29000 && v.x.abs() < 4000);
    assert_eq!(model.player.invincibility, Bounded { value: 1000, min: 0, max: 1000 });
    assert_eq!(model.rooms.rooms.len(), 1);
    assert_eq!(model.rooms.rooms[0].expanded_direction, None);
    assert!(model.events.is_empty());
}

#[test]
fn stroke_through_the_wall_unlocks_a_room() {
    let mut model = Model::new(config());
    model.controls(draw(6000, 0), 16);
    {
        let stroke = model.player.draw_action.as_ref().unwrap();
        assert_eq!(stroke.raw_positions(), vec![p(0, 0), p(6000, 0)]);
        assert_eq!(stroke.points_smoothed, vec![p(0, 0), p(6000, 0)]);
    }
    assert_eq!(model.rooms.rooms[0].closest_wall(p(6000, 0)), Some((1000, Direction::Right)));
    model.controls(idle(), 16);
    assert_eq!(model.player.body.collider.position, p(6000, 0));
    assert_eq!(model.player.body.velocity, p(30000, 0));
    assert_eq!(model.rooms.rooms.len(), 2);
    assert_eq!(model.rooms.rooms[0].expanded_direction, Some(Direction::Right));
    assert_eq!(
        model.rooms.rooms[1],
        Room {
            area: Aabb { min: p(5000, -5000), max: p(15000, 5000) },
            unlocked_after: Some((0, Direction::Right)),
            expanded_direction: None,
        }
    );
    assert_eq!(model.events, vec![Event::Sound(SoundEvent::Expand)]);
    assert_eq!(model.room_colliders, model.rooms.wall_colliders());
    assert_eq!(model.room_colliders.len(), 6);
    let last = model.particles_queue.last().unwrap();
    assert_eq!(last.kind, ParticleKind::WallBreakable);
    assert!(matches!(
        last.distribution,
        ParticleDistribution::Circle { center, radius } if center == p(6000, 0) && radius == 1000
    ));
}

#[test]
fn a_second_stroke_through_the_same_room_unlocks_nothing() {
    let mut model = Model::new(config());
    model.controls(draw(6000, 0), 16);
    model.controls(idle(), 16);
    assert_eq!(model.rooms.rooms.len(), 2);
    model.player.body.collider.position = p(0, 0);
    model.player.body.velocity = p(0, 0);
    model.events.clear();
    model.controls(draw(0, 6000), 16);
    assert_eq!(model.player.draw_action.as_ref().unwrap().points_raw.len(), 1);
    model.controls(draw(0, 4000), 16);
    assert_eq!(model.player.draw_action.as_ref().unwrap().points_raw.len(), 2);
    model.controls(idle(), 16);
    assert_eq!(model.player.body.collider.position, p(0, 4000));
    assert_eq!(model.rooms.rooms.len(), 2);
    assert!(model.events.is_empty());
}

#[test]
fn a_short_stroke_is_no_dash() {
    let mut model = Model::new(config());
    model.player.body.velocity = p(0, 0);
    model.enemies.push(target(0, 0, 5000, 200));
    let rooms = model.rooms.rooms.clone();
    let invincibility = model.player.invincibility;
    model.player_dash(Drawing { points_raw: vec![DrawPoint { position: p(0, 0), time: 0 }], points_smoothed: vec![] });
    model.player_dash(Drawing {
        points_raw: vec![DrawPoint { position: p(0, 0), time: 0 }],
        points_smoothed: vec![p(9000, 9000)],
    });
    assert_eq!(model.player.body.collider.position, p(0, 0));
    assert_eq!(model.player.body.velocity, p(0, 0));
    assert_eq!(model.player.invincibility, invincibility);
    assert_eq!(model.rooms.rooms, rooms);
    assert!(model.events.is_empty());
    assert!(model.particles_queue.is_empty());
    assert_eq!(model.enemies[0].health.value, 5000);
}

#[test]
fn releasing_a_stroke_of_one_point_ends_it() {
    let mut model = Model::new(config());
    model.controls(draw(0, 0), 16);
    assert_eq!(model.player.draw_action.as_ref().unwrap().points_raw.len(), 2);
    assert_eq!(model.player.draw_action.as_ref().unwrap().points_smoothed, vec![p(0, 0)]);
    model.controls(idle(), 16);
    assert!(model.player.draw_action.is_none());
    assert_eq!(model.player.body.collider.position, p(0, 0));
    assert_eq!(model.player.invincibility.value, 0);
    assert!(model.events.is_empty());
    model.stop_drawing();
    assert!(model.player.draw_action.is_none());
}

#[test]
fn a_stroke_starts_where_the_player_stands() {
    let mut model = Model::new(config());
    model.player.body.collider.position = p(1000, -2000);
    model.real_time = 42;
    model.controls(draw(3000, 3000), 16);
    let stroke = model.player.draw_action.as_ref().unwrap();
    assert_eq!(stroke.points_raw[0], DrawPoint { position: p(1000, -2000), time: 42 });
    assert_eq!(stroke.points_raw[1], DrawPoint { position: p(3000, 3000), time: 42 });
}

#[test]
fn a_point_beyond_an_ineligible_wall_is_not_taken() {
    let mut model = Model::new(config());
    model.rooms.rooms[0].expanded_direction = Some(Direction::Left);
    assert!(!model.can_expand());
    model.controls(draw(6000, 0), 16);
    assert_eq!(model.player.draw_action.as_ref().unwrap().points_raw.len(), 1);
    assert_eq!(model.particles_queue.len(), 1);
    model.controls(draw(3000, 0), 16);
    assert_eq!(model.player.draw_action.as_ref().unwrap().points_raw.len(), 2);
    assert_eq!(model.particles_queue.len(), 2);
}

#[test]
fn drawing_asks_for_particles_along_the_curve() {
    let mut model = Model::new(config());
    model.controls(draw(4000, 0), 16);
    assert_eq!(model.particles_queue.len(), 1);
    let request = &model.particles_queue[0];
    assert_eq!(request.kind, ParticleKind::Draw);
    assert_eq!(request.density, 500);
    assert!(matches!(
        &request.distribution,
        ParticleDistribution::Drawing { points, width } if *points == vec![p(0, 0), p(4000, 0)] && *width == 200
    ));
}

#[test]
fn a_stroke_is_cut_at_the_budget() {
    let mut model = Model::new(config());
    model.player.stats.dash.max_distance = 3000;
    model.controls(draw(4000, 0), 16);
    model.controls(draw(0, 4000), 16);
    let stroke = model.player.draw_action.as_ref().unwrap();
    assert_eq!(stroke.raw_positions(), vec![p(0, 0), p(3000, 0)]);
    assert_eq!(stroke.length(), 3000);
}

#[test]
fn steering_approaches_the_wished_velocity() {
    assert_eq!(steer(&p(0, 0), &p(1000, 0), 5000, 20000, 100), p(2000, 0));
    assert_eq!(steer(&p(0, 0), &p(1000, 1000), 5000, 20000, 100), p(1414, 1414));
    assert_eq!(steer(&p(4000, 0), &p(1000, 0), 5000, 20000, 100), p(5000, 0));
    assert_eq!(steer(&p(2000, 0), &p(0, 0), 5000, 20000, 50), p(1000, 0));
    assert_eq!(steer(&p(2000, 0), &p(1000, 0), 5000, 20000, 0), p(2000, 0));
    assert_eq!(advance(&p(0, 0), &p(2000, -500), 100), p(200, -50));
    assert_eq!(advance(&p(i32::MAX, 0), &p(2000, 0), 1000), p(i32::MAX, 0));
}

#[test]
fn the_player_moves_when_not_drawing() {
    let mut model = Model::new(config());
    model.controls(PlayerControls { move_dir: p(1000, 0), drawing: None }, 100);
    assert_eq!(model.player.body.velocity, p(2000, 0));
    assert_eq!(model.player.body.collider.position, p(200, 0));
    model.controls(PlayerControls { move_dir: p(1000, 0), drawing: None }, 100);
    assert_eq!(model.player.body.velocity, p(4000, 0));
    assert_eq!(model.player.body.collider.position, p(600, 0));
    model.controls(PlayerControls { move_dir: p(1000, 0), drawing: Some(p(1000, 0)) }, 100);
    assert_eq!(model.player.body.velocity, p(5000, 0));
    assert_eq!(model.player.body.collider.position, p(1100, 0));
    model.controls(PlayerControls { move_dir: p(1000, 0), drawing: Some(p(1000, 0)) }, 100);
    assert_eq!(model.player.body.velocity, p(0, 0));
    assert_eq!(model.player.body.collider.position, p(1100, 0));
}

#[test]
fn invincibility_runs_out_with_a_shield_request() {
    let mut model = Model::new(config());
    model.controls(draw(2000, 0), 16);
    model.controls(idle(), 16);
    assert_eq!(model.player.invincibility.value, 1000);
    model.player.body.velocity = p(0, 0);
    model.particles_queue.clear();
    model.controls(idle(), 400);
    assert_eq!(model.player.invincibility.value, 600);
    model.controls(idle(), 400);
    assert_eq!(model.player.invincibility.value, 200);
    assert!(model.particles_queue.is_empty());
    model.controls(idle(), 400);
    assert_eq!(model.player.invincibility.value, 0);
    assert_eq!(model.particles_queue.len(), 1);
    assert_eq!(model.particles_queue[0].kind, ParticleKind::Shield);
    assert!(matches!(
        model.particles_queue[0].distribution,
        ParticleDistribution::Circle { center, radius } if center == p(2000, 0) && radius == 600
    ));
    model.controls(idle(), 400);
    assert_eq!(model.particles_queue.len(), 1);
}

#[test]
fn a_dash_restarts_the_invincibility() {
    let mut model = Model::new(config());
    model.player.invincibility.value = 300;
    model.player_dash(Drawing { points_raw: vec![], points_smoothed: vec![p(0, 0), p(100, 0)] });
    assert_eq!(model.player.invincibility, Bounded { value: 1000, min: 0, max: 1000 });
}

#[test]
fn a_dash_between_coinciding_points_leaves_the_player_at_rest() {
    let mut model = Model::new(config());
    model.player.body.velocity = p(700, 700);
    model.player_dash(Drawing { points_raw: vec![], points_smoothed: vec![p(100, 100), p(100, 100)] });
    assert_eq!(model.player.body.collider.position, p(100, 100));
    assert_eq!(model.player.body.velocity, p(0, 0));
}

#[test]
fn a_dash_strikes_the_enemies_along_it() {
    let mut model = Model::new(config());
    model.enemies.push(target(2000, 300, 1500, 200));
    model.enemies.push(target(2000, 700, 1500, 200));
    model.enemies.push(target(4300, 0, 1000, 200));
    model.player_dash(Drawing { points_raw: vec![], points_smoothed: vec![p(0, 0), p(4000, 0)] });
    assert_eq!(model.enemies[0].health.value, 500);
    assert_eq!(model.enemies[1].health.value, 1500);
    assert_eq!(model.enemies[2].health.value, 0);
    assert_eq!(model.events, vec![Event::Sound(SoundEvent::Hit), Event::Sound(SoundEvent::Kill)]);
    assert_eq!(model.particles_queue.len(), 2);
    assert_eq!(model.particles_queue[0].kind, ParticleKind::Damage);
    assert!(matches!(
        model.particles_queue[1].distribution,
        ParticleDistribution::Circle { center, radius } if center == p(4300, 0) && radius == 600
    ));
}

#[test]
fn a_dash_strikes_each_enemy_once() {
    let mut model = Model::new(config());
    model.enemies.push(target(4000, 100, 5000, 200));
    let path = vec![p(0, 0), p(4000, 0), p(4000, 4000), p(4000, 0), p(0, 0)];
    let drawing = Drawing { points_raw: vec![], points_smoothed: path };
    model.damage_around(&drawing, 400, 1000);
    assert_eq!(model.enemies[0].health.value, 4000);
    assert_eq!(model.events, vec![Event::Sound(SoundEvent::Hit)]);
    model.damage_around(&drawing, 400, 1000);
    assert_eq!(model.enemies[0].health.value, 3000);
}

#[test]
fn unlock_room_queues_its_sound() {
    let mut model = Model::new(config());
    model.unlock_room(0, p(0, -7000));
    assert_eq!(model.rooms.rooms.len(), 2);
    assert_eq!(model.rooms.rooms[1].area, Aabb { min: p(-5000, -15000), max: p(5000, -5000) });
    assert_eq!(model.events, vec![Event::Sound(SoundEvent::Expand)]);
    model.unlock_room(0, p(0, -7000));
    model.unlock_room(5, p(0, 7000));
    assert_eq!(model.rooms.rooms.len(), 2);
    assert_eq!(model.events.len(), 1);
    model.room_colliders.clear();
    model.update_room_colliders();
    assert_eq!(model.room_colliders.len(), 6);
}

#[test]
fn sounds_are_planned_from_the_events() {
    let plan = plan_sounds(&vec![
        Event::Sound(SoundEvent::Hit),
        Event::Sound(SoundEvent::Expand),
        Event::Sound(SoundEvent::Kill),
        Event::Sound(SoundEvent::Bounce),
        Event::Sound(SoundEvent::Hit),
        Event::Sound(SoundEvent::HitSelf),
    ]);
    assert!(!plan.drawing);
    assert_eq!(plan.impact, Some(SoundEvent::Kill));
    assert_eq!(plan.singles, vec![SoundEvent::Expand, SoundEvent::Bounce, SoundEvent::HitSelf]);
    let plan = plan_sounds(&vec![Event::Sound(SoundEvent::Drawing), Event::Sound(SoundEvent::Hit)]);
    assert!(plan.drawing);
    assert_eq!(plan.impact, Some(SoundEvent::Hit));
    assert!(plan.singles.is_empty());
    let plan = plan_sounds(&Vec::new());
    assert!(!plan.drawing);
    assert_eq!(plan.impact, None);
    assert!(plan.singles.is_empty());
}

#[test]
fn keys_give_the_wish_to_move() {
    assert_eq!(move_direction(false, false, false, false), p(0, 0));
    assert_eq!(move_direction(true, false, false, false), p(-1000, 0));
    assert_eq!(move_direction(false, true, false, true), p(707, 707));
    assert_eq!(move_direction(true, false, false, true), p(-707, 707));
    assert_eq!(move_direction(true, false, true, false), p(-707, -707));
    assert_eq!(move_direction(false, true, true, false), p(707, -707));
    assert_eq!(move_direction(false, false, false, true), p(0, 1000));
    assert_eq!(move_direction(true, true, true, false), p(0, -1000));
    assert_eq!(move_direction(true, true, true, true), p(0, 0));
}

#[test]
fn bounded_values_stay_between_their_limits() {
    let mut health = Bounded::new_max(5000);
    assert_eq!(health, Bounded { value: 5000, min: 0, max: 5000 });
    assert!(health.is_max());
    health.change(-1500);
    assert_eq!(health.value, 3500);
    assert_eq!(health.get_ratio(), 700);
    health.change(10_000);
    assert_eq!(health.value, 5000);
    health.change(i64::MIN);
    assert_eq!(health.value, 0);
    assert!(health.is_min());
    assert!(!health.is_above_min());
    health.set_ratio(250);
    assert_eq!(health.value, 1250);
    assert!(health.is_above_min());
    health.set_ratio(1000);
    assert_eq!(health.value, 5000);
    health.set_ratio(3000);
    assert_eq!(health.value, 5000);
    health.set_ratio(-10);
    assert_eq!(health.value, 0);
    assert_eq!(Bounded::new_zero(7000), Bounded { value: 0, min: 0, max: 7000 });
    assert_eq!(Bounded { value: 3, min: 3, max: 3 }.get_ratio(), 0);
}

#[test]
fn shapes_reach_from_their_centre() {
    assert_eq!(Shape::circle(500).extent(), 500);
    assert_eq!(Shape::circle(-500).extent(), 0);
    assert_eq!(Shape::Rectangle { width: 1000, height: 2000 }.extent(), 1118);
    let body = Collider::new(p(2000, 300), Shape::circle(200));
    assert!(body.is_touched(&p(0, 0), &p(4000, 0), 100));
    assert!(!body.is_touched(&p(0, 0), &p(4000, 0), 99));
    assert!(!body.is_touched(&p(0, 0), &p(4000, 0), -300));
    assert!(body.is_swept_by(&vec![p(0, 5000), p(0, 0), p(4000, 0)], 100));
    assert!(!body.is_swept_by(&vec![p(0, 5000), p(0, 600)], 100));
    assert!(!body.is_swept_by(&vec![p(2000, 300)], 100));
    assert!(!body.is_swept_by(&Vec::new(), 100));
}

#[test]
fn draining_empties_the_queues() {
    let mut model = Model::new(config());
    model.controls(draw(6000, 0), 16);
    model.controls(idle(), 16);
    let events = model.drain_events();
    assert_eq!(events, vec![Event::Sound(SoundEvent::Expand)]);
    assert!(model.events.is_empty());
    assert!(model.drain_events().is_empty());
    let requests = model.drain_particles();
    assert_eq!(requests.len(), 2);
    assert_eq!(requests[0].kind, ParticleKind::Draw);
    assert_eq!(requests[1].kind, ParticleKind::WallBreakable);
    assert!(model.particles_queue.is_empty());
}

#[test]
fn a_long_game_keeps_its_invariants() {
    let mut model = Model::new(config());
    let mut seed: u64 = 0x9e3779b97f4a7c15;
    let mut tick = 0;
    let mut dashes = 0;
    while tick < 3000 {
        seed = seed.wrapping_mul(6364136223846793005).wrapping_add(1442695040888963407);
        let a = ((seed >> 33) % 40001) as i32 - 20000;
        seed = seed.wrapping_mul(6364136223846793005).wrapping_add(1442695040888963407);
        let b = ((seed >> 33) % 40001) as i32 - 20000;
        let here = model.player.body.collider.position;
        let drawing = if (seed >> 20) % 7 == 0 { None } else { Some(p(here.x + a / 4, here.y + b / 4)) };
        let was_drawing = model.player.draw_action.is_some();
        model.controls(PlayerControls { move_dir: p(a / 20, b / 20), drawing }, 16);
        if let Some(stroke) = &model.player.draw_action {
            assert!(!stroke.points_raw.is_empty());
            assert!(stroke.length() <= 20000);
            if stroke.points_raw.len() >= 2 {
                assert_eq!(stroke.points_smoothed, dashline::smoothing::smooth(&stroke.raw_positions()));
            }
        } else if was_drawing {
            dashes += 1;
        }
        assert_eq!(model.room_colliders, model.rooms.wall_colliders());
        let rooms = &model.rooms.rooms;
        assert_eq!(rooms[0].unlocked_after, None);
        let mut i = 1;
        while i < rooms.len() {
            let (parent, side) = rooms[i].unlocked_after.unwrap();
            assert!(parent < i);
            assert_eq!(rooms[parent].expanded_direction, Some(side));
            assert_eq!(rooms[i].area, rooms[parent].neighbour_area(side));
            let mut j = i + 1;
            while j < rooms.len() {
                assert_ne!(rooms[j].unlocked_after.unwrap().0, parent);
                j += 1;
            }
            i += 1;
        }
        model.drain_events();
        model.drain_particles();
        tick += 1;
    }
    assert!(dashes > 100);
    assert!(model.rooms.rooms.len() > 1);
}

#[test]
fn the_wish_to_move_is_at_most_one_unit_long() {
    for bits in 0..16 {
        let dir = move_direction(bits & 1 != 0, bits & 2 != 0, bits & 4 != 0, bits & 8 != 0);
        assert!((dir.x as i64) * (dir.x as i64) + (dir.y as i64) * (dir.y as i64) <= 1_000_000);
    }
}

#[test]
fn keys_and_cursor_give_the_input() {
    let input = PlayerControls::from_keys(false, true, false, true, true, p(1234, -5));
    assert_eq!(input, PlayerControls { move_dir: p(707, 707), drawing: Some(p(1234, -5)) });
    let input = PlayerControls::from_keys(true, false, false, false, false, p(1234, -5));
    assert_eq!(input, PlayerControls { move_dir: p(-1000, 0), drawing: None });
}

#[test]
fn a_whole_step_runs_the_clocks_first() {
    let mut model = Model::new(config());
    model.update(draw(2000, 0), 16);
    assert_eq!(model.real_time, 16);
    assert_eq!(model.game_time, 16);
    let stroke = model.player.draw_action.as_ref().unwrap();
    assert_eq!(stroke.points_raw[0], DrawPoint { position: p(0, 0), time: 16 });
    assert_eq!(stroke.points_raw[1], DrawPoint { position: p(2000, 0), time: 16 });
    model.update(idle(), 16);
    assert_eq!(model.real_time, 32);
    assert_eq!(model.player.body.collider.position, p(2000, 0));
    model.real_time = i32::MAX - 5;
    model.update(idle(), 16);
    assert_eq!(model.real_time, i32::MAX);
    assert_eq!(model.game_time, 48);
}

#[test]
fn a_step_keeps_the_way_the_player_faces() {
    let mut model = Model::new(config());
    model.player.body.collider.rotation = 1571;
    model.update(PlayerControls { move_dir: p(1000, 0), drawing: None }, 100);
    model.update(draw(2000, 0), 16);
    model.update(idle(), 16);
    assert_eq!(model.player.body.collider.rotation, 1571);
    assert_eq!(Collider::new(p(1, 2), Shape::circle(3)).rotation, 0);
}
