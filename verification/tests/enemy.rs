use dashline::bounded::Bounded;
use dashline::collider::{Collider, PhysicsBody, Shape};
use dashline::enemy::{
    Enemy, EnemyAI, EnemyConfig, HelicopterAI, HelicopterState, Pacman1Up, PacmanAI, PacmanState,
    UnitAI, UnitConfig,
};
use dashline::geometry::Position;

fn crawler() -> EnemyConfig {
    EnemyConfig {
        cost: Some(3),
        score: Some(10),
        health: 4000,
        damage: 1000,
        speed: 2000,
        acceleration: 8000,
        shape: Shape::Rectangle { width: 800, height: 600 },
        ai: EnemyAI::Crawler,
    }
}

#[test]
fn an_enemy_starts_at_full_health_and_at_rest() {
    let enemy = Enemy::new(crawler(), Position::new(1000, -1000));
    assert_eq!(enemy.health, Bounded { value: 4000, min: 0, max: 4000 });
    assert_eq!(
        enemy.body,
        PhysicsBody {
            collider: Collider {
                position: Position::new(1000, -1000),
                rotation: 0,
                shape: Shape::Rectangle { width: 800, height: 600 },
            },
            velocity: Position::new(0, 0),
            angular_velocity: 0,
        }
    );
    assert_eq!(enemy.stats.speed, 2000);
    assert_eq!(enemy.stats.cost, Some(3));
    assert!(matches!(enemy.ai, EnemyAI::Crawler));
    assert!(matches!(enemy.stats.ai, EnemyAI::Crawler));
}

#[test]
fn a_body_rolls_at_half_its_speed() {
    let mut enemy = Enemy::new(crawler(), Position::new(0, 0));
    enemy.body.velocity = Position::new(3000, 4000);
    enemy.move_rotation();
    assert_eq!(enemy.body.angular_velocity, 2500);
    enemy.body.velocity = Position::new(-3000, 4000);
    enemy.move_rotation();
    assert_eq!(enemy.body.angular_velocity, -2500);
    enemy.body.velocity = Position::new(0, -4001);
    enemy.move_rotation();
    assert_eq!(enemy.body.angular_velocity, 2000);
    enemy.body.velocity = Position::new(0, 0);
    enemy.move_rotation();
    assert_eq!(enemy.body.angular_velocity, 0);
    enemy.body.velocity = Position::new(i32::MIN, i32::MIN);
    enemy.move_rotation();
    assert_eq!(enemy.body.angular_velocity, -1_518_500_249);
}

#[test]
fn a_pacman_starts_without_power() {
    let pacman = PacmanAI::default();
    assert_eq!(
        pacman,
        PacmanAI {
            state: PacmanState::Normal { spawn_1up: Bounded { value: 5000, min: 0, max: 5000 }, target: None },
            speed_power: 9000,
        }
    );
    let pickup = Pacman1Up { collider: Collider::new(Position::new(1, 2), Shape::circle(300)) };
    assert_eq!(pickup.collider.position, Position::new(1, 2));
}

#[test]
fn a_helicopter_starts_idle() {
    let helicopter = HelicopterAI::default();
    assert_eq!(helicopter.oscilate, Bounded { value: 0, min: 0, max: 7000 });
    assert!(matches!(helicopter.state, HelicopterState::Idle));
    assert_eq!(
        helicopter.minigun_bullet,
        UnitConfig {
            cost: None,
            score: None,
            health: 1000,
            damage: 5000,
            speed: 15000,
            acceleration: 100000,
            shape: Shape::Circle { radius: 200 },
            ai: UnitAI::Bullet,
        }
    );
}

#[test]
fn a_behaviour_is_copied_whole() {
    let minions = vec![HelicopterAI::default().minigun_bullet, UnitConfig {
        cost: Some(1),
        score: Some(2),
        health: 3000,
        damage: 1000,
        speed: 500,
        acceleration: 100,
        shape: Shape::Rectangle { width: 10, height: 20 },
        ai: UnitAI::Crawler,
    }];
    let ai = EnemyAI::Helicopter {
        helicopter: HelicopterAI {
            oscilate: Bounded { value: 100, min: 0, max: 7000 },
            state: HelicopterState::Minions { minions: minions.clone(), delay: Bounded::new_max(500) },
            minigun_bullet: minions[1],
        },
    };
    let mut config = crawler();
    config.ai = ai;
    let enemy = Enemy::new(config, Position::new(0, 0));
    match (&enemy.ai, &enemy.stats.ai) {
        (EnemyAI::Helicopter { helicopter: copy }, EnemyAI::Helicopter { helicopter: kept }) => {
            assert_eq!(copy.oscilate, Bounded { value: 100, min: 0, max: 7000 });
            assert_eq!(copy.minigun_bullet, minions[1]);
            assert_eq!(kept.minigun_bullet, minions[1]);
            match &copy.state {
                HelicopterState::Minions { minions: copied, delay } => {
                    assert_eq!(*copied, minions);
                    assert_eq!(*delay, Bounded { value: 500, min: 0, max: 500 });
                }
                _ => panic!("the state was not copied"),
            }
        }
        _ => panic!("the behaviour was not copied"),
    }
    let shooter = EnemyAI::Shooter {
        preferred_distance: 4000,
        charge: Bounded::new_zero(2000),
        bullet: minions[0],
    };
    assert!(matches!(
        shooter.duplicate(),
        EnemyAI::Shooter { preferred_distance: 4000, charge, bullet }
            if charge == Bounded::new_zero(2000) && bullet == minions[0]
    ));
    assert!(matches!(EnemyAI::Pacman { pacman: PacmanAI::default() }.duplicate(),
        EnemyAI::Pacman { pacman } if pacman == PacmanAI::default()));
    assert!(matches!(HelicopterState::Moving(Position::new(5, 6)).duplicate(),
        HelicopterState::Moving(target) if target == Position::new(5, 6)));
    assert!(matches!(HelicopterState::Minigun { timer: 7, shot_delay: Bounded::new_max(9) }.duplicate(),
        HelicopterState::Minigun { timer: 7, shot_delay } if shot_delay == Bounded::new_max(9)));
    assert!(matches!(EnemyAI::Idle.duplicate(), EnemyAI::Idle));
    assert!(matches!(EnemyAI::Bullet.duplicate(), EnemyAI::Bullet));
}
