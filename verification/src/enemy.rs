//! Enemies: what the dash damages, and the data that their behaviours keep.

use vstd::prelude::*;
use crate::bounded::{Bounded, Health};
use crate::collider::{Collider, PhysicsBody, Shape};
use crate::fixed::{lemma_floor_sqrt, lemma_product_bound, Coord, Hp, Time};
use crate::geometry::{pos, Position};

verus! {

/// What an enemy is made from.
#[derive(Debug, Clone)]
pub struct EnemyConfig {
    pub cost: Option<u32>,
    pub score: Option<u32>,
    pub health: Hp,
    pub damage: Hp,
    pub speed: Coord,
    pub acceleration: Coord,
    pub shape: Shape,
    pub ai: EnemyAI,
}

/// What a bullet or a minion is made from: an enemy whose behaviour has
/// nothing to keep.
#[derive(Debug, Clone, Copy, PartialEq, Eq, Structural)]
pub struct UnitConfig {
    pub cost: Option<u32>,
    pub score: Option<u32>,
    pub health: Hp,
    pub damage: Hp,
    pub speed: Coord,
    pub acceleration: Coord,
    pub shape: Shape,
    pub ai: UnitAI,
}

/// The behaviours that keep nothing between ticks.
#[derive(Debug, Clone, Copy, PartialEq, Eq, Structural)]
pub enum UnitAI {
    Idle,
    Bullet,
    Crawler,
}

/// An enemy in the level.
#[derive(Debug, Clone)]
pub struct Enemy {
    pub health: Health,
    pub body: PhysicsBody,
    pub stats: EnemyConfig,
    pub ai: EnemyAI,
}

/// How an enemy behaves, with what the behaviour keeps between ticks.
#[derive(Debug, Clone)]
pub enum EnemyAI {
    Idle,
    Bullet,
    Crawler,
    Shooter { preferred_distance: Coord, charge: Bounded, bullet: UnitConfig },
    Pacman { pacman: PacmanAI },
    Helicopter { helicopter: HelicopterAI },
}

/// What a pacman keeps: its state, and the speed that it has with power.
#[derive(Debug, Clone, Copy, PartialEq, Eq, Structural)]
pub struct PacmanAI {
    pub state: PacmanState,
    pub speed_power: Coord,
}

/// A pacman roams and spawns its pick-up, or hunts for as long as its power lasts.
#[derive(Debug, Clone, Copy, PartialEq, Eq, Structural)]
pub enum PacmanState {
    Normal { spawn_1up: Bounded, target: Option<Position> },
    Power { timer: Bounded },
}

/// What a pacman picks up to gain its power.
#[derive(Debug, Clone, Copy, PartialEq, Eq, Structural)]
pub struct Pacman1Up {
    pub collider: Collider,
}

/// What a helicopter keeps: its sway, its state, and what its minigun fires.
#[derive(Debug, Clone)]
pub struct HelicopterAI {
    pub oscilate: Bounded,
    pub state: HelicopterState,
    pub minigun_bullet: UnitConfig,
}

/// What a helicopter is doing.
#[derive(Debug, Clone)]
pub enum HelicopterState {
    Idle,
    Moving(Position),
    Minigun { timer: Time, shot_delay: Bounded },
    Minions { minions: Vec<UnitConfig>, delay: Bounded },
}

/// What a helicopter is doing, as plain values.
#[verifier::ext_equal]
pub enum HelicopterStateView {
    Idle,
    Moving(Position),
    Minigun { timer: Time, shot_delay: Bounded },
    Minions { minions: Seq<UnitConfig>, delay: Bounded },
}

/// What a helicopter keeps, as plain values.
#[verifier::ext_equal]
pub struct HelicopterAIView {
    pub oscilate: Bounded,
    pub state: HelicopterStateView,
    pub minigun_bullet: UnitConfig,
}

/// A behaviour, as plain values.
#[verifier::ext_equal]
pub enum EnemyAIView {
    Idle,
    Bullet,
    Crawler,
    Shooter { preferred_distance: Coord, charge: Bounded, bullet: UnitConfig },
    Pacman { pacman: PacmanAI },
    Helicopter { helicopter: HelicopterAIView },
}

impl View for HelicopterState {
    type V = HelicopterStateView;

    open spec fn view(&self) -> HelicopterStateView {
        match *self {
            HelicopterState::Idle => HelicopterStateView::Idle,
            HelicopterState::Moving(target) => HelicopterStateView::Moving(target),
            HelicopterState::Minigun { timer, shot_delay } => HelicopterStateView::Minigun {
                timer,
                shot_delay,
            },
            HelicopterState::Minions { minions, delay } => HelicopterStateView::Minions {
                minions: minions@,
                delay,
            },
        }
    }
}

impl View for HelicopterAI {
    type V = HelicopterAIView;

    open spec fn view(&self) -> HelicopterAIView {
        HelicopterAIView {
            oscilate: self.oscilate,
            state: self.state@,
            minigun_bullet: self.minigun_bullet,
        }
    }
}

impl View for EnemyAI {
    type V = EnemyAIView;

    open spec fn view(&self) -> EnemyAIView {
        match *self {
            EnemyAI::Idle => EnemyAIView::Idle,
            EnemyAI::Bullet => EnemyAIView::Bullet,
            EnemyAI::Crawler => EnemyAIView::Crawler,
            EnemyAI::Shooter { preferred_distance, charge, bullet } => EnemyAIView::Shooter {
                preferred_distance,
                charge,
                bullet,
            },
            EnemyAI::Pacman { pacman } => EnemyAIView::Pacman { pacman },
            EnemyAI::Helicopter { helicopter } => EnemyAIView::Helicopter { helicopter: helicopter@ },
        }
    }
}

impl HelicopterState {
    /// A copy of this state.
    pub fn duplicate(&self) -> (copy: HelicopterState)
        ensures
            copy@ == self@,
    {
        match self {
            HelicopterState::Idle => HelicopterState::Idle,
            HelicopterState::Moving(target) => HelicopterState::Moving(*target),
            HelicopterState::Minigun { timer, shot_delay } => HelicopterState::Minigun {
                timer: *timer,
                shot_delay: *shot_delay,
            },
            HelicopterState::Minions { minions, delay } => HelicopterState::Minions {
                minions: minions.clone(),
                delay: *delay,
            },
        }
    }
}

impl HelicopterAI {
    /// A copy of what this helicopter keeps.
    pub fn duplicate(&self) -> (copy: HelicopterAI)
        ensures
            copy@ == self@,
    {
        HelicopterAI {
            oscilate: self.oscilate,
            state: self.state.duplicate(),
            minigun_bullet: self.minigun_bullet,
        }
    }
}

impl EnemyAI {
    /// A copy of this behaviour and of what it keeps.
    pub fn duplicate(&self) -> (copy: EnemyAI)
        ensures
            copy@ == self@,
    {
        match self {
            EnemyAI::Idle => EnemyAI::Idle,
            EnemyAI::Bullet => EnemyAI::Bullet,
            EnemyAI::Crawler => EnemyAI::Crawler,
            EnemyAI::Shooter { preferred_distance, charge, bullet } => EnemyAI::Shooter {
                preferred_distance: *preferred_distance,
                charge: *charge,
                bullet: *bullet,
            },
            EnemyAI::Pacman { pacman } => EnemyAI::Pacman { pacman: *pacman },
            EnemyAI::Helicopter { helicopter } => EnemyAI::Helicopter {
                helicopter: helicopter.duplicate(),
            },
        }
    }
}

impl Default for PacmanAI {
    /// A pacman without power, which spawns its pick-up every five seconds.
    fn default() -> (ai: Self)
        ensures
            ai == (PacmanAI {
                state: PacmanState::Normal {
                    spawn_1up: Bounded { value: 5000, min: 0, max: 5000 },
                    target: None,
                },
                speed_power: 9000,
            }),
    {
        PacmanAI {
            state: PacmanState::Normal { spawn_1up: Bounded::new_max(5000), target: None },
            speed_power: 9000,
        }
    }
}

impl Default for HelicopterAI {
    /// An idle helicopter whose minigun fires small fast bullets.
    fn default() -> (ai: Self)
        ensures
            ai.oscilate == (Bounded { value: 0, min: 0, max: 7000 }),
            ai.state@ == HelicopterStateView::Idle,
            ai.minigun_bullet == (UnitConfig {
                cost: None,
                score: None,
                health: 1000,
                damage: 5000,
                speed: 15000,
                acceleration: 100000,
                shape: Shape::Circle { radius: 200 },
                ai: UnitAI::Bullet,
            }),
    {
        HelicopterAI {
            oscilate: Bounded::new_zero(7000),
            state: HelicopterState::Idle,
            minigun_bullet: UnitConfig {
                cost: None,
                score: None,
                health: 1000,
                damage: 5000,
                speed: 15000,
                acceleration: 100000,
                shape: Shape::circle(200),
                ai: UnitAI::Bullet,
            },
        }
    }
}

impl Enemy {
    /// The turning speed that `move_rotation` gives a body with velocity
    /// `velocity`: half its speed, clockwise when it moves to the left.
    pub open spec fn rolling(velocity: Position) -> int {
        if velocity.x < 0 {
            -((pos(0, 0).dist(velocity) / 2) as int)
        } else {
            (pos(0, 0).dist(velocity) / 2) as int
        }
    }

    /// An enemy at full health, at rest at `position`.
    pub fn new(config: EnemyConfig, position: Position) -> (enemy: Enemy)
        ensures
            enemy.health == (Bounded { value: config.health, min: 0, max: config.health }),
            enemy.body == (PhysicsBody {
                collider: Collider { position, rotation: 0, shape: config.shape },
                velocity: Position { x: 0, y: 0 },
                angular_velocity: 0,
            }),
            enemy.stats == config,
            enemy.ai@ == config.ai@,
    {
        Enemy {
            health: Bounded::new_max(config.health),
            body: PhysicsBody::new(position, config.shape),
            ai: config.ai.duplicate(),
            stats: config,
        }
    }

    /// Makes the body turn as if it rolled at its speed.
    pub fn move_rotation(&mut self)
        ensures
            final(self).body.angular_velocity == Self::rolling(old(self).body.velocity),
            final(self).body.collider == old(self).body.collider,
            final(self).body.velocity == old(self).body.velocity,
            final(self).health == old(self).health,
            final(self).stats == old(self).stats,
            final(self).ai == old(self).ai,
    {
        let speed: u64 = Position::zero().distance(&self.body.velocity);
        proof {
            let v = self.body.velocity;
            let sq = pos(0, 0).dist_sq(v);
            lemma_floor_sqrt(sq);
            lemma_product_bound(v.x as int, v.x as int, 0x8000_0000, 0x8000_0000);
            lemma_product_bound(v.y as int, v.y as int, 0x8000_0000, 0x8000_0000);
            assert(v.x * v.x >= 0 && v.y * v.y >= 0) by (nonlinear_arith);
            if speed >= 0x1_0000_0000 {
                assert(speed * speed >= 0x1_0000_0000_0000_0000) by (nonlinear_arith)
                    requires
                        speed >= 0x1_0000_0000,
                ;
            }
        }
        let half: i32 = (speed / 2) as i32;
        if self.body.velocity.x < 0 {
            self.body.angular_velocity = -half;
        } else {
            self.body.angular_velocity = half;
        }
    }
}

} // verus!
