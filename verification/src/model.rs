//! The state of the game and the step that the player's input drives:
//! movement, the capture of a stroke, and its resolution into a dash.

use vstd::prelude::*;
use crate::bounded::{Bounded, Health};
use crate::collider::{Collider, PhysicsBody, Shape};
use crate::drawing::{lemma_extended_length, path_length, positions, Drawing, DrawingView};
use crate::enemy::Enemy;
use crate::events::{Event, SoundEvent};
use crate::fixed::{
    div_trunc, lemma_floor_sqrt_unique, lemma_product_bound, sat, saturate, scale, Coord, Hp, Time,
    UNIT,
};
use crate::geometry::{
    direction_scaled, direction_toward, place, pos, step_toward, walk_toward, Aabb, Position,
};
use crate::particles::{
    DistributionView, Interval, ParticleDistribution, ParticleKind, RequestView, SpawnParticles,
};
use crate::rooms::{
    after_unlock, covered, lemma_unlock_keeps_tree, room_at, unlock_direction, walls_of,
    well_formed, Room, RoomGraph, Wall,
};

verus! {

/// The rules of the dash.
#[derive(Debug, Clone, Copy, PartialEq, Eq, Structural)]
pub struct DashConfig {
    /// The longest stroke.
    pub max_distance: Coord,
    /// The speed that the player keeps after a dash.
    pub speed: Coord,
    /// The width of the swath that a dash damages.
    pub width: Coord,
    pub damage: Hp,
}

/// The rules of the player.
#[derive(Debug, Clone, Copy, PartialEq, Eq, Structural)]
pub struct PlayerConfig {
    pub health: Hp,
    pub speed: Coord,
    pub acceleration: Coord,
    /// How long the player cannot be hurt after a dash.
    pub invincibility: Time,
    pub dash: DashConfig,
}

/// The rules of a game.
#[derive(Debug, Clone, Copy, PartialEq, Eq, Structural)]
pub struct Config {
    /// The width and height of the first room.
    pub starting_area: Position,
    pub player: PlayerConfig,
}

/// Something that stands in the level.
#[derive(Debug, Clone, Copy, PartialEq, Eq, Structural)]
pub struct Object {
    pub collider: Collider,
}

/// A particle in flight.
#[derive(Debug, Clone, Copy, PartialEq, Eq, Structural)]
pub struct Particle {
    pub kind: ParticleKind,
    pub collider: Collider,
    pub velocity: Position,
    pub lifetime: Bounded,
}

/// What the player asks for during one step.
#[derive(Debug, Clone, Copy, PartialEq, Eq, Structural)]
pub struct PlayerControls {
    /// Where to move, as a vector of length at most one.
    pub move_dir: Position,
    /// Where the stroke is being drawn to, while one is being drawn.
    pub drawing: Option<Position>,
}

/// The player.
#[derive(Debug, Clone)]
pub struct Player {
    pub health: Health,
    pub body: PhysicsBody,
    pub stats: PlayerConfig,
    /// The time for which the player cannot be hurt.
    pub invincibility: Bounded,
    /// The stroke being drawn, if one is.
    pub draw_action: Option<Drawing>,
}

/// The state of the game.
pub struct Model {
    pub config: Config,
    pub real_time: Time,
    pub game_time: Time,
    pub cursor_pos: Position,
    pub player: Player,
    pub rooms: RoomGraph,
    /// The walls of `rooms`, derived from them after each change.
    pub room_colliders: Vec<Wall>,
    pub objects: Vec<Object>,
    pub enemies: Vec<Enemy>,
    pub particles: Vec<Particle>,
    /// The requests for particles made since the queue was last drained.
    pub particles_queue: Vec<SpawnParticles>,
    /// The events since the queue was last drained.
    pub events: Vec<Event>,
}

/// The player as plain values.
#[verifier::ext_equal]
pub struct PlayerView {
    pub health: Bounded,
    pub body: PhysicsBody,
    pub stats: PlayerConfig,
    pub invincibility: Bounded,
    pub draw_action: Option<DrawingView>,
}

/// The state of the game as plain values.
#[verifier::ext_equal]
pub struct ModelView {
    pub config: Config,
    pub real_time: Time,
    pub game_time: Time,
    pub cursor_pos: Position,
    pub player: PlayerView,
    pub rooms: Seq<Room>,
    pub room_colliders: Seq<Wall>,
    pub objects: Seq<Object>,
    pub enemies: Seq<Enemy>,
    pub particles: Seq<Particle>,
    pub particles_queue: Seq<RequestView>,
    pub events: Seq<Event>,
}

impl View for Player {
    type V = PlayerView;

    open spec fn view(&self) -> PlayerView {
        PlayerView {
            health: self.health,
            body: self.body,
            stats: self.stats,
            invincibility: self.invincibility,
            draw_action: match self.draw_action {
                Some(drawing) => Some(drawing@),
                None => None,
            },
        }
    }
}

/// The requests of a queue as plain values.
pub open spec fn requests(queue: Seq<SpawnParticles>) -> Seq<RequestView> {
    Seq::new(queue.len(), |i: int| queue[i]@)
}

impl View for Model {
    type V = ModelView;

    open spec fn view(&self) -> ModelView {
        ModelView {
            config: self.config,
            real_time: self.real_time,
            game_time: self.game_time,
            cursor_pos: self.cursor_pos,
            player: self.player@,
            rooms: self.rooms@,
            room_colliders: self.room_colliders@,
            objects: self.objects@,
            enemies: self.enemies@,
            particles: self.particles@,
            particles_queue: requests(self.particles_queue@),
            events: self.events@,
        }
    }
}

/// The velocity after one step of steering: the wish `move_dir`, cut to
/// length one, times `speed` is the target, which the velocity approaches
/// by at most `acceleration * dt`.
pub open spec fn steered(
    velocity: Position,
    move_dir: Position,
    speed: int,
    acceleration: int,
    dt: int,
) -> Position {
    let dir = step_toward(pos(0, 0), move_dir, UNIT as int);
    let target = pos(div_trunc(dir.x * speed, UNIT as int), div_trunc(dir.y * speed, UNIT as int));
    step_toward(velocity, target, div_trunc(acceleration * dt, UNIT as int))
}

/// The position after moving at `velocity` for the time `dt`.
pub open spec fn advanced(position: Position, velocity: Position, dt: int) -> Position {
    pos(
        position.x + div_trunc(velocity.x * dt, UNIT as int),
        position.y + div_trunc(velocity.y * dt, UNIT as int),
    )
}

/// The request made when the player's invincibility runs out.
pub open spec fn shield_request(center: Position) -> RequestView {
    RequestView::usual(ParticleKind::Shield, DistributionView::Circle { center, radius: 600 })
}

/// The request made on each step of drawing: a thin ribbon along the curve.
pub open spec fn stroke_request(curve: Seq<Position>) -> RequestView {
    RequestView {
        kind: ParticleKind::Draw,
        density: 500,
        distribution: DistributionView::Drawing { points: curve, width: 200 },
        size: Interval { min: 50, max: 150 },
        velocity: pos(0, 0),
        lifetime: Interval { min: 500, max: 1500 },
    }
}

/// The request made where a dash strikes an enemy.
pub open spec fn damage_request(center: Position) -> RequestView {
    RequestView::usual(ParticleKind::Damage, DistributionView::Circle { center, radius: 600 })
}

/// The request made where a dash breaks through a wall.
pub open spec fn breach_request(center: Position) -> RequestView {
    RequestView::usual(
        ParticleKind::WallBreakable,
        DistributionView::Circle { center, radius: 1000 },
    )
}

/// The sound of a strike that leaves an enemy with health `health`.
pub open spec fn strike_sound(health: Bounded) -> Event {
    if health.value <= health.min {
        Event::Sound(SoundEvent::Kill)
    } else {
        Event::Sound(SoundEvent::Hit)
    }
}

/// `enemy` after a strike of `damage`.
pub open spec fn wounded(enemy: Enemy, damage: int) -> Enemy {
    Enemy {
        health: enemy.health.changed(-damage),
        body: enemy.body,
        stats: enemy.stats,
        ai: enemy.ai,
    }
}

impl ModelView {
    /// The state in which a game with the rules `config` starts: one room
    /// around the origin, the player at rest in its middle.
    pub open spec fn initial(config: Config) -> ModelView {
        let half = pos(div_trunc(config.starting_area.x as int, 2), div_trunc(config.starting_area.y as int, 2));
        let rooms = seq![
            Room {
                area: Aabb { min: pos(-half.x, -half.y), max: half },
                unlocked_after: None,
                expanded_direction: None,
            },
        ];
        ModelView {
            config,
            real_time: 0,
            game_time: 0,
            cursor_pos: pos(0, 0),
            player: PlayerView {
                health: Bounded { value: config.player.health, min: 0, max: config.player.health },
                body: PhysicsBody {
                    collider: Collider {
                        position: pos(0, 0),
                        rotation: 0,
                        shape: Shape::Circle { radius: 500 },
                    },
                    velocity: pos(0, 0),
                    angular_velocity: 0,
                },
                stats: config.player,
                invincibility: Bounded { value: 0, min: 0, max: config.player.invincibility },
                draw_action: None,
            },
            rooms,
            room_colliders: walls_of(rooms),
            objects: Seq::empty(),
            enemies: Seq::empty(),
            particles: Seq::empty(),
            particles_queue: Seq::empty(),
            events: Seq::empty(),
        }
    }

    /// Where the player is.
    pub open spec fn position(self) -> Position {
        self.player.body.collider.position
    }

    /// This state with the player's body replaced.
    pub open spec fn with_body(self, position: Position, velocity: Position) -> ModelView {
        ModelView {
            player: PlayerView {
                body: PhysicsBody {
                    collider: Collider {
                        position,
                        rotation: self.player.body.collider.rotation,
                        shape: self.player.body.collider.shape,
                    },
                    velocity,
                    angular_velocity: self.player.body.angular_velocity,
                },
                ..self.player
            },
            ..self
        }
    }

    /// This state with the player's stroke replaced.
    pub open spec fn with_stroke(self, stroke: Option<DrawingView>) -> ModelView {
        ModelView { player: PlayerView { draw_action: stroke, ..self.player }, ..self }
    }

    /// Whether the room that the player stands in has not been expanded yet.
    pub open spec fn can_expand(self) -> bool {
        match room_at(self.rooms, self.position()) {
            Some(r) => self.rooms[r].expanded_direction is None,
            None => false,
        }
    }

    /// This state with both clocks run on by `dt`.
    pub open spec fn timed(self, dt: Time) -> ModelView {
        ModelView {
            real_time: sat(self.real_time + dt) as i32,
            game_time: sat(self.game_time + dt) as i32,
            ..self
        }
    }

    /// The state after one whole step: the clocks run on, then the player
    /// is stepped under `input`.
    pub open spec fn after_update(self, input: PlayerControls, dt: Time) -> ModelView {
        self.timed(dt).after_controls(input, dt)
    }

    /// Whether a stroke toward `target` heads for a wall through which the
    /// room that the player stands in may be expanded.
    pub open spec fn reaches_wall(self, target: Position) -> bool {
        match room_at(self.rooms, self.position()) {
            Some(r) => match self.rooms[r].nearest_wall(target) {
                Some(side) => self.rooms[r].eligible(side),
                None => false,
            },
            None => false,
        }
    }

    /// The state after the timers and the movement of one step: the
    /// invincibility runs down by `dt`, and a request for shield particles
    /// is made when it runs out; the player stands still while drawing and
    /// is steered otherwise, and moves at the new velocity for `dt`.
    pub open spec fn moved(self, move_dir: Position, dt: Time) -> ModelView {
        let invincibility = self.player.invincibility.changed(-dt);
        let expired = self.player.invincibility.value > self.player.invincibility.min
            && invincibility.value <= invincibility.min;
        let velocity = if self.player.draw_action is Some {
            pos(0, 0)
        } else {
            steered(
                self.player.body.velocity,
                move_dir,
                self.player.stats.speed as int,
                self.player.stats.acceleration as int,
                dt as int,
            )
        };
        let timed = ModelView {
            player: PlayerView { invincibility, ..self.player },
            particles_queue: if expired {
                self.particles_queue.push(shield_request(self.position()))
            } else {
                self.particles_queue
            },
            ..self
        };
        timed.with_body(advanced(self.position(), velocity, dt as int), velocity)
    }

    /// The stroke that a step of drawing works on: the one being drawn, or
    /// a new one that starts where the player stands.
    pub open spec fn stroke(self) -> DrawingView {
        match self.player.draw_action {
            Some(drawing) if drawing.raw.len() > 0 => drawing,
            _ => DrawingView::begun(self.position(), self.real_time),
        }
    }

    /// The state after a step of drawing toward `target`. The point is
    /// taken up if it lies in a room, or if `expandable` and it heads for a
    /// wall that may be broken through; either way, particles along the
    /// curve are asked for.
    pub open spec fn captured(self, target: Position, expandable: bool) -> ModelView {
        let accepted = covered(self.rooms, target) || (expandable && self.reaches_wall(target));
        let stroke = if accepted {
            self.stroke().extended(target, self.real_time, self.player.stats.dash.max_distance as int)
        } else {
            self.stroke()
        };
        ModelView {
            particles_queue: self.particles_queue.push(stroke_request(stroke.smoothed)),
            ..self.with_stroke(Some(stroke))
        }
    }

    /// The state after the player has leapt to the end of `path`, which has
    /// at least two points: the player stands there, moves on in the path's
    /// last direction at the dash's speed, and cannot be hurt for the full time.
    pub open spec fn leapt(self, path: Seq<Position>) -> ModelView {
        let end = path[path.len() - 1];
        let before = path[path.len() - 2];
        let lept = self.with_body(end, direction_scaled(before, end, self.config.player.dash.speed as int));
        ModelView {
            player: PlayerView {
                invincibility: self.player.invincibility.with_ratio(UNIT as int),
                ..lept.player
            },
            ..lept
        }
    }

    /// The state after the first `n` enemies have been tested against a
    /// dash along `path`: each that comes within `margin` of the path has
    /// lost `damage` once, and a sound and a request for particles were
    /// queued for it.
    pub open spec fn swept_upto(self, path: Seq<Position>, margin: int, damage: int, n: int) -> ModelView
        decreases n,
    {
        if n <= 0 {
            self
        } else {
            let sofar = self.swept_upto(path, margin, damage, n - 1);
            let enemy = self.enemies[n - 1];
            if n <= self.enemies.len() && enemy.body.collider.swept_by(path, margin) {
                ModelView {
                    enemies: sofar.enemies.update(n - 1, wounded(enemy, damage)),
                    events: sofar.events.push(strike_sound(enemy.health.changed(-damage))),
                    particles_queue: sofar.particles_queue.push(
                        damage_request(enemy.body.collider.position),
                    ),
                    ..sofar
                }
            } else {
                sofar
            }
        }
    }

    /// The state after a dash along `path` has swept all enemies.
    pub open spec fn swept(self, path: Seq<Position>, margin: int, damage: int) -> ModelView {
        self.swept_upto(path, margin, damage, self.enemies.len() as int)
    }

    /// The state after a dash from room `origin` has ended at `end`: where
    /// `unlock_direction` allows it, the room is expanded, the walls are
    /// derived anew, and a sound and a request for particles are queued.
    pub open spec fn expanded(self, origin: Option<int>, end: Position) -> ModelView {
        match origin {
            Some(r) => match unlock_direction(self.rooms, r, end) {
                Some(side) => {
                    let rooms = after_unlock(self.rooms, r, side);
                    ModelView {
                        rooms,
                        room_colliders: walls_of(rooms),
                        events: self.events.push(Event::Sound(SoundEvent::Expand)),
                        particles_queue: self.particles_queue.push(breach_request(end)),
                        ..self
                    }
                },
                None => self,
            },
            None => self,
        }
    }

    /// The room that a dash may expand: the one that the player stands in
    /// before the dash, if it has not been expanded yet.
    pub open spec fn dash_origin(self) -> Option<int> {
        if self.can_expand() {
            room_at(self.rooms, self.position())
        } else {
            None
        }
    }

    /// The state after a dash along `path`. A path of fewer than two points
    /// changes nothing. Otherwise the player leaps to its end, the enemies
    /// along it are struck, and the room that the player came from is
    /// expanded if the dash ended outside every room.
    pub open spec fn dashed(self, path: Seq<Position>) -> ModelView {
        if path.len() < 2 {
            self
        } else {
            self.leapt(path).swept(
                path,
                div_trunc(self.player.stats.dash.width as int, 2),
                self.player.stats.dash.damage as int,
            ).expanded(self.dash_origin(), path[path.len() - 1])
        }
    }

    /// The state after the stroke, if there is one, has been released and
    /// resolved into a dash.
    pub open spec fn released(self) -> ModelView {
        match self.player.draw_action {
            Some(drawing) => self.with_stroke(None).dashed(drawing.smoothed),
            None => self,
        }
    }

    /// The state after one step under `input`.
    pub open spec fn after_controls(self, input: PlayerControls, dt: Time) -> ModelView {
        let stepped = self.moved(input.move_dir, dt);
        match input.drawing {
            Some(target) => stepped.captured(target, self.can_expand()),
            None => stepped.released(),
        }
    }

    /// The rooms form a tree, the walls are those of the rooms, and a
    /// stroke being drawn has an origin, the curve derived from its points,
    /// and a length within the dash's budget.
    pub open spec fn wf(self) -> bool {
        &&& well_formed(self.rooms)
        &&& self.room_colliders == walls_of(self.rooms)
        &&& match self.player.draw_action {
            Some(drawing) => {
                &&& drawing.raw.len() > 0
                &&& path_length(positions(drawing.raw)) <= self.player.stats.dash.max_distance
                    || path_length(positions(drawing.raw)) == 0
            },
            None => true,
        }
    }
}

/// The velocity after one step of steering.
pub fn steer(
    velocity: &Position,
    move_dir: &Position,
    speed: Coord,
    acceleration: Coord,
    dt: Time,
) -> (next: Position)
    ensures
        next == steered(*velocity, *move_dir, speed as int, acceleration as int, dt as int),
{
    let origin: Position = Position::zero();
    let dir: Position = walk_toward(&origin, move_dir, 1000);
    let target: Position = place(
        scale(dir.x as i64, speed as i128, 1000),
        scale(dir.y as i64, speed as i128, 1000),
    );
    proof {
        lemma_product_bound(acceleration as int, dt as int, 0x8000_0000, 0x8000_0000);
    }
    let reach: i64 = (acceleration as i64 * dt as i64) / 1000;
    walk_toward(velocity, &target, reach)
}

/// The position after moving at `velocity` for the time `dt`.
pub fn advance(position: &Position, velocity: &Position, dt: Time) -> (next: Position)
    ensures
        next == advanced(*position, *velocity, dt as int),
{
    let dx: i128 = scale(velocity.x as i64, dt as i128, 1000);
    let dy: i128 = scale(velocity.y as i64, dt as i128, 1000);
    proof {
        lemma_product_bound(velocity.x as int, dt as int, 0x8000_0000, 0x8000_0000);
        lemma_product_bound(velocity.y as int, dt as int, 0x8000_0000, 0x8000_0000);
    }
    place(position.x as i128 + dx, position.y as i128 + dy)
}

impl Model {
    /// A game with the rules `config`, at its start.
    pub fn new(config: Config) -> (model: Model)
        ensures
            model@ == ModelView::initial(config),
            model@.wf(),
    {
        let half: Position = Position { x: config.starting_area.x / 2, y: config.starting_area.y / 2 };
        let rooms: RoomGraph = RoomGraph::new(Aabb::centered(half));
        let room_colliders: Vec<Wall> = rooms.wall_colliders();
        let model = Model {
            config,
            real_time: 0,
            game_time: 0,
            cursor_pos: Position::zero(),
            player: Player {
                health: Bounded::new_max(config.player.health),
                body: PhysicsBody::new(Position::zero(), Shape::circle(500)),
                stats: config.player,
                invincibility: Bounded::new_zero(config.player.invincibility),
                draw_action: None,
            },
            rooms,
            room_colliders,
            objects: Vec::new(),
            enemies: Vec::new(),
            particles: Vec::new(),
            particles_queue: Vec::new(),
            events: Vec::new(),
        };
        model
    }

    /// Whether the room that the player stands in has not been expanded yet.
    pub fn can_expand(&self) -> (can: bool)
        ensures
            can == self@.can_expand(),
    {
        match self.rooms.find_room(&self.player.body.collider.position) {
            Some(r) => self.rooms.rooms[r].expanded_direction.is_none(),
            None => false,
        }
    }

    /// Derives the walls from the rooms.
    pub fn update_room_colliders(&mut self)
        ensures
            final(self)@ == (ModelView { room_colliders: walls_of(old(self)@.rooms), ..old(self)@ }),
    {
        self.room_colliders = self.rooms.wall_colliders();
    }

    /// Runs the timers and the movement of one step.
    fn step_player(&mut self, move_dir: Position, dt: Time)
        ensures
            final(self)@ == old(self)@.moved(move_dir, dt),
    {
        let invincible: bool = self.player.invincibility.is_above_min();
        let center: Position = self.player.body.collider.position;
        self.player.invincibility.change(-(dt as i64));
        if invincible && !self.player.invincibility.is_above_min() {
            self.particles_queue.push(
                SpawnParticles::new(
                    ParticleKind::Shield,
                    ParticleDistribution::Circle { center, radius: 600 },
                ),
            );
        }
        let velocity: Position = if self.player.draw_action.is_some() {
            Position::zero()
        } else {
            steer(
                &self.player.body.velocity,
                &move_dir,
                self.player.stats.speed,
                self.player.stats.acceleration,
                dt,
            )
        };
        self.player.body.velocity = velocity;
        self.player.body.collider.position = advance(&center, &velocity, dt);
    }

    /// Takes up the point `target` of a stroke, if the rooms allow it, and
    /// asks for particles along the curve.
    fn capture(&mut self, target: Position, expandable: bool)
        ensures
            final(self)@ == old(self)@.captured(target, expandable),
    {
        let origin: Position = self.player.body.collider.position;
        let inside: bool = self.rooms.contains(&target);
        let reaches: bool = match self.rooms.find_room(&origin) {
            Some(r) => {
                let room: Room = self.rooms.rooms[r];
                match room.closest_wall(target) {
                    Some((_, side)) => room.can_expand_toward(side),
                    None => false,
                }
            },
            None => false,
        };
        let mut stroke: Drawing = match self.player.draw_action.take() {
            Some(drawing) => if drawing.points_raw.len() > 0 {
                drawing
            } else {
                Drawing::begin(origin, self.real_time)
            },
            None => Drawing::begin(origin, self.real_time),
        };
        if inside || (expandable && reaches) {
            stroke.extend(target, self.real_time, self.player.stats.dash.max_distance);
        }
        let curve: Vec<Position> = stroke.points_smoothed.clone();
        self.particles_queue.push(
            SpawnParticles {
                kind: ParticleKind::Draw,
                density: 500,
                distribution: ParticleDistribution::Drawing { points: curve, width: 200 },
                size: Interval { min: 50, max: 150 },
                velocity: Position::zero(),
                lifetime: Interval { min: 500, max: 1500 },
            },
        );
        self.player.draw_action = Some(stroke);
    }

    /// One whole step of the game: the clocks run on by `delta_time`, then
    /// the player is stepped under `input`.
    pub fn update(&mut self, input: PlayerControls, delta_time: Time)
        ensures
            final(self)@ == old(self)@.after_update(input, delta_time),
            old(self)@.wf() && old(self)@.rooms.len() < usize::MAX ==> final(self)@.wf(),
    {
        self.real_time = saturate(self.real_time as i64 + delta_time as i64);
        self.game_time = saturate(self.game_time as i64 + delta_time as i64);
        proof {
            lemma_step_keeps_wf_if(old(self)@.timed(delta_time), input, delta_time);
        }
        self.controls(input, delta_time);
    }

    /// One step of the player under `input`: timers, movement, and the
    /// stroke, which is extended while `input.drawing` names a point and
    /// released into a dash when it no longer does.
    pub fn controls(&mut self, input: PlayerControls, delta_time: Time)
        ensures
            final(self)@ == old(self)@.after_controls(input, delta_time),
    {
        let can_expand: bool = self.can_expand();
        self.step_player(input.move_dir, delta_time);
        match input.drawing {
            Some(position) => self.capture(position, can_expand),
            None => self.stop_drawing(),
        }
    }

    /// Releases the stroke, if there is one, and resolves it into a dash.
    pub fn stop_drawing(&mut self)
        ensures
            final(self)@ == old(self)@.released(),
    {
        match self.player.draw_action.take() {
            Some(drawing) => {
                self.player_dash(drawing);
            },
            None => {},
        }
    }

    /// Resolves the stroke `drawing` into a dash along its curve.
    pub fn player_dash(&mut self, drawing: Drawing)
        ensures
            final(self)@ == old(self)@.dashed(drawing@.smoothed),
    {
        let n: usize = drawing.points_smoothed.len();
        if n < 2 {
            return;
        }
        let origin: Option<usize> = if self.can_expand() {
            self.rooms.find_room(&self.player.body.collider.position)
        } else {
            None
        };
        let last: Position = drawing.points_smoothed[n - 1];
        let prelast: Position = drawing.points_smoothed[n - 2];
        self.player.body.collider.position = last;
        self.player.body.velocity = direction_toward(&prelast, &last, self.config.player.dash.speed);
        self.player.invincibility.set_ratio(UNIT);
        let width: Coord = self.player.stats.dash.width;
        let damage: Hp = self.player.stats.dash.damage;
        self.damage_around(&drawing, width, damage);
        match origin {
            Some(room) => self.unlock_room(room, last),
            None => {},
        }
    }

    /// Strikes every enemy that comes within half of `width` of the curve
    /// of `drawing`, each once.
    pub fn damage_around(&mut self, drawing: &Drawing, width: Coord, damage: Hp)
        ensures
            final(self)@ == old(self)@.swept(
                drawing@.smoothed,
                div_trunc(width as int, 2),
                damage as int,
            ),
    {
        let margin: Coord = width / 2;
        let n: usize = self.enemies.len();
        let ghost start = self@;
        let ghost path = drawing@.smoothed;
        let mut i: usize = 0;
        while i < n
            invariant
                0 <= i <= n,
                n == start.enemies.len(),
                path == drawing@.smoothed,
                margin == div_trunc(width as int, 2),
                self@ == start.swept_upto(path, margin as int, damage as int, i as int),
                self.enemies@.len() == n,
                forall|j: int| i <= j < n ==> self.enemies@[j] == start.enemies[j],
            decreases n - i,
        {
            if self.enemies[i].body.collider.is_swept_by(&drawing.points_smoothed, margin) {
                let center: Position = self.enemies[i].body.collider.position;
                self.enemies[i].health.change(-(damage as i64));
                let health: Bounded = self.enemies[i].health;
                let sound: SoundEvent = if health.value <= health.min {
                    SoundEvent::Kill
                } else {
                    SoundEvent::Hit
                };
                self.events.push(Event::Sound(sound));
                self.particles_queue.push(
                    SpawnParticles::new(
                        ParticleKind::Damage,
                        ParticleDistribution::Circle { center, radius: 600 },
                    ),
                );
            }
            i = i + 1;
        }
    }

    /// Hands out the events queued so far and empties the queue.
    pub fn drain_events(&mut self) -> (events: Vec<Event>)
        ensures
            events@ == old(self)@.events,
            final(self)@ == (ModelView { events: Seq::empty(), ..old(self)@ }),
    {
        let mut events: Vec<Event> = Vec::new();
        std::mem::swap(&mut events, &mut self.events);
        events
    }

    /// Hands out the requests for particles queued so far and empties the queue.
    pub fn drain_particles(&mut self) -> (queue: Vec<SpawnParticles>)
        ensures
            requests(queue@) == old(self)@.particles_queue,
            final(self)@ == (ModelView { particles_queue: Seq::empty(), ..old(self)@ }),
    {
        let mut queue: Vec<SpawnParticles> = Vec::new();
        std::mem::swap(&mut queue, &mut self.particles_queue);
        queue
    }

    /// Expands room `room` for a dash that ended at `pos`, if the rooms
    /// allow it.
    pub fn unlock_room(&mut self, room: usize, pos: Position)
        ensures
            final(self)@ == old(self)@.expanded(Some(room as int), pos),
    {
        match self.rooms.unlock(room, pos) {
            Some(_) => {
                self.room_colliders = self.rooms.wall_colliders();
                self.events.push(Event::Sound(SoundEvent::Expand));
                self.particles_queue.push(
                    SpawnParticles::new(
                        ParticleKind::WallBreakable,
                        ParticleDistribution::Circle { center: pos, radius: 1000 },
                    ),
                );
            },
            None => {},
        }
    }
}

/// A sweep changes nothing but the enemies and the two queues, and strikes
/// each enemy at most once: an enemy that the path comes near has lost
/// `damage` once, every other enemy is as it was.
pub proof fn lemma_sweep_strikes_once(
    m: ModelView,
    path: Seq<Position>,
    margin: int,
    damage: int,
    n: int,
)
    requires
        0 <= n <= m.enemies.len(),
    ensures
        m.swept_upto(path, margin, damage, n).enemies.len() == m.enemies.len(),
        forall|i: int|
            0 <= i < m.enemies.len() ==> #[trigger] m.swept_upto(path, margin, damage, n).enemies[i]
                == if i < n && m.enemies[i].body.collider.swept_by(path, margin) {
                wounded(m.enemies[i], damage)
            } else {
                m.enemies[i]
            },
        m.swept_upto(path, margin, damage, n).player == m.player,
        m.swept_upto(path, margin, damage, n).rooms == m.rooms,
        m.swept_upto(path, margin, damage, n).room_colliders == m.room_colliders,
        m.swept_upto(path, margin, damage, n).config == m.config,
        m.swept_upto(path, margin, damage, n).objects == m.objects,
        m.swept_upto(path, margin, damage, n).particles == m.particles,
    decreases n,
{
    if n > 0 {
        lemma_sweep_strikes_once(m, path, margin, damage, n - 1);
    }
}

/// A stroke whose curve has fewer than two points resolves into nothing:
/// the dash leaves the state as it is, and the release only ends the stroke.
pub proof fn lemma_short_stroke_is_idle(m: ModelView, path: Seq<Position>)
    requires
        path.len() < 2,
    ensures
        m.dashed(path) == m,
        m.player.draw_action matches Some(drawing) && drawing.smoothed == path ==> m.released()
            == m.with_stroke(None),
{
}

/// A dash that ends in a room leaves the rooms and their walls as they are.
pub proof fn lemma_dash_into_room_unlocks_nothing(m: ModelView, path: Seq<Position>)
    requires
        path.len() >= 2,
        covered(m.rooms, path[path.len() - 1]),
    ensures
        m.dashed(path).rooms == m.rooms,
        m.dashed(path).room_colliders == m.room_colliders,
{
    let margin = div_trunc(m.player.stats.dash.width as int, 2);
    let damage = m.player.stats.dash.damage as int;
    lemma_sweep_strikes_once(m.leapt(path), path, margin, damage, m.enemies.len() as int);
}

/// A step takes no room away, moves none, and clears no mark: a room that
/// was expanded stays expanded through the same side.
pub proof fn lemma_step_keeps_rooms(m: ModelView, input: PlayerControls, dt: Time, i: int)
    requires
        0 <= i < m.rooms.len(),
    ensures
        m.after_controls(input, dt).rooms.len() >= m.rooms.len(),
        m.after_controls(input, dt).rooms[i].area == m.rooms[i].area,
        m.after_controls(input, dt).rooms[i].unlocked_after == m.rooms[i].unlocked_after,
        m.rooms[i].expanded_direction is Some ==> m.after_controls(input, dt).rooms[i].expanded_direction
            == m.rooms[i].expanded_direction,
{
    let stepped = m.moved(input.move_dir, dt);
    match (input.drawing, stepped.player.draw_action) {
        (None, Some(drawing)) => {
            let path = drawing.smoothed;
            let idle = stepped.with_stroke(None);
            if path.len() >= 2 {
                let margin = div_trunc(idle.player.stats.dash.width as int, 2);
                let damage = idle.player.stats.dash.damage as int;
                let lept = idle.leapt(path);
                lemma_sweep_strikes_once(lept, path, margin, damage, lept.enemies.len() as int);
            }
        },
        _ => {},
    }
}

/// A step keeps a state well-formed, if it is.
proof fn lemma_step_keeps_wf_if(m: ModelView, input: PlayerControls, dt: Time)
    ensures
        m.wf() && m.rooms.len() < usize::MAX ==> m.after_controls(input, dt).wf(),
{
    if m.wf() && m.rooms.len() < usize::MAX {
        lemma_step_keeps_wf(m, input, dt);
    }
}

/// A step keeps a well-formed state well-formed. In particular a stroke
/// never grows longer than the dash's budget, the rooms stay a tree, and the
/// walls stay those of the rooms.
pub proof fn lemma_step_keeps_wf(m: ModelView, input: PlayerControls, dt: Time)
    requires
        m.wf(),
        m.rooms.len() < usize::MAX,
    ensures
        m.after_controls(input, dt).wf(),
{
    let stepped = m.moved(input.move_dir, dt);
    match input.drawing {
        Some(target) => {
            let stroke = stepped.stroke();
            let budget = stepped.player.stats.dash.max_distance as int;
            lemma_extended_length(stroke.raw, target, stepped.real_time, budget);
        },
        None => {
            match stepped.player.draw_action {
                Some(drawing) => {
                    let path = drawing.smoothed;
                    let idle = stepped.with_stroke(None);
                    if path.len() >= 2 {
                        let margin = div_trunc(idle.player.stats.dash.width as int, 2);
                        let damage = idle.player.stats.dash.damage as int;
                        let lept = idle.leapt(path);
                        lemma_sweep_strikes_once(lept, path, margin, damage, lept.enemies.len() as int);
                        let swept = lept.swept(path, margin, damage);
                        match idle.dash_origin() {
                            Some(r) => {
                                match unlock_direction(swept.rooms, r, path[path.len() - 1]) {
                                    Some(side) => {
                                        lemma_unlock_keeps_tree(swept.rooms, r, side);
                                    },
                                    None => {},
                                }
                            },
                            None => {},
                        }
                    }
                },
                None => {},
            }
        },
    }
}

/// The vector along `(right - left, up - down)` that four keys ask for,
/// one unit long along each axis whose keys do not cancel.
pub open spec fn key_wish(left: bool, right: bool, down: bool, up: bool) -> Position {
    pos(
        if left == right {
            0
        } else if right {
            1000
        } else {
            -1000
        },
        if down == up {
            0
        } else if up {
            1000
        } else {
            -1000
        },
    )
}

/// The wish to move that four keys express: the vector that they ask for,
/// cut to length one, so that a diagonal is no faster than an axis.
pub fn move_direction(left: bool, right: bool, down: bool, up: bool) -> (dir: Position)
    ensures
        dir == step_toward(pos(0, 0), key_wish(left, right, down, up), UNIT as int),
        dir.x * dir.x + dir.y * dir.y <= UNIT * UNIT,
        left == right || down == up ==> dir == key_wish(left, right, down, up),
{
    let mut wish: Position = Position::zero();
    if left {
        wish.x = wish.x - UNIT;
    }
    if right {
        wish.x = wish.x + UNIT;
    }
    if down {
        wish.y = wish.y - UNIT;
    }
    if up {
        wish.y = wish.y + UNIT;
    }
    let dir: Position = walk_toward(&Position::zero(), &wish, 1000);
    proof {
        let sx = (wish.x - 0) * (wish.x - 0);
        let sy = (wish.y - 0) * (wish.y - 0);
        assert(sx == if left == right { 0int } else { 1_000_000 }) by (nonlinear_arith)
            requires
                sx == (wish.x - 0) * (wish.x - 0),
                (left == right && wish.x == 0) || (left != right && (wish.x == 1000 || wish.x == -1000)),
        ;
        assert(sy == if down == up { 0int } else { 1_000_000 }) by (nonlinear_arith)
            requires
                sy == (wish.y - 0) * (wish.y - 0),
                (down == up && wish.y == 0) || (down != up && (wish.y == 1000 || wish.y == -1000)),
        ;
        assert(pos(0, 0).dist_sq(wish) == sx + sy);
        lemma_floor_sqrt_unique(0, 0);
        lemma_floor_sqrt_unique(1_000_000, 1000);
        lemma_floor_sqrt_unique(2_000_000, 1414);
        if left != right && down != up {
            assert(pos(0, 0).dist(wish) == 1414);
            assert(div_trunc(1_000_000, 1414) == 707 && div_trunc(-1_000_000, 1414) == -707);
            assert((wish.x - 0) * 1000 == 1_000_000 || (wish.x - 0) * 1000 == -1_000_000);
            assert((wish.y - 0) * 1000 == 1_000_000 || (wish.y - 0) * 1000 == -1_000_000);
        }
        assert(dir.x * dir.x + dir.y * dir.y <= 1_000_000) by (nonlinear_arith)
            requires
                (dir.x == 0 || dir.x == 707 || dir.x == -707) && (dir.y == 0 || dir.y == 707 || dir.y
                    == -707) || (dir.x == 0 && (dir.y == 1000 || dir.y == -1000)) || (dir.y == 0 && (
                dir.x == 1000 || dir.x == -1000)),
        ;
    }
    dir
}

impl PlayerControls {
    /// What five keys and the cursor ask for: the wish to move of the four
    /// direction keys, and a stroke toward the cursor while the draw key is held.
    pub fn from_keys(left: bool, right: bool, down: bool, up: bool, draw: bool, cursor: Position) -> (input:
        PlayerControls)
        ensures
            input.move_dir == step_toward(pos(0, 0), key_wish(left, right, down, up), UNIT as int),
            input.drawing == if draw {
                Some(cursor)
            } else {
                None::<Position>
            },
    {
        PlayerControls {
            move_dir: move_direction(left, right, down, up),
            drawing: if draw {
                Some(cursor)
            } else {
                None
            },
        }
    }
}

} // verus!
