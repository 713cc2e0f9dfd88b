//! The rooms of the level and the one-shot expansion that adds to them.
//!
//! Rooms are held in the order in which they were unlocked and are known by
//! their index, which never changes. A room can be expanded once, toward its
//! nearest wall as seen from a point outside every room.

use vstd::prelude::*;
use crate::fixed::{sat, saturate, Coord};
use crate::geometry::{pos, Aabb, Position};

verus! {

/// A side of a room.
#[derive(Debug, Clone, Copy, PartialEq, Eq, Structural)]
pub enum Direction {
    Left,
    Right,
    Down,
    Up,
}

impl Direction {
    /// The side across.
    pub open spec fn spec_opposite(&self) -> Direction {
        match *self {
            Direction::Left => Direction::Right,
            Direction::Right => Direction::Left,
            Direction::Down => Direction::Up,
            Direction::Up => Direction::Down,
        }
    }

    /// The place of a side in the order in which walls are compared: a wall
    /// wins a tie against those that come after it.
    pub open spec fn rank(self) -> int {
        match self {
            Direction::Left => 0,
            Direction::Right => 1,
            Direction::Down => 2,
            Direction::Up => 3,
        }
    }

    /// The side across.
    #[verifier::when_used_as_spec(spec_opposite)]
    pub fn opposite(&self) -> (across: Self)
        ensures
            across == self.spec_opposite(),
    {
        match self {
            Self::Left => Self::Right,
            Self::Right => Self::Left,
            Self::Down => Self::Up,
            Self::Up => Self::Down,
        }
    }
}

/// The side across from the side across is the side itself, and never the
/// side across.
pub proof fn lemma_opposite_involution(dir: Direction)
    ensures
        dir.opposite().opposite() == dir,
        dir.opposite() != dir,
{
}

/// A rectangular part of the level.
#[derive(Debug, Clone, Copy, PartialEq, Eq)]
pub struct Room {
    pub area: Aabb,
    /// The room from which this one was unlocked, and the side of that room
    /// through which it was.
    pub unlocked_after: Option<(usize, Direction)>,
    /// The side through which this room was expanded, once it has been.
    pub expanded_direction: Option<Direction>,
}

/// One wall of one room, as a box without thickness.
#[derive(Debug, Clone, Copy, PartialEq, Eq, Structural)]
pub struct Wall {
    pub room: usize,
    pub side: Direction,
    pub collider: Aabb,
}

impl Room {
    /// How far `pos` lies beyond the wall on side `dir`; zero or less when it
    /// is on the room's side of that wall.
    pub open spec fn wall_distance(self, dir: Direction, pos: Position) -> int {
        match dir {
            Direction::Left => self.area.min.x - pos.x,
            Direction::Right => pos.x - self.area.max.x,
            Direction::Down => self.area.min.y - pos.y,
            Direction::Up => pos.y - self.area.max.y,
        }
    }

    /// The better of `best` and `dir`: `dir` if `pos` lies beyond its wall and
    /// nearer to it than to the wall of `best`.
    pub open spec fn nearer(self, pos: Position, best: Option<Direction>, dir: Direction) -> Option<
        Direction,
    > {
        if self.wall_distance(dir, pos) > 0 && (best is None || self.wall_distance(dir, pos)
            < self.wall_distance(best->0, pos)) {
            Some(dir)
        } else {
            best
        }
    }

    /// The wall that `pos` lies beyond and nearest to, if it lies beyond any.
    pub open spec fn nearest_wall(self, pos: Position) -> Option<Direction> {
        self.nearer(
            pos,
            self.nearer(
                pos,
                self.nearer(pos, self.nearer(pos, None, Direction::Left), Direction::Right),
                Direction::Down,
            ),
            Direction::Up,
        )
    }

    /// The side recorded in `unlocked_after`, if the room was unlocked from
    /// another.
    pub open spec fn entry_side(self) -> Option<Direction> {
        match self.unlocked_after {
            Some((_, side)) => Some(side),
            None => None,
        }
    }

    /// Whether the room may be expanded through side `dir`: it has not been
    /// expanded yet, and `dir` is not the side recorded in `unlocked_after`.
    pub open spec fn eligible(self, dir: Direction) -> bool {
        self.expanded_direction is None && self.entry_side() != Some(dir)
    }

    /// The area of equal size that borders this room on side `dir`.
    pub open spec fn adjacent_area(self, dir: Direction) -> Aabb {
        match dir {
            Direction::Left => self.area.shifted(-self.area.width(), 0),
            Direction::Right => self.area.shifted(self.area.width() as int, 0),
            Direction::Down => self.area.shifted(0, -self.area.height()),
            Direction::Up => self.area.shifted(0, self.area.height() as int),
        }
    }

    /// The wall on side `dir`, as the box between its two corners.
    pub open spec fn wall_box(self, dir: Direction) -> Aabb {
        let a = self.area;
        match dir {
            Direction::Left => Aabb { min: a.min, max: Position { x: a.min.x, y: a.max.y } },
            Direction::Right => Aabb { min: Position { x: a.max.x, y: a.min.y }, max: a.max },
            Direction::Down => Aabb { min: a.min, max: Position { x: a.max.x, y: a.min.y } },
            Direction::Up => Aabb { min: Position { x: a.min.x, y: a.max.y }, max: a.max },
        }
    }

    /// Whether side `dir` is open: the room was expanded through it, or was
    /// entered through it when it was unlocked.
    pub open spec fn is_passage(self, dir: Direction) -> bool {
        self.expanded_direction == Some(dir) || (self.entry_side() matches Some(d) && d.opposite()
            == dir)
    }

    /// A room that nothing leads to and that has not been expanded.
    pub fn new(area: Aabb) -> (room: Room)
        ensures
            room == (Room { area, unlocked_after: None, expanded_direction: None }),
    {
        Room { area, unlocked_after: None, expanded_direction: None }
    }

    /// How far `pos` lies beyond the wall on side `dir`.
    pub fn distance_beyond(&self, dir: Direction, pos: &Position) -> (d: i64)
        ensures
            d == self.wall_distance(dir, *pos),
    {
        match dir {
            Direction::Left => self.area.min.x as i64 - pos.x as i64,
            Direction::Right => pos.x as i64 - self.area.max.x as i64,
            Direction::Down => self.area.min.y as i64 - pos.y as i64,
            Direction::Up => pos.y as i64 - self.area.max.y as i64,
        }
    }

    /// The wall that `pos` lies beyond and nearest to, with its distance
    /// (clamped into the scalar range). `None` when `pos` lies beyond no wall.
    /// Of two walls equally near, the first in the order left, right, down,
    /// up is returned.
    pub fn closest_wall(&self, pos: Position) -> (found: Option<(Coord, Direction)>)
        ensures
            found is None <==> forall|dir: Direction| self.wall_distance(dir, pos) <= 0,
            found matches Some((dist, side)) ==> {
                &&& dist == sat(self.wall_distance(side, pos))
                &&& self.wall_distance(side, pos) > 0
                &&& forall|dir: Direction| #[trigger]
                    self.wall_distance(dir, pos) > 0 ==> self.wall_distance(side, pos)
                        < self.wall_distance(dir, pos) || (self.wall_distance(side, pos)
                        == self.wall_distance(dir, pos) && side.rank() <= dir.rank())
            },
            found is Some <==> self.nearest_wall(pos) is Some,
            found matches Some((_, side)) ==> self.nearest_wall(pos) == Some(side),
    {
        let mut best: Option<(i64, Direction)> = None;
        let left: i64 = self.distance_beyond(Direction::Left, &pos);
        if left > 0 {
            best = Some((left, Direction::Left));
        }
        let right: i64 = self.distance_beyond(Direction::Right, &pos);
        if right > 0 && (best.is_none() || right < best.unwrap().0) {
            best = Some((right, Direction::Right));
        }
        let bottom: i64 = self.distance_beyond(Direction::Down, &pos);
        if bottom > 0 && (best.is_none() || bottom < best.unwrap().0) {
            best = Some((bottom, Direction::Down));
        }
        let top: i64 = self.distance_beyond(Direction::Up, &pos);
        if top > 0 && (best.is_none() || top < best.unwrap().0) {
            best = Some((top, Direction::Up));
        }
        match best {
            Some((dist, side)) => Some((saturate(dist), side)),
            None => None,
        }
    }

    /// Whether the room may be expanded through side `dir`.
    pub fn can_expand_toward(&self, dir: Direction) -> (ok: bool)
        ensures
            ok == self.eligible(dir),
    {
        if self.expanded_direction.is_some() {
            return false;
        }
        match self.unlocked_after {
            Some((_, from)) => from != dir,
            None => true,
        }
    }

    /// The area of equal size that borders this room on side `dir`.
    pub fn neighbour_area(&self, dir: Direction) -> (area: Aabb)
        ensures
            area == self.adjacent_area(dir),
    {
        let w: i64 = self.area.width();
        let h: i64 = self.area.height();
        match dir {
            Direction::Left => self.area.translate(-w, 0),
            Direction::Right => self.area.translate(w, 0),
            Direction::Down => self.area.translate(0, -h),
            Direction::Up => self.area.translate(0, h),
        }
    }

    /// The wall on side `dir`.
    pub fn wall(&self, dir: Direction) -> (wall: Aabb)
        ensures
            wall == self.wall_box(dir),
    {
        let a: Aabb = self.area;
        match dir {
            Direction::Left => Aabb { min: a.min, max: Position { x: a.min.x, y: a.max.y } },
            Direction::Right => Aabb { min: Position { x: a.max.x, y: a.min.y }, max: a.max },
            Direction::Down => Aabb { min: a.min, max: Position { x: a.max.x, y: a.min.y } },
            Direction::Up => Aabb { min: Position { x: a.min.x, y: a.max.y }, max: a.max },
        }
    }

    /// Whether side `dir` is open.
    pub fn has_passage(&self, dir: Direction) -> (open: bool)
        ensures
            open == self.is_passage(dir),
    {
        let expanded: bool = match self.expanded_direction {
            Some(d) => d == dir,
            None => false,
        };
        let entered: bool = match self.unlocked_after {
            Some((_, d)) => d.opposite() == dir,
            None => false,
        };
        expanded || entered
    }
}

/// Whether `pos` lies in one of `rooms`.
pub open spec fn covered(rooms: Seq<Room>, pos: Position) -> bool {
    exists|i: int| 0 <= i < rooms.len() && (#[trigger] rooms[i]).area.holds(pos)
}

/// The first room from index `start` on that `pos` lies in.
pub open spec fn room_at_from(rooms: Seq<Room>, pos: Position, start: int) -> Option<int>
    decreases rooms.len() - start,
{
    if start < 0 || start >= rooms.len() {
        None
    } else if rooms[start].area.holds(pos) {
        Some(start)
    } else {
        room_at_from(rooms, pos, start + 1)
    }
}

/// The first room that `pos` lies in.
pub open spec fn room_at(rooms: Seq<Room>, pos: Position) -> Option<int> {
    room_at_from(rooms, pos, 0)
}

/// The side through which room `source` is expanded by a dash that ends at
/// `pos`: its nearest wall as seen from `pos`, provided that `pos` lies in no
/// room and that the room may be expanded through that side.
pub open spec fn unlock_direction(rooms: Seq<Room>, source: int, pos: Position) -> Option<
    Direction,
> {
    if 0 <= source < rooms.len() && !covered(rooms, pos) {
        match rooms[source].nearest_wall(pos) {
            Some(side) => if rooms[source].eligible(side) {
                Some(side)
            } else {
                None
            },
            None => None,
        }
    } else {
        None
    }
}

/// The rooms after room `source` has been expanded through `side`: the room
/// is marked, and a room of equal size beside it is added at the end.
pub open spec fn after_unlock(rooms: Seq<Room>, source: int, side: Direction) -> Seq<Room> {
    rooms.update(
        source,
        Room {
            area: rooms[source].area,
            unlocked_after: rooms[source].unlocked_after,
            expanded_direction: Some(side),
        },
    ).push(
        Room {
            area: rooms[source].adjacent_area(side),
            unlocked_after: Some((source as usize, side)),
            expanded_direction: None,
        },
    )
}

/// Room `i` was unlocked from an earlier room, which is marked as expanded
/// through the recorded side and which it borders there.
pub open spec fn linked(rooms: Seq<Room>, i: int) -> bool {
    match rooms[i].unlocked_after {
        Some((parent, side)) => {
            &&& parent < i
            &&& rooms[parent as int].expanded_direction == Some(side)
            &&& rooms[i].area == rooms[parent as int].adjacent_area(side)
        },
        None => false,
    }
}

/// The rooms form a tree rooted at the first: every other room is linked to
/// an earlier one, and no two rooms were unlocked from the same room.
pub open spec fn well_formed(rooms: Seq<Room>) -> bool {
    &&& rooms.len() > 0
    &&& rooms[0].unlocked_after is None
    &&& forall|i: int| 0 < i < rooms.len() ==> #[trigger] linked(rooms, i)
    &&& forall|i: int, j: int|
        0 < i < j < rooms.len() ==> (#[trigger] rooms[i]).unlocked_after.unwrap().0 != (
        #[trigger] rooms[j]).unlocked_after.unwrap().0
}

/// The wall of `room` on side `side`, unless that side is open.
pub open spec fn side_wall(room: Room, index: usize, side: Direction) -> Seq<Wall> {
    if room.is_passage(side) {
        Seq::empty()
    } else {
        seq![Wall { room: index, side, collider: room.wall_box(side) }]
    }
}

/// The walls of `room`, in the order left, right, down, up.
pub open spec fn room_walls(room: Room, index: usize) -> Seq<Wall> {
    side_wall(room, index, Direction::Left) + side_wall(room, index, Direction::Right) + side_wall(
        room,
        index,
        Direction::Down,
    ) + side_wall(room, index, Direction::Up)
}

/// The walls of all `rooms`, room by room.
pub open spec fn walls_of(rooms: Seq<Room>) -> Seq<Wall>
    decreases rooms.len(),
{
    if rooms.len() == 0 {
        Seq::empty()
    } else {
        walls_of(rooms.drop_last()) + room_walls(rooms.last(), (rooms.len() - 1) as usize)
    }
}

/// The first room that holds a point is a room that holds it, and no
/// earlier room does; there is none exactly when no room holds the point.
pub proof fn lemma_room_at(rooms: Seq<Room>, pos: Position, start: int)
    requires
        0 <= start,
    ensures
        match room_at_from(rooms, pos, start) {
            Some(i) => start <= i < rooms.len() && rooms[i].area.holds(pos) && forall|j: int|
                start <= j < i ==> !(#[trigger] rooms[j]).area.holds(pos),
            None => forall|j: int| start <= j < rooms.len() ==> !(#[trigger] rooms[j]).area.holds(pos),
        },
    decreases rooms.len() - start,
{
    if start < rooms.len() && !rooms[start].area.holds(pos) {
        lemma_room_at(rooms, pos, start + 1);
    }
}

/// A room that has been expanded can never be expanded again: after a dash
/// has expanded room `source`, no side of it is eligible, and no later dash
/// from it unlocks anything, wherever it ends.
pub proof fn lemma_expansion_is_one_shot(
    rooms: Seq<Room>,
    source: int,
    pos: Position,
    dir: Direction,
    later: Position,
)
    requires
        unlock_direction(rooms, source, pos) is Some,
    ensures
        !after_unlock(rooms, source, unlock_direction(rooms, source, pos).unwrap())[source].eligible(dir),
        unlock_direction(
            after_unlock(rooms, source, unlock_direction(rooms, source, pos).unwrap()),
            source,
            later,
        ) is None,
{
}

/// Expanding a room changes no other room that was there, and clears no
/// mark: a room that was expanded stays expanded through the same side.
pub proof fn lemma_unlock_keeps_expansions(rooms: Seq<Room>, source: int, side: Direction, i: int)
    requires
        0 <= source < rooms.len(),
        0 <= i < rooms.len(),
    ensures
        after_unlock(rooms, source, side).len() == rooms.len() + 1,
        i != source ==> after_unlock(rooms, source, side)[i] == rooms[i],
        after_unlock(rooms, source, side)[i].area == rooms[i].area,
        after_unlock(rooms, source, side)[i].unlocked_after == rooms[i].unlocked_after,
        rooms[source].expanded_direction is None && rooms[i].expanded_direction is Some
            ==> after_unlock(rooms, source, side)[i].expanded_direction
            == rooms[i].expanded_direction,
{
}

/// Expanding a room of a tree of rooms gives a tree of rooms.
pub proof fn lemma_unlock_keeps_tree(rooms: Seq<Room>, source: int, side: Direction)
    requires
        well_formed(rooms),
        rooms.len() <= usize::MAX,
        0 <= source < rooms.len(),
        rooms[source].expanded_direction is None,
    ensures
        well_formed(after_unlock(rooms, source, side)),
{
    let after = after_unlock(rooms, source, side);
    let n = rooms.len() as int;
    assert forall|i: int| 0 < i < after.len() implies #[trigger] linked(after, i) by {
        if i < n {
            assert(linked(rooms, i));
        }
    }
    assert forall|i: int, j: int| 0 < i < j < after.len() implies (#[trigger] after[i]).unlocked_after.unwrap().0
        != (#[trigger] after[j]).unlocked_after.unwrap().0 by {
        assert(linked(rooms, i));
    }
}

/// A dash from a room back into the room that it was unlocked from unlocks
/// nothing; and wherever a dash from it ends, the room is not expanded
/// through the side recorded in `unlocked_after`.
pub proof fn lemma_no_unlock_into_parent(rooms: Seq<Room>, child: int, pos: Position)
    requires
        well_formed(rooms),
        0 < child < rooms.len(),
    ensures
        rooms[child].unlocked_after is Some,
        rooms[rooms[child].unlocked_after.unwrap().0 as int].area.holds(pos) ==> unlock_direction(
            rooms,
            child,
            pos,
        ) is None,
        unlock_direction(rooms, child, pos) != rooms[child].entry_side(),
{
    assert(linked(rooms, child));
}

/// The rooms of the level.
pub struct RoomGraph {
    pub rooms: Vec<Room>,
}

impl View for RoomGraph {
    type V = Seq<Room>;

    open spec fn view(&self) -> Seq<Room> {
        self.rooms@
    }
}

impl RoomGraph {
    /// A level of one room.
    pub fn new(start: Aabb) -> (graph: RoomGraph)
        ensures
            graph@ == seq![Room { area: start, unlocked_after: None, expanded_direction: None }],
            well_formed(graph@),
    {
        let mut rooms: Vec<Room> = Vec::new();
        rooms.push(Room::new(start));
        RoomGraph { rooms }
    }

    /// The first room that `pos` lies in.
    pub fn find_room(&self, pos: &Position) -> (found: Option<usize>)
        ensures
            match found {
                Some(i) => room_at(self@, *pos) == Some(i as int) && i < self@.len()
                    && self@[i as int].area.holds(*pos),
                None => room_at(self@, *pos) is None && !covered(self@, *pos),
            },
    {
        proof {
            lemma_room_at(self@, *pos, 0);
        }
        let mut i: usize = 0;
        while i < self.rooms.len()
            invariant
                0 <= i <= self.rooms.len(),
                room_at(self@, *pos) == room_at_from(self@, *pos, i as int),
            decreases self.rooms.len() - i,
        {
            if self.rooms[i].area.contains(pos) {
                return Some(i);
            }
            i = i + 1;
        }
        None
    }

    /// Whether `pos` lies in a room.
    pub fn contains(&self, pos: &Position) -> (inside: bool)
        ensures
            inside == covered(self@, *pos),
    {
        self.find_room(pos).is_some()
    }

    /// Expands room `source` for a dash that ended at `pos`, if
    /// `unlock_direction` allows it, and returns the new room's index and the
    /// side that was opened.
    pub fn unlock(&mut self, source: usize, pos: Position) -> (opened: Option<(usize, Direction)>)
        ensures
            match unlock_direction(old(self)@, source as int, pos) {
                Some(side) => final(self)@ == after_unlock(old(self)@, source as int, side)
                    && opened == Some((old(self)@.len() as usize, side)),
                None => final(self)@ == old(self)@ && opened is None,
            },
            well_formed(old(self)@) ==> well_formed(final(self)@),
    {
        if source >= self.rooms.len() {
            return None;
        }
        if self.contains(&pos) {
            return None;
        }
        let room: Room = self.rooms[source];
        let side: Direction = match room.closest_wall(pos) {
            Some((_, side)) => side,
            None => {
                return None;
            },
        };
        if !room.can_expand_toward(side) {
            return None;
        }
        let child = Room {
            area: room.neighbour_area(side),
            unlocked_after: Some((source, side)),
            expanded_direction: None,
        };
        let index: usize = self.rooms.len();
        proof {
            lemma_unlock_keeps_tree_if(self@, source as int, side);
        }
        self.rooms.set(
            source,
            Room {
                area: room.area,
                unlocked_after: room.unlocked_after,
                expanded_direction: Some(side),
            },
        );
        self.rooms.push(child);
        Some((index, side))
    }

    /// The walls of all rooms, but for the sides that are open.
    pub fn wall_colliders(&self) -> (walls: Vec<Wall>)
        ensures
            walls@ == walls_of(self@),
    {
        let mut walls: Vec<Wall> = Vec::new();
        let mut i: usize = 0;
        while i < self.rooms.len()
            invariant
                0 <= i <= self.rooms.len(),
                walls@ == walls_of(self@.take(i as int)),
            decreases self.rooms.len() - i,
        {
            let room: Room = self.rooms[i];
            proof {
                assert(self@.take(i + 1).drop_last() =~= self@.take(i as int));
            }
            push_wall(&mut walls, &room, i, Direction::Left);
            push_wall(&mut walls, &room, i, Direction::Right);
            push_wall(&mut walls, &room, i, Direction::Down);
            push_wall(&mut walls, &room, i, Direction::Up);
            i = i + 1;
        }
        assert(self@.take(self.rooms.len() as int) =~= self@);
        walls
    }
}

/// Adds the wall of `room` on side `side`, unless that side is open.
fn push_wall(walls: &mut Vec<Wall>, room: &Room, index: usize, side: Direction)
    ensures
        final(walls)@ == old(walls)@ + side_wall(*room, index, side),
{
    if !room.has_passage(side) {
        walls.push(Wall { room: index, side, collider: room.wall(side) });
    }
}

/// Expanding a room that is not yet expanded keeps a tree a tree.
proof fn lemma_unlock_keeps_tree_if(rooms: Seq<Room>, source: int, side: Direction)
    requires
        rooms.len() <= usize::MAX,
        0 <= source < rooms.len(),
        rooms[source].expanded_direction is None,
    ensures
        well_formed(rooms) ==> well_formed(after_unlock(rooms, source, side)),
{
    if well_formed(rooms) {
        lemma_unlock_keeps_tree(rooms, source, side);
    }
}

} // verus!
