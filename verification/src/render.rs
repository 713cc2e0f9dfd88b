//! What is drawn for a state of the game, as a list of plain shapes that the
//! window then paints in order.

use vstd::prelude::*;
use crate::bounded::Bounded;
use crate::collider::Collider;
use crate::enemy::Enemy;
use crate::fixed::{div_trunc, lemma_product_bound, sat, Coord};
use crate::geometry::{place, pos, Aabb, Position};
use crate::model::{Model, ModelView, Object};

verus! {

/// The colours that shapes are painted in.
#[derive(Debug, Clone, Copy, PartialEq, Eq, Structural)]
pub enum Color {
    White,
    Red,
    Cyan,
    Green,
    Black,
}

/// One shape to paint.
#[derive(Debug, Clone, PartialEq, Eq)]
pub enum Paint {
    /// A polyline of the given width.
    Chain { points: Vec<Position>, width: Coord, color: Color },
    /// The shape of a collider, filled.
    Body { collider: Collider, color: Color },
    /// A box, filled.
    Quad { area: Aabb, color: Color },
}

/// A shape to paint, as plain values.
#[verifier::ext_equal]
pub enum PaintView {
    Chain { points: Seq<Position>, width: Coord, color: Color },
    Body { collider: Collider, color: Color },
    Quad { area: Aabb, color: Color },
}

impl View for Paint {
    type V = PaintView;

    open spec fn view(&self) -> PaintView {
        match *self {
            Paint::Chain { points, width, color } => PaintView::Chain { points: points@, width, color },
            Paint::Body { collider, color } => PaintView::Body { collider, color },
            Paint::Quad { area, color } => PaintView::Quad { area, color },
        }
    }
}

/// The shapes of a list as plain values.
pub open spec fn paints(list: Seq<Paint>) -> Seq<PaintView> {
    Seq::new(list.len(), |i: int| list[i]@)
}

/// The frame of the health bar of `collider`: 0.9 wide and 0.2 high, its
/// middle 0.2 above the top of the shape.
pub open spec fn bar_frame(collider: Collider) -> Aabb {
    let around = collider.bounds();
    let x = div_trunc(around.min.x + around.max.x, 2);
    let y = around.max.y + 200;
    Aabb { min: pos(x - 450, y - 100), max: pos(x + 450, y + 100) }
}

/// The inside of a health bar: its frame without a rim of 0.02.
pub open spec fn bar_inside(frame: Aabb) -> Aabb {
    Aabb {
        min: pos(frame.min.x + 20, frame.min.y + 20),
        max: pos(frame.max.x - 20, frame.max.y - 20),
    }
}

/// The filled part of a health bar: its inside, narrowed about its middle
/// to the part `ratio` (in thousandths) of its width.
pub open spec fn bar_fill(inside: Aabb, ratio: int) -> Aabb {
    let grow = div_trunc(inside.width() * (ratio - 1000), 2000);
    Aabb {
        min: pos(inside.min.x - grow, inside.min.y as int),
        max: pos(inside.max.x + grow, inside.max.y as int),
    }
}

/// The health bar of a body: nothing at full health, else the frame in
/// red, the inside in black and over it the filled part in red.
pub open spec fn health_bar(collider: Collider, health: Bounded) -> Seq<PaintView> {
    if health.value == health.max {
        Seq::empty()
    } else {
        let frame = bar_frame(collider);
        let inside = bar_inside(frame);
        seq![
            PaintView::Quad { area: frame, color: Color::Red },
            PaintView::Quad { area: inside, color: Color::Black },
            PaintView::Quad {
                area: bar_fill(inside, sat(health.ratio())),
                color: Color::Red,
            },
        ]
    }
}

/// The stroke being drawn, as a white line 0.1 wide.
pub open spec fn stroke_paint(m: ModelView) -> Seq<PaintView> {
    match m.player.draw_action {
        Some(drawing) => seq![
            PaintView::Chain { points: drawing.smoothed, width: 100, color: Color::White },
        ],
        None => Seq::empty(),
    }
}

/// The objects, in red.
pub open spec fn object_paints(objects: Seq<Object>) -> Seq<PaintView>
    decreases objects.len(),
{
    if objects.len() == 0 {
        Seq::empty()
    } else {
        object_paints(objects.drop_last()).push(
            PaintView::Body { collider: objects.last().collider, color: Color::Red },
        )
    }
}

/// The enemies, in cyan, each followed by its health bar.
pub open spec fn enemy_paints(enemies: Seq<Enemy>) -> Seq<PaintView>
    decreases enemies.len(),
{
    if enemies.len() == 0 {
        Seq::empty()
    } else {
        enemy_paints(enemies.drop_last()).push(
            PaintView::Body { collider: enemies.last().body.collider, color: Color::Cyan },
        ) + health_bar(enemies.last().body.collider, enemies.last().health)
    }
}

/// All that is drawn for the state `m`, from the bottom up: the stroke,
/// the objects, the enemies, and the player in green with its health bar.
pub open spec fn scene(m: ModelView) -> Seq<PaintView> {
    stroke_paint(m) + object_paints(m.objects) + enemy_paints(m.enemies) + seq![
        PaintView::Body { collider: m.player.body.collider, color: Color::Green },
    ] + health_bar(m.player.body.collider, m.player.health)
}

/// Turns the state of the game into shapes.
pub struct GameRender {}

impl GameRender {
    /// A renderer; it keeps nothing between frames.
    pub fn new() -> (render: Self)
        ensures
            render == (GameRender {  }),
    {
        GameRender {  }
    }

    /// All that is drawn for `model`.
    pub fn draw_game(&self, model: &Model) -> (list: Vec<Paint>)
        ensures
            paints(list@) == scene(model@),
    {
        let mut list: Vec<Paint> = Vec::new();
        match &model.player.draw_action {
            Some(drawing) => {
                list.push(
                    Paint::Chain {
                        points: drawing.points_smoothed.clone(),
                        width: 100,
                        color: Color::White,
                    },
                );
            },
            None => {},
        }
        let mut i: usize = 0;
        while i < model.objects.len()
            invariant
                0 <= i <= model.objects.len(),
                paints(list@) == stroke_paint(model@) + object_paints(model.objects@.take(i as int)),
            decreases model.objects.len() - i,
        {
            let ghost before = paints(list@);
            list.push(self.draw_collider(&model.objects[i].collider, Color::Red));
            proof {
                let upto = model.objects@.take(i + 1);
                assert(upto.drop_last() =~= model.objects@.take(i as int));
                assert(paints(list@) =~= before.push(
                    PaintView::Body { collider: model.objects@[i as int].collider, color: Color::Red },
                ));
            }
            i = i + 1;
        }
        assert(model.objects@.take(model.objects.len() as int) =~= model.objects@);
        let ghost below = paints(list@);
        let mut j: usize = 0;
        while j < model.enemies.len()
            invariant
                0 <= j <= model.enemies.len(),
                below == stroke_paint(model@) + object_paints(model.objects@),
                paints(list@) == below + enemy_paints(model.enemies@.take(j as int)),
            decreases model.enemies.len() - j,
        {
            let ghost before = paints(list@);
            list.push(self.draw_collider(&model.enemies[j].body.collider, Color::Cyan));
            assert(paints(list@) =~= before.push(
                PaintView::Body { collider: model.enemies@[j as int].body.collider, color: Color::Cyan },
            ));
            self.draw_health_bar(&mut list, &model.enemies[j].body.collider, &model.enemies[j].health);
            proof {
                let upto = model.enemies@.take(j + 1);
                assert(upto.drop_last() =~= model.enemies@.take(j as int));
            }
            j = j + 1;
        }
        assert(model.enemies@.take(model.enemies.len() as int) =~= model.enemies@);
        list.push(self.draw_collider(&model.player.body.collider, Color::Green));
        self.draw_health_bar(&mut list, &model.player.body.collider, &model.player.health);
        list
    }

    /// The shape of `collider` in `color`.
    pub fn draw_collider(&self, collider: &Collider, color: Color) -> (paint: Paint)
        ensures
            paint@ == (PaintView::Body { collider: *collider, color }),
    {
        Paint::Body { collider: *collider, color }
    }

    /// Adds the health bar of a body to `list`.
    pub fn draw_health_bar(&self, list: &mut Vec<Paint>, collider: &Collider, health: &Bounded)
        ensures
            paints(final(list)@) == paints(old(list)@) + health_bar(*collider, *health),
    {
        if health.is_max() {
            return;
        }
        let around: Aabb = collider.compute_aabb();
        let x: i64 = (around.min.x as i64 + around.max.x as i64) / 2;
        let y: i64 = around.max.y as i64 + 200;
        let frame = Aabb {
            min: place((x - 450) as i128, (y - 100) as i128),
            max: place((x + 450) as i128, (y + 100) as i128),
        };
        let inside = Aabb {
            min: frame.min.translated(20, 20),
            max: frame.max.translated(-20, -20),
        };
        let ratio: i64 = health.get_ratio() as i64;
        proof {
            lemma_product_bound(inside.width() as int, ratio - 1000, 0x1_0000_0000, 0x1_0000_0000);
        }
        let grow: i128 = (inside.width() as i128 * (ratio - 1000) as i128) / 2000;
        let fill = Aabb {
            min: place(inside.min.x as i128 - grow, inside.min.y as i128),
            max: place(inside.max.x as i128 + grow, inside.max.y as i128),
        };
        list.push(Paint::Quad { area: frame, color: Color::Red });
        list.push(Paint::Quad { area: inside, color: Color::Black });
        list.push(Paint::Quad { area: fill, color: Color::Red });
    }
}

} // verus!
