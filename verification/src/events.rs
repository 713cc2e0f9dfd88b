//! The events that a step reports, and what is played for them.

use vstd::prelude::*;

verus! {

/// Something that happened during a step and that the outside reacts to.
#[derive(Debug, Clone, Copy, PartialEq, Eq, Structural)]
pub enum Event {
    Sound(SoundEvent),
}

/// A sound to be heard.
#[derive(Debug, Clone, Copy, PartialEq, Eq, Structural)]
pub enum SoundEvent {
    Drawing,
    Hit,
    Kill,
    HitSelf,
    Bounce,
    Expand,
}

/// What the outside plays for the events of one step.
#[derive(Debug, Clone)]
pub struct SoundPlan {
    /// Whether the sound of drawing is to be heard.
    pub drawing: bool,
    /// The one sound for all strikes: that of a kill if there was one, else
    /// that of a hit if there was one.
    pub impact: Option<SoundEvent>,
    /// The sounds that are played once for each event, in their order.
    pub singles: Vec<SoundEvent>,
}

/// Whether one of `events` is the sound `sound`.
pub open spec fn sounded(events: Seq<Event>, sound: SoundEvent) -> bool {
    exists|i: int| 0 <= i < events.len() && #[trigger] events[i] == Event::Sound(sound)
}

/// Whether a sound is played once for each of its events.
pub open spec fn is_single(sound: SoundEvent) -> bool {
    sound == SoundEvent::HitSelf || sound == SoundEvent::Bounce || sound == SoundEvent::Expand
}

/// The sounds of `events` that are played once for each event, in their order.
pub open spec fn singles_of(events: Seq<Event>) -> Seq<SoundEvent>
    decreases events.len(),
{
    if events.len() == 0 {
        Seq::empty()
    } else {
        let Event::Sound(sound) = events.last();
        if is_single(sound) {
            singles_of(events.drop_last()).push(sound)
        } else {
            singles_of(events.drop_last())
        }
    }
}

/// Decides what is played for `events`.
pub fn plan_sounds(events: &Vec<Event>) -> (plan: SoundPlan)
    ensures
        plan.drawing == sounded(events@, SoundEvent::Drawing),
        plan.impact == if sounded(events@, SoundEvent::Kill) {
            Some(SoundEvent::Kill)
        } else if sounded(events@, SoundEvent::Hit) {
            Some(SoundEvent::Hit)
        } else {
            None::<SoundEvent>
        },
        plan.singles@ == singles_of(events@),
{
    let mut drawing: bool = false;
    let mut hit: bool = false;
    let mut kill: bool = false;
    let mut singles: Vec<SoundEvent> = Vec::new();
    let mut i: usize = 0;
    while i < events.len()
        invariant
            0 <= i <= events.len(),
            drawing == sounded(events@.take(i as int), SoundEvent::Drawing),
            hit == sounded(events@.take(i as int), SoundEvent::Hit),
            kill == sounded(events@.take(i as int), SoundEvent::Kill),
            singles@ == singles_of(events@.take(i as int)),
        decreases events.len() - i,
    {
        let Event::Sound(sound) = events[i];
        proof {
            let before = events@.take(i as int);
            let upto = events@.take(i + 1);
            assert(upto.drop_last() =~= before);
            assert(upto.last() == events@[i as int]);
        }
        match sound {
            SoundEvent::Drawing => {
                drawing = true;
            },
            SoundEvent::Hit => {
                hit = true;
            },
            SoundEvent::Kill => {
                kill = true;
            },
            SoundEvent::HitSelf => {
                singles.push(sound);
            },
            SoundEvent::Bounce => {
                singles.push(sound);
            },
            SoundEvent::Expand => {
                singles.push(sound);
            },
        }
        i = i + 1;
    }
    assert(events@.take(events.len() as int) =~= events@);
    let impact: Option<SoundEvent> = if kill {
        Some(SoundEvent::Kill)
    } else if hit {
        Some(SoundEvent::Hit)
    } else {
        None
    };
    SoundPlan { drawing, impact, singles }
}

} // verus!
