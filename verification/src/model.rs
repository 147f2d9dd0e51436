//! The mathematical model of a game session: what the registry holds, what
//! the counters say, and how each step of a frame changes them.

use crate::angle::{bounced, normalized, FULL_TURN};
use crate::label::{is_bonus_label, is_shot_label, kind_of, shot_label_of, Kind};
use crate::timer::Timer;
use vstd::prelude::*;

verus! {

/// Projectile speed, in units per second.
pub const SHOT_SPEED: i64 = 200;

/// Height below which a projectile has left the playing field, in
/// billionths of a unit.
pub const LOWER_BOUND: i64 = -400_000_000_000;

/// The value of a heading component that stands for one.
pub const COMPONENT_SCALE: i32 = 1_000_000;

/// Lower end of the launch angles, in millidegrees (one over pi radians).
pub const LAUNCH_MIN: i64 = 18_238;

/// Upper end of the launch angles, in millidegrees (a quarter turn).
pub const LAUNCH_MAX: i64 = 90_000;

/// How far the player moves in a frame in which it is steered, in
/// billionths of a unit.
pub const PLAYER_STEP: i64 = 8_000_000_000;

/// How far above the player a projectile appears, in billionths of a unit.
pub const MUZZLE_OFFSET: i64 = 15_000_000_000;

/// The player's rotation while tilted to the left, in millidegrees.
pub const TILT_LEFT: i64 = 351_406;

/// The player's rotation while tilted to the right, in millidegrees.
pub const TILT_RIGHT: i64 = 8_594;

/// The keys that are held down in a frame.
#[derive(Clone, Copy, Debug, PartialEq, Eq, Structural)]
pub struct Input {
    /// The fire key.
    pub fire: bool,
    /// The key that moves the player to the left.
    pub left: bool,
    /// The key that moves the player to the right.
    pub right: bool,
    /// The key that tilts the player to the left.
    pub tilt_left: bool,
    /// The key that tilts the player to the right.
    pub tilt_right: bool,
}

/// What the player does in a frame.
#[derive(Clone, Copy, Debug, PartialEq, Eq, Structural)]
pub enum Move {
    /// Fires a projectile.
    Fire,
    /// Steps to the left.
    Left,
    /// Steps to the right.
    Right,
    /// Tilts to the left.
    TiltLeft,
    /// Tilts to the right.
    TiltRight,
    /// Nothing.
    Stay,
}

/// Whether two entities have started or stopped touching.
#[derive(Clone, Copy, Debug, PartialEq, Eq, Structural)]
pub enum Phase {
    /// The pair is newly touching.
    Start,
    /// The pair is newly separating.
    End,
}

/// Where a session stands.
#[derive(Clone, Copy, Debug, PartialEq, Eq, Structural)]
pub enum Outcome {
    /// The game goes on.
    Running,
    /// Every brick is gone.
    Won,
    /// Bricks remain and nothing can be fired at them any more.
    Lost,
}

/// The direction of travel that belongs to an angle, as cosine and sine in
/// millionths.
#[derive(Clone, Copy, Debug, PartialEq, Eq, Structural)]
pub struct Heading {
    /// Cosine of the angle, in millionths.
    pub cos_ppm: i32,
    /// Sine of the angle, in millionths.
    pub sin_ppm: i32,
}

impl Heading {
    /// Neither component exceeds one in magnitude.
    pub open spec fn wf(self) -> bool {
        &&& -COMPONENT_SCALE <= self.cos_ppm <= COMPONENT_SCALE
        &&& -COMPONENT_SCALE <= self.sin_ppm <= COMPONENT_SCALE
    }

    /// A heading from its two components, if neither exceeds one in
    /// magnitude.
    pub fn new(cos_ppm: i32, sin_ppm: i32) -> (heading: Option<Heading>)
        ensures
            heading == if (Heading { cos_ppm, sin_ppm }).wf() {
                Some(Heading { cos_ppm, sin_ppm })
            } else {
                None
            },
    {
        if -COMPONENT_SCALE <= cos_ppm && cos_ppm <= COMPONENT_SCALE && -COMPONENT_SCALE <= sin_ppm
            && sin_ppm <= COMPONENT_SCALE {
            Some(Heading { cos_ppm, sin_ppm })
        } else {
            None
        }
    }
}

/// An entity of the registry as a plain value.
pub struct EntityView {
    /// The label that identifies the entity.
    pub label: Seq<char>,
    /// What the entity is.
    pub kind: Kind,
    /// Horizontal position, in billionths of a unit.
    pub x: int,
    /// Vertical position, in billionths of a unit.
    pub y: int,
    /// Rotation, in millidegrees.
    pub rotation: int,
    /// Whether the entity is to be removed when the frame ends.
    pub doomed: bool,
}

impl EntityView {
    /// The kind is the one the label stands for and the rotation is
    /// normalised.
    pub open spec fn wf(self) -> bool {
        &&& self.kind == kind_of(self.label)
        &&& 0 <= self.rotation < FULL_TURN
        &&& i64::MIN <= self.x <= i64::MAX
        &&& i64::MIN <= self.y <= i64::MAX
    }
}

/// A collision event as a plain value.
pub struct EventView {
    /// Label of one member of the pair.
    pub first: Seq<char>,
    /// Label of the other member.
    pub second: Seq<char>,
    /// Whether the pair is newly touching or newly separating.
    pub phase: Phase,
}

/// How many entities of `entities` are of the given kind.
pub open spec fn tally(entities: Seq<EntityView>, kind: Kind) -> nat
    decreases entities.len(),
{
    if entities.len() == 0 {
        0
    } else {
        tally(entities.drop_last(), kind) + if entities.last().kind == kind {
            1nat
        } else {
            0nat
        }
    }
}

/// Whether some entity carries the label.
pub open spec fn holds(entities: Seq<EntityView>, label: Seq<char>) -> bool {
    exists|i: int| 0 <= i < entities.len() && #[trigger] entities[i].label == label
}

/// The place of an entity that carries the label.
pub open spec fn slot(entities: Seq<EntityView>, label: Seq<char>) -> int {
    choose|i: int| 0 <= i < entities.len() && #[trigger] entities[i].label == label
}

/// No two entities carry the same label.
pub open spec fn distinct(entities: Seq<EntityView>) -> bool {
    forall|i: int, j: int|
        0 <= i < j < entities.len() ==> #[trigger] entities[i].label != #[trigger] entities[j].label
}

/// The entities that are not marked for removal, in their order.
pub open spec fn survivors(entities: Seq<EntityView>) -> Seq<EntityView>
    decreases entities.len(),
{
    if entities.len() == 0 {
        Seq::empty()
    } else if entities.last().doomed {
        survivors(entities.drop_last())
    } else {
        survivors(entities.drop_last()).push(entities.last())
    }
}

/// The labels of the entities that are marked for removal, in their order.
pub open spec fn condemned(entities: Seq<EntityView>) -> Seq<Seq<char>>
    decreases entities.len(),
{
    if entities.len() == 0 {
        Seq::empty()
    } else if entities.last().doomed {
        condemned(entities.drop_last()).push(entities.last().label)
    } else {
        condemned(entities.drop_last())
    }
}

/// A position moved by a displacement, held within the range of an `i64`.
pub open spec fn shifted(position: int, by: int) -> int {
    if position + by > i64::MAX {
        i64::MAX as int
    } else if position + by < i64::MIN {
        i64::MIN as int
    } else {
        position + by
    }
}

/// How far a projectile travels along one axis in `dt_ms` milliseconds, in
/// billionths of a unit, when `component_ppm` is the cosine or sine of its
/// rotation in millionths.
pub open spec fn displacement(dt_ms: int, component_ppm: int) -> int {
    SHOT_SPEED * dt_ms * component_ppm
}

/// An entity after `dt_ms` milliseconds: a projectile has travelled along
/// its heading and is marked for removal once it is below the lower bound;
/// anything else is as it was.
pub open spec fn travelled(entity: EntityView, heading: Heading, dt_ms: int) -> EntityView {
    if entity.kind == Kind::Projectile {
        let y = shifted(entity.y, displacement(dt_ms, heading.sin_ppm as int));
        EntityView {
            x: shifted(entity.x, displacement(dt_ms, heading.cos_ppm as int)),
            y,
            doomed: entity.doomed || y < LOWER_BOUND,
            ..entity
        }
    } else {
        entity
    }
}

/// One more unit of ammunition, unless the counter is full.
pub open spec fn replenished(ammo: nat) -> nat {
    if ammo < u32::MAX {
        ammo + 1
    } else {
        ammo
    }
}

/// The state of a session as a plain value.
pub struct GameView {
    /// The live entities, in the order in which they were added.
    pub entities: Seq<EntityView>,
    /// The sequence number of the last projectile fired.
    pub shot_counter: nat,
    /// The number of live projectiles.
    pub active_shots: nat,
    /// The shots that may still be fired.
    pub ammo: nat,
    /// The number of live bricks.
    pub bricks_left: nat,
    /// Where the session stands.
    pub outcome: Outcome,
    /// The timer that spaces the shots.
    pub reload: Timer,
    /// The timer that ends a tilt of the player.
    pub tilt: Timer,
}

impl GameView {
    /// The game goes on.
    pub open spec fn running(self) -> bool {
        self.outcome == Outcome::Running
    }

    /// No entity is marked for removal.
    pub open spec fn settled(self) -> bool {
        forall|i: int| 0 <= i < self.entities.len() ==> !(#[trigger] self.entities[i]).doomed
    }

    /// The labels that await removal.
    pub open spec fn pending(self) -> Seq<Seq<char>> {
        condemned(self.entities)
    }

    /// Labels are unique, every entity is well formed, the counters count
    /// what the registry holds, and a session that has ended awaits no
    /// removal.
    pub open spec fn wf(self) -> bool {
        &&& distinct(self.entities)
        &&& forall|i: int| 0 <= i < self.entities.len() ==> (#[trigger] self.entities[i]).wf()
        &&& self.active_shots == tally(self.entities, Kind::Projectile)
        &&& self.bricks_left == tally(self.entities, Kind::Brick)
        &&& self.shot_counter <= u32::MAX
        &&& self.ammo <= u32::MAX
        &&& !self.running() ==> self.settled()
    }

    /// Whether an entity with this label can be added.
    pub open spec fn admits(self, label: Seq<char>) -> bool {
        self.running() && !holds(self.entities, label)
    }

    /// The session with one more entity.
    pub open spec fn with_entity(self, label: Seq<char>, x: int, y: int, rotation: int) -> GameView {
        let kind = kind_of(label);
        GameView {
            entities: self.entities.push(
                EntityView { label, kind, x, y, rotation: normalized(rotation), doomed: false },
            ),
            active_shots: if kind == Kind::Projectile {
                self.active_shots + 1
            } else {
                self.active_shots
            },
            bricks_left: if kind == Kind::Brick {
                self.bricks_left + 1
            } else {
                self.bricks_left
            },
            ..self
        }
    }

    /// The session with its timers advanced, unless it has ended.
    pub open spec fn ticked(self, dt_ms: u64) -> GameView {
        if self.running() {
            GameView { reload: self.reload.ticked(dt_ms), tilt: self.tilt.ticked(dt_ms), ..self }
        } else {
            self
        }
    }

    /// Whether a fire request is granted: the game goes on, ammunition is
    /// left, the reload timer has finished, and the next sequence number
    /// exists and is not taken.
    pub open spec fn can_fire(self) -> bool {
        &&& self.running()
        &&& self.ammo > 0
        &&& self.reload.is_finished()
        &&& self.shot_counter < u32::MAX
        &&& !holds(self.entities, shot_label_of(self.shot_counter + 1))
    }

    /// The session after a granted fire request.
    pub open spec fn fired(self, x: int, y: int, heading: int) -> GameView {
        GameView {
            shot_counter: self.shot_counter + 1,
            ammo: (self.ammo - 1) as nat,
            reload: self.reload.rewound(),
            ..self.with_entity(shot_label_of(self.shot_counter + 1), x, y, heading)
        }
    }

    /// Whether the player can be steered: the game goes on and the registry
    /// holds the player.
    pub open spec fn steerable(self) -> bool {
        self.running() && holds(self.entities, "player"@)
    }

    /// What the player does on the given input. Firing comes first, where a
    /// fire request would be granted; then a step to the left, a step to
    /// the right, and a tilt to either side once the last tilt is over.
    pub open spec fn chosen(self, input: Input) -> Move {
        if input.fire && self.can_fire() {
            Move::Fire
        } else if input.left {
            Move::Left
        } else if input.right {
            Move::Right
        } else if input.tilt_left && self.tilt.is_finished() {
            Move::TiltLeft
        } else if input.tilt_right && self.tilt.is_finished() {
            Move::TiltRight
        } else {
            Move::Stay
        }
    }

    /// The session with another value for the player.
    pub open spec fn with_player(self, player: EntityView) -> GameView {
        GameView { entities: self.entities.update(slot(self.entities, "player"@), player), ..self }
    }

    /// The session after the player has acted on the input. A tilt that is
    /// over is undone first. A projectile is fired from just above the
    /// player at the given launch angle. Where the player cannot be
    /// steered nothing changes.
    pub open spec fn steered(self, input: Input, heading: int) -> GameView {
        if self.steerable() {
            let before = self.entities[slot(self.entities, "player"@)];
            let player = EntityView {
                rotation: if self.tilt.is_finished() {
                    0
                } else {
                    before.rotation
                },
                ..before
            };
            match self.chosen(input) {
                Move::Fire => self.with_player(player).fired(
                    player.x,
                    shifted(player.y, MUZZLE_OFFSET as int),
                    heading,
                ),
                Move::Left => self.with_player(
                    EntityView { x: shifted(player.x, -PLAYER_STEP), ..player },
                ),
                Move::Right => self.with_player(
                    EntityView { x: shifted(player.x, PLAYER_STEP as int), ..player },
                ),
                Move::TiltLeft => GameView {
                    tilt: self.tilt.rewound(),
                    ..self.with_player(EntityView { rotation: TILT_LEFT as int, ..player })
                },
                Move::TiltRight => GameView {
                    tilt: self.tilt.rewound(),
                    ..self.with_player(EntityView { rotation: TILT_RIGHT as int, ..player })
                },
                Move::Stay => self.with_player(player),
            }
        } else {
            self
        }
    }

    /// The session after its projectiles have travelled for `dt_ms`
    /// milliseconds, each along the heading at its own place.
    pub open spec fn advanced(self, dt_ms: int, headings: Seq<Heading>) -> GameView {
        if self.running() {
            GameView {
                entities: Seq::new(
                    self.entities.len(),
                    |i: int| travelled(self.entities[i], headings[i], dt_ms),
                ),
                ..self
            }
        } else {
            self
        }
    }

    /// Whether an event is an impact: the game goes on, the pair is newly
    /// touching and at least one member is a projectile.
    pub open spec fn strikes(self, event: EventView) -> bool {
        &&& self.running()
        &&& event.phase == Phase::Start
        &&& is_shot_label(event.first) || is_shot_label(event.second)
    }

    /// Whether an impact names an entity that the registry lacks.
    pub open spec fn misses(self, event: EventView) -> bool {
        self.strikes(event) && !(holds(self.entities, event.first) && holds(
            self.entities,
            event.second,
        ))
    }

    /// The session after an event. An impact whose members are both live
    /// grants ammunition for a bonus marker, turns each projectile of the
    /// pair by the other member's rotation as it was before the impact, and
    /// marks a brick struck by a projectile for removal. Any other event
    /// changes nothing.
    pub open spec fn collided(self, event: EventView) -> GameView {
        if self.strikes(event) && !self.misses(event) {
            let a = slot(self.entities, event.first);
            let b = slot(self.entities, event.second);
            let ea = self.entities[a];
            let eb = self.entities[b];
            let first_shot = is_shot_label(event.first);
            let second_shot = is_shot_label(event.second);
            let na = EntityView {
                rotation: if first_shot {
                    bounced(ea.rotation, eb.rotation)
                } else {
                    ea.rotation
                },
                doomed: ea.doomed || (second_shot && ea.kind == Kind::Brick),
                ..ea
            };
            let nb = EntityView {
                rotation: if second_shot {
                    bounced(eb.rotation, ea.rotation)
                } else {
                    eb.rotation
                },
                doomed: eb.doomed || (first_shot && eb.kind == Kind::Brick),
                ..eb
            };
            GameView {
                entities: self.entities.update(a, na).update(b, nb),
                ammo: if is_bonus_label(event.first) || is_bonus_label(event.second) {
                    replenished(self.ammo)
                } else {
                    self.ammo
                },
                ..self
            }
        } else {
            self
        }
    }

    /// The session after a batch of events handled in order, up to and
    /// without the first impact that names a missing entity.
    pub open spec fn dispatched(self, events: Seq<EventView>) -> GameView
        decreases events.len(),
    {
        if events.len() == 0 {
            self
        } else {
            let before = self.dispatched(events.drop_last());
            if self.stumbles(events.drop_last()) {
                before
            } else {
                before.collided(events.last())
            }
        }
    }

    /// Whether some impact of the batch names an entity that is missing
    /// when its turn comes.
    pub open spec fn stumbles(self, events: Seq<EventView>) -> bool
        decreases events.len(),
    {
        if events.len() == 0 {
            false
        } else {
            self.stumbles(events.drop_last()) || self.dispatched(events.drop_last()).misses(
                events.last(),
            )
        }
    }

    /// The number of impacts in a batch handled in order, up to the first
    /// that names a missing entity.
    pub open spec fn impacts(self, events: Seq<EventView>) -> nat
        decreases events.len(),
    {
        if events.len() == 0 {
            0
        } else if self.stumbles(events) {
            self.impacts(events.drop_last())
        } else if self.dispatched(events.drop_last()).strikes(events.last()) {
            self.impacts(events.drop_last()) + 1
        } else {
            self.impacts(events.drop_last())
        }
    }

    /// The session after one whole frame: the timers advance, the player
    /// acts, the projectiles travel, the collisions are handled and the
    /// frame ends.
    pub open spec fn framed(
        self,
        dt_ms: u32,
        input: Input,
        heading: int,
        headings: Seq<Heading>,
        events: Seq<EventView>,
    ) -> GameView {
        self.ticked(dt_ms as u64).steered(input, heading).advanced(
            dt_ms as int,
            headings,
        ).dispatched(events).concluded()
    }

    /// Where a running session stands once the marked entities are gone:
    /// won when no brick is left, lost when bricks are left but neither a
    /// live projectile nor ammunition, running otherwise.
    pub open spec fn verdict(bricks_left: nat, active_shots: nat, ammo: nat) -> Outcome {
        if bricks_left == 0 {
            Outcome::Won
        } else if active_shots == 0 && ammo == 0 {
            Outcome::Lost
        } else {
            Outcome::Running
        }
    }

    /// The session at the end of a frame: the marked entities are removed,
    /// the counters follow, and the outcome is decided. A session that has
    /// ended stays as it is.
    pub open spec fn concluded(self) -> GameView {
        if self.running() {
            let entities = survivors(self.entities);
            let active_shots = tally(entities, Kind::Projectile);
            let bricks_left = tally(entities, Kind::Brick);
            GameView {
                entities,
                active_shots,
                bricks_left,
                outcome: Self::verdict(bricks_left, active_shots, self.ammo),
                ..self
            }
        } else {
            self
        }
    }
}

} // verus!
