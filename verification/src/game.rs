//! A game session: the registry of entities, the counters, and the steps
//! of a frame.

use crate::angle::{bounce, normalize};
use crate::label::{classify, is_bonus, is_shot, same_text, shot_label, Kind};
use crate::laws::{
    lemma_advanced, lemma_collided, lemma_concluded, lemma_dispatched, lemma_fired,
    lemma_adjusted, lemma_slot_is_unique, lemma_steered, lemma_stumble_ends_batch,
    lemma_tally_bound, lemma_tally_push, lemma_with_entity,
};
use crate::model::{
    condemned, displacement, holds, shifted, slot, survivors, tally, travelled, EntityView,
    EventView, GameView, Heading, Input, Move, Outcome, Phase, COMPONENT_SCALE, LAUNCH_MAX,
    LAUNCH_MIN, LOWER_BOUND, MUZZLE_OFFSET, PLAYER_STEP, SHOT_SPEED, TILT_LEFT, TILT_RIGHT,
};
use crate::timer::Timer;
use rand::Rng;
use vstd::prelude::*;

verus! {

/// An entity of the registry.
#[derive(Debug)]
pub struct Entity {
    /// The label that identifies the entity.
    pub label: String,
    /// What the entity is.
    pub kind: Kind,
    /// Horizontal position, in billionths of a unit.
    pub x: i64,
    /// Vertical position, in billionths of a unit.
    pub y: i64,
    /// Rotation, in millidegrees.
    pub rotation: i64,
    /// Whether the entity is to be removed when the frame ends.
    pub doomed: bool,
}

impl View for Entity {
    type V = EntityView;

    open spec fn view(&self) -> EntityView {
        EntityView {
            label: self.label@,
            kind: self.kind,
            x: self.x as int,
            y: self.y as int,
            rotation: self.rotation as int,
            doomed: self.doomed,
        }
    }
}

/// Two entities have started or stopped touching.
#[derive(Debug)]
pub struct CollisionEvent {
    /// Label of one member of the pair.
    pub first: String,
    /// Label of the other member.
    pub second: String,
    /// Whether the pair is newly touching or newly separating.
    pub phase: Phase,
}

impl View for CollisionEvent {
    type V = EventView;

    open spec fn view(&self) -> EventView {
        EventView { first: self.first@, second: self.second@, phase: self.phase }
    }
}

/// Why a frame cannot go on.
#[derive(Clone, Copy, Debug, PartialEq, Eq, Structural)]
pub enum FrameError {
    /// An impact names an entity that the registry does not hold.
    MissingEntity,
}

/// The entities of a registry as plain values.
pub open spec fn entity_views(entities: Seq<Entity>) -> Seq<EntityView> {
    Seq::new(entities.len(), |i: int| entities[i]@)
}

/// The events of a batch as plain values.
pub open spec fn event_views(events: Seq<CollisionEvent>) -> Seq<EventView> {
    Seq::new(events.len(), |i: int| events[i]@)
}

/// The characters of each string of a list.
pub open spec fn texts(labels: Seq<String>) -> Seq<Seq<char>> {
    Seq::new(labels.len(), |i: int| labels[i]@)
}

/// `Rng::gen_range` of rand on the generator that `thread_rng` hands out,
/// for a half-open range of `i64`: some value of the range, which may differ
/// from call to call. An empty range makes it panic and is left out.
#[verifier::external_body]
fn random_between(low: i64, high: i64) -> (value: i64)
    requires
        low < high,
    ensures
        low <= value < high,
{
    rand::thread_rng().gen_range(low..high)
}

/// The distance a projectile travels along one axis.
fn travel(dt_ms: u32, component_ppm: i32) -> (by: i64)
    requires
        -COMPONENT_SCALE <= component_ppm <= COMPONENT_SCALE,
    ensures
        by == displacement(dt_ms as int, component_ppm as int),
{
    let span: i64 = SHOT_SPEED * (dt_ms as i64);
    assert(-860_000_000_000 * 1_000_000 <= span * (component_ppm as i64) <= 860_000_000_000
        * 1_000_000) by (nonlinear_arith)
        requires
            0 <= span <= 860_000_000_000,
            -1_000_000 <= component_ppm <= 1_000_000,
    ;
    span * (component_ppm as i64)
}

/// A position moved by a displacement, held within the range of an `i64`.
fn shift(position: i64, by: i64) -> (moved: i64)
    ensures
        moved == shifted(position as int, by as int),
{
    if by >= 0 {
        if position > i64::MAX - by {
            i64::MAX
        } else {
            position + by
        }
    } else {
        if position < i64::MIN - by {
            i64::MIN
        } else {
            position + by
        }
    }
}

/// Whether every heading of the list is well formed.
fn all_valid(headings: &Vec<Heading>) -> (valid: bool)
    ensures
        valid == forall|i: int| 0 <= i < headings@.len() ==> (#[trigger] headings@[i]).wf(),
{
    let mut at: usize = 0;
    while at < headings.len()
        invariant
            at <= headings.len(),
            forall|i: int| 0 <= i < at ==> (#[trigger] headings@[i]).wf(),
        decreases headings.len() - at,
    {
        let heading = headings[at];
        if heading.cos_ppm < -COMPONENT_SCALE || heading.cos_ppm > COMPONENT_SCALE
            || heading.sin_ppm < -COMPONENT_SCALE || heading.sin_ppm > COMPONENT_SCALE {
            assert(!headings@[at as int].wf());
            return false;
        }
        at += 1;
    }
    true
}

/// A game session.
pub struct Game {
    entities: Vec<Entity>,
    shot_counter: u32,
    active_shots: usize,
    ammo: u32,
    bricks_left: usize,
    outcome: Outcome,
    reload: Timer,
    tilt: Timer,
}

impl View for Game {
    type V = GameView;

    closed spec fn view(&self) -> GameView {
        GameView {
            entities: entity_views(self.entities@),
            shot_counter: self.shot_counter as nat,
            active_shots: self.active_shots as nat,
            ammo: self.ammo as nat,
            bricks_left: self.bricks_left as nat,
            outcome: self.outcome,
            reload: self.reload,
            tilt: self.tilt,
        }
    }
}

impl Game {
    /// A running session with an empty registry, the given ammunition, and
    /// a reload timer and a tilt timer of the given durations that have
    /// just been started.
    pub fn new(ammo: u32, reload_ms: u64, tilt_ms: u64) -> (game: Game)
        ensures
            game@.wf(),
            game@ == (GameView {
                entities: Seq::empty(),
                shot_counter: 0,
                active_shots: 0,
                ammo: ammo as nat,
                bricks_left: 0,
                outcome: Outcome::Running,
                reload: Timer { duration_ms: reload_ms, elapsed_ms: 0 },
                tilt: Timer { duration_ms: tilt_ms, elapsed_ms: 0 },
            }),
    {
        let game = Game {
            entities: Vec::new(),
            shot_counter: 0,
            active_shots: 0,
            ammo,
            bricks_left: 0,
            outcome: Outcome::Running,
            reload: Timer::new(reload_ms),
            tilt: Timer::new(tilt_ms),
        };
        assert(game@.entities =~= Seq::empty());
        game
    }

    /// Whether the game goes on.
    pub fn is_running(&self) -> (running: bool)
        ensures
            running == self@.running(),
    {
        match self.outcome {
            Outcome::Running => true,
            _ => false,
        }
    }

    /// Where the session stands.
    pub fn outcome(&self) -> (outcome: Outcome)
        ensures
            outcome == self@.outcome,
    {
        self.outcome
    }

    /// The shots that may still be fired.
    pub fn ammo(&self) -> (ammo: u32)
        ensures
            ammo == self@.ammo,
    {
        self.ammo
    }

    /// The number of live projectiles.
    pub fn active_shots(&self) -> (count: usize)
        ensures
            count == self@.active_shots,
    {
        self.active_shots
    }

    /// The number of live bricks.
    pub fn bricks_left(&self) -> (count: usize)
        ensures
            count == self@.bricks_left,
    {
        self.bricks_left
    }

    /// The sequence number of the last projectile fired.
    pub fn shot_counter(&self) -> (sequence: u32)
        ensures
            sequence == self@.shot_counter,
    {
        self.shot_counter
    }

    /// The number of live entities.
    pub fn len(&self) -> (count: usize)
        ensures
            count == self@.entities.len(),
    {
        self.entities.len()
    }

    /// The entity at a place of the registry, if the place exists.
    pub fn entity(&self, at: usize) -> (entity: Option<&Entity>)
        ensures
            entity.is_some() == (at < self@.entities.len()),
            entity matches Some(e) ==> e@ == self@.entities[at as int],
    {
        if at < self.entities.len() {
            Some(&self.entities[at])
        } else {
            None
        }
    }

    /// The place of the entity that carries the label, if one does.
    pub fn find(&self, label: &str) -> (found: Option<usize>)
        requires
            self@.wf(),
        ensures
            found.is_some() == holds(self@.entities, label@),
            found matches Some(at) ==> at < self@.entities.len() && at == slot(
                self@.entities,
                label@,
            ) && self@.entities[at as int].label == label@,
    {
        let mut at: usize = 0;
        while at < self.entities.len()
            invariant
                at <= self.entities.len(),
                self@.wf(),
                forall|i: int| 0 <= i < at ==> (#[trigger] self@.entities[i]).label != label@,
            decreases self.entities.len() - at,
        {
            if same_text(self.entities[at].label.as_str(), label) {
                proof {
                    lemma_slot_is_unique(self@.entities, at as int);
                }
                return Some(at);
            }
            at += 1;
        }
        None
    }

    /// Adds an entity under a label that no live entity carries; the kind
    /// comes from the label and the rotation is normalised. Refused, with
    /// nothing changed, when the label is taken or the session has ended.
    pub fn insert(&mut self, label: String, x: i64, y: i64, rotation: i64) -> (added: bool)
        requires
            old(self)@.wf(),
        ensures
            final(self)@.wf(),
            added == old(self)@.admits(label@),
            added ==> final(self)@ == old(self)@.with_entity(
                label@,
                x as int,
                y as int,
                rotation as int,
            ),
            !added ==> final(self)@ == old(self)@,
            old(self)@.settled() ==> final(self)@.settled(),
    {
        if !self.is_running() {
            return false;
        }
        if self.find(label.as_str()).is_some() {
            return false;
        }
        let ghost before = self@;
        let ghost text = label@;
        let kind = classify(label.as_str());
        let entity = Entity { label, kind, x, y, rotation: normalize(rotation), doomed: false };
        self.entities.push(entity);
        proof {
            let after = before.with_entity(text, x as int, y as int, rotation as int);
            assert(entity_views(self.entities@) =~= after.entities);
            lemma_with_entity(before, text, x as int, y as int, rotation as int);
            lemma_tally_bound(after.entities, Kind::Projectile);
            lemma_tally_bound(after.entities, Kind::Brick);
            assert(after.entities.len() == self.entities.len());
        }
        match kind {
            Kind::Projectile => {
                self.active_shots = self.active_shots + 1;
            },
            Kind::Brick => {
                self.bricks_left = self.bricks_left + 1;
            },
            _ => {},
        }
        true
    }

    /// Advances both timers, unless the session has ended.
    pub fn tick(&mut self, dt_ms: u64)
        requires
            old(self)@.wf(),
        ensures
            final(self)@.wf(),
            final(self)@ == old(self)@.ticked(dt_ms),
            final(self)@.entities == old(self)@.entities,
            final(self)@.ammo == old(self)@.ammo,
            final(self)@.active_shots == old(self)@.active_shots,
            final(self)@.bricks_left == old(self)@.bricks_left,
    {
        if self.is_running() {
            self.reload.tick(dt_ms);
            self.tilt.tick(dt_ms);
        }
    }

    /// Whether a fire request would be granted now.
    pub fn ready(&self) -> (ready: bool)
        requires
            self@.wf(),
        ensures
            ready == self@.can_fire(),
    {
        if !self.is_running() || self.ammo == 0 || !self.reload.finished() || self.shot_counter
            == u32::MAX {
            return false;
        }
        let label = shot_label(self.shot_counter + 1);
        self.find(label.as_str()).is_none()
    }

    /// A fire request with a given launch angle. When granted, a projectile
    /// with the next sequence number appears at the given position, one
    /// unit of ammunition is spent and the reload timer starts over; the
    /// sequence number is returned. When refused, nothing changes.
    pub fn fire(&mut self, x: i64, y: i64, heading: i64) -> (fired: Option<u32>)
        requires
            old(self)@.wf(),
        ensures
            final(self)@.wf(),
            fired.is_some() == old(self)@.can_fire(),
            fired matches Some(sequence) ==> sequence == old(self)@.shot_counter + 1
                && final(self)@ == old(self)@.fired(x as int, y as int, heading as int),
            fired is None ==> final(self)@ == old(self)@,
            old(self)@.ammo == 0 || !old(self)@.reload.is_finished() ==> fired is None,
            fired is Some ==> final(self)@.ammo + 1 == old(self)@.ammo
                && final(self)@.active_shots == old(self)@.active_shots + 1,
            final(self)@.bricks_left == old(self)@.bricks_left,
            old(self)@.settled() ==> final(self)@.settled(),
    {
        if !self.ready() {
            return None;
        }
        let ghost before = self@;
        let sequence: u32 = self.shot_counter + 1;
        let label = shot_label(sequence);
        let added = self.insert(label, x, y, heading);
        assert(added);
        self.shot_counter = sequence;
        self.ammo = self.ammo - 1;
        self.reload.reset();
        proof {
            lemma_fired(before, x as int, y as int, heading as int);
        }
        Some(sequence)
    }

    /// A fire request with a launch angle drawn at random between
    /// `LAUNCH_MIN` and `LAUNCH_MAX`.
    pub fn launch(&mut self, x: i64, y: i64) -> (fired: Option<u32>)
        requires
            old(self)@.wf(),
        ensures
            final(self)@.wf(),
            fired.is_some() == old(self)@.can_fire(),
            fired matches Some(sequence) ==> sequence == old(self)@.shot_counter + 1 && exists|
                heading: int,
            |
                LAUNCH_MIN <= heading < LAUNCH_MAX && final(self)@ == #[trigger] old(self)@.fired(
                    x as int,
                    y as int,
                    heading,
                ),
            fired is None ==> final(self)@ == old(self)@,
            old(self)@.ammo == 0 || !old(self)@.reload.is_finished() ==> fired is None,
            fired is Some ==> final(self)@.ammo + 1 == old(self)@.ammo
                && final(self)@.active_shots == old(self)@.active_shots + 1,
            final(self)@.bricks_left == old(self)@.bricks_left,
            old(self)@.settled() ==> final(self)@.settled(),
    {
        if !self.ready() {
            return None;
        }
        let heading = random_between(LAUNCH_MIN, LAUNCH_MAX);
        self.fire(x, y, heading)
    }

    /// Lets the player act on the input, firing at the given launch angle
    /// where it fires: see [`GameView::steered`]. Returns the sequence
    /// number of the projectile fired, if one was. A running session
    /// without a player is an error and changes nothing.
    pub fn steer_with(&mut self, input: Input, heading: i64) -> (fired: Result<
        Option<u32>,
        FrameError,
    >)
        requires
            old(self)@.wf(),
        ensures
            final(self)@.wf(),
            final(self)@ == old(self)@.steered(input, heading as int),
            fired.is_err() == (old(self)@.running() && !old(self)@.steerable()),
            fired matches Ok(shot) ==> shot == if old(self)@.steerable() && old(self)@.chosen(input)
                == Move::Fire {
                Some((old(self)@.shot_counter + 1) as u32)
            } else {
                None
            },
            final(self)@.ammo <= old(self)@.ammo,
            final(self)@.bricks_left == old(self)@.bricks_left,
            old(self)@.settled() ==> final(self)@.settled(),
    {
        if !self.is_running() {
            return Ok(None);
        }
        let at = match self.find("player") {
            Some(at) => at,
            None => {
                return Err(FrameError::MissingEntity);
            },
        };
        let ghost before = self@;
        let ready = input.fire && self.ready();
        let calm = self.tilt.finished();
        proof {
            lemma_steered(before, input, heading as int);
            assert(before.entities[at as int].wf());
        }
        if calm {
            self.entities[at].rotation = 0;
        }
        let x = self.entities[at].x;
        let y = self.entities[at].y;
        let ghost player = self@.entities[at as int];
        let ghost settled = self@;
        proof {
            assert(self@.entities =~= before.entities.update(at as int, player));
            assert(settled == before.with_player(player));
            lemma_adjusted(before, at as int, player);
        }
        if ready {
            let shot = self.fire(x, shift(y, MUZZLE_OFFSET), heading);
            return Ok(shot);
        }
        if input.left {
            self.entities[at].x = shift(x, -PLAYER_STEP);
        } else if input.right {
            self.entities[at].x = shift(x, PLAYER_STEP);
        } else if input.tilt_left && calm {
            self.entities[at].rotation = TILT_LEFT;
            self.tilt.reset();
        } else if input.tilt_right && calm {
            self.entities[at].rotation = TILT_RIGHT;
            self.tilt.reset();
        }
        proof {
            assert(self@.entities =~= before.steered(input, heading as int).entities);
        }
        Ok(None)
    }

    /// Lets the player act on the input; where it fires, the launch angle
    /// is drawn at random between `LAUNCH_MIN` and `LAUNCH_MAX`.
    pub fn steer(&mut self, input: Input) -> (fired: Result<Option<u32>, FrameError>)
        requires
            old(self)@.wf(),
        ensures
            final(self)@.wf(),
            exists|heading: int|
                LAUNCH_MIN <= heading < LAUNCH_MAX && final(self)@ == #[trigger] old(
                    self,
                )@.steered(input, heading),
            fired.is_err() == (old(self)@.running() && !old(self)@.steerable()),
            fired matches Ok(shot) ==> shot == if old(self)@.steerable() && old(self)@.chosen(input)
                == Move::Fire {
                Some((old(self)@.shot_counter + 1) as u32)
            } else {
                None
            },
            final(self)@.ammo <= old(self)@.ammo,
            final(self)@.bricks_left == old(self)@.bricks_left,
            old(self)@.settled() ==> final(self)@.settled(),
    {
        let heading = if input.fire && self.ready() {
            random_between(LAUNCH_MIN, LAUNCH_MAX)
        } else {
            LAUNCH_MIN
        };
        self.steer_with(input, heading)
    }

    /// Moves every projectile for `dt_ms` milliseconds along the heading at
    /// its own place in `headings`, and marks for removal each projectile
    /// that is then below the lower bound. Refused, with nothing changed,
    /// unless there is one well-formed heading for each live entity.
    pub fn advance(&mut self, dt_ms: u32, headings: &Vec<Heading>) -> (moved: bool)
        requires
            old(self)@.wf(),
        ensures
            final(self)@.wf(),
            moved == (headings@.len() == old(self)@.entities.len() && forall|i: int|
                0 <= i < headings@.len() ==> (#[trigger] headings@[i]).wf()),
            moved ==> final(self)@ == old(self)@.advanced(dt_ms as int, headings@),
            !moved ==> final(self)@ == old(self)@,
            final(self)@.ammo == old(self)@.ammo,
            final(self)@.active_shots == old(self)@.active_shots,
            final(self)@.bricks_left == old(self)@.bricks_left,
    {
        proof {
            lemma_advanced(self@, dt_ms as int, headings@);
        }
        if headings.len() != self.entities.len() || !all_valid(headings) {
            return false;
        }
        if !self.is_running() {
            return true;
        }
        let ghost before = self@;
        let count = self.entities.len();
        let mut at: usize = 0;
        while at < count
            invariant
                at <= count,
                count == self.entities.len(),
                count == headings.len(),
                count == before.entities.len(),
                forall|i: int| 0 <= i < headings@.len() ==> (#[trigger] headings@[i]).wf(),
                self@ == (GameView { entities: self@.entities, ..before }),
                forall|i: int|
                    0 <= i < at ==> #[trigger] self@.entities[i] == travelled(
                        before.entities[i],
                        headings@[i],
                        dt_ms as int,
                    ),
                forall|i: int| at <= i < count ==> #[trigger] self@.entities[i] == before.entities[i],
            decreases count - at,
        {
            assert(self@.entities[at as int] == before.entities[at as int]);
            let ghost registry = self@.entities;
            if let Kind::Projectile = self.entities[at].kind {
                let heading = headings[at];
                assert(headings@[at as int].wf());
                let x = shift(self.entities[at].x, travel(dt_ms, heading.cos_ppm));
                let y = shift(self.entities[at].y, travel(dt_ms, heading.sin_ppm));
                self.entities[at].x = x;
                self.entities[at].y = y;
                if y < LOWER_BOUND {
                    self.entities[at].doomed = true;
                }
            }
            assert forall|i: int| 0 <= i < count && i != at implies #[trigger] self@.entities[i]
                == registry[i] by {}
            assert(self@.entities[at as int] == travelled(
                before.entities[at as int],
                headings@[at as int],
                dt_ms as int,
            ));
            at += 1;
        }
        proof {
            assert(self@.entities =~= before.advanced(dt_ms as int, headings@).entities);
        }
        true
    }

    /// Handles one collision event. An impact (the pair is newly touching
    /// and a projectile is part of it) turns each projectile of the pair by
    /// the other member's rotation, marks a struck brick for removal and
    /// grants ammunition for a bonus marker; the result says whether the
    /// event was an impact. An impact that names an entity the registry
    /// lacks is an error and changes nothing.
    pub fn collide(&mut self, event: &CollisionEvent) -> (hit: Result<bool, FrameError>)
        requires
            old(self)@.wf(),
        ensures
            final(self)@.wf(),
            final(self)@ == old(self)@.collided(event@),
            hit.is_err() == old(self)@.misses(event@),
            hit matches Ok(struck) ==> struck == old(self)@.strikes(event@),
            final(self)@.ammo >= old(self)@.ammo,
            final(self)@.active_shots == old(self)@.active_shots,
            final(self)@.bricks_left == old(self)@.bricks_left,
    {
        proof {
            lemma_collided(self@, event@);
        }
        if !self.is_running() {
            return Ok(false);
        }
        if let Phase::End = event.phase {
            return Ok(false);
        }
        let first_shot = is_shot(event.first.as_str());
        let second_shot = is_shot(event.second.as_str());
        if !first_shot && !second_shot {
            return Ok(false);
        }
        let a = match self.find(event.first.as_str()) {
            Some(a) => a,
            None => {
                return Err(FrameError::MissingEntity);
            },
        };
        let b = match self.find(event.second.as_str()) {
            Some(b) => b,
            None => {
                return Err(FrameError::MissingEntity);
            },
        };
        let ghost before = self@;
        let first_rotation = self.entities[a].rotation;
        let second_rotation = self.entities[b].rotation;
        let first_brick = self.entities[a].kind == Kind::Brick;
        let second_brick = self.entities[b].kind == Kind::Brick;
        assert(before.entities[a as int].wf());
        assert(before.entities[b as int].wf());
        if is_bonus(event.first.as_str()) || is_bonus(event.second.as_str()) {
            if self.ammo < u32::MAX {
                self.ammo = self.ammo + 1;
            }
        }
        if first_shot {
            self.entities[a].rotation = bounce(first_rotation, second_rotation);
        }
        if second_shot && first_brick {
            self.entities[a].doomed = true;
        }
        if second_shot {
            self.entities[b].rotation = bounce(second_rotation, first_rotation);
        }
        if first_shot && second_brick {
            self.entities[b].doomed = true;
        }
        proof {
            assert(self@.entities =~= before.collided(event@).entities);
        }
        Ok(true)
    }

    /// Handles a frame's batch of collision events in the order given and
    /// returns the number of impacts among them. The first impact that
    /// names an entity the registry lacks ends the batch with an error; the
    /// events before it have taken effect.
    pub fn dispatch(&mut self, events: &Vec<CollisionEvent>) -> (impacts: Result<usize, FrameError>)
        requires
            old(self)@.wf(),
        ensures
            final(self)@.wf(),
            final(self)@ == old(self)@.dispatched(event_views(events@)),
            impacts.is_err() == old(self)@.stumbles(event_views(events@)),
            impacts matches Ok(count) ==> count == old(self)@.impacts(event_views(events@)),
            final(self)@.bricks_left == old(self)@.bricks_left,
            final(self)@.active_shots == old(self)@.active_shots,
            final(self)@.ammo >= old(self)@.ammo,
    {
        let ghost before = self@;
        let ghost batch = event_views(events@);
        let mut count: usize = 0;
        let mut at: usize = 0;
        proof {
            lemma_dispatched(before, batch);
        }
        while at < events.len()
            invariant
                at <= events.len(),
                before.wf(),
                before == old(self)@,
                batch == event_views(events@),
                self@.wf(),
                self@ == before.dispatched(batch.subrange(0, at as int)),
                !before.stumbles(batch.subrange(0, at as int)),
                count == before.impacts(batch.subrange(0, at as int)),
                count <= at,
            decreases events.len() - at,
        {
            proof {
                let next = batch.subrange(0, at + 1);
                assert(next.drop_last() =~= batch.subrange(0, at as int));
                assert(next.last() == events@[at as int]@);
                lemma_dispatched(before, next);
            }
            match self.collide(&events[at]) {
                Ok(struck) => {
                    if struck {
                        count = count + 1;
                    }
                },
                Err(error) => {
                    proof {
                        let next = batch.subrange(0, at + 1);
                        assert(before.dispatched(next.drop_last()).misses(next.last()));
                        assert(before.stumbles(next));
                        assert(self@ == before.dispatched(next));
                        lemma_stumble_ends_batch(before, batch, at + 1);
                    }
                    return Err(error);
                },
            }
            at += 1;
        }
        proof {
            assert(batch.subrange(0, at as int) =~= batch);
        }
        Ok(count)
    }

    /// The labels of the entities that await removal, in registry order.
    pub fn pending_labels(&self) -> (labels: Vec<String>)
        ensures
            texts(labels@) == self@.pending(),
    {
        let mut labels: Vec<String> = Vec::new();
        let mut at: usize = 0;
        assert(texts(labels@) =~= condemned(self@.entities.subrange(0, 0)));
        while at < self.entities.len()
            invariant
                at <= self.entities.len(),
                texts(labels@) == condemned(self@.entities.subrange(0, at as int)),
            decreases self.entities.len() - at,
        {
            proof {
                let next = self@.entities.subrange(0, at + 1);
                assert(next.drop_last() =~= self@.entities.subrange(0, at as int));
                assert(next.last() == self.entities@[at as int]@);
            }
            if self.entities[at].doomed {
                let ghost so_far = texts(labels@);
                labels.push(self.entities[at].label.clone());
                assert(texts(labels@) =~= so_far.push(self.entities@[at as int].label@));
            }
            at += 1;
        }
        assert(self@.entities.subrange(0, at as int) =~= self@.entities);
        labels
    }

    /// Ends a frame: removes the marked entities, brings the counters in
    /// line with what is left and decides the outcome, which is returned. A
    /// session that has ended stays as it is.
    pub fn finish_frame(&mut self) -> (outcome: Outcome)
        requires
            old(self)@.wf(),
        ensures
            final(self)@.wf(),
            final(self)@ == old(self)@.concluded(),
            outcome == final(self)@.outcome,
            final(self)@.settled(),
            final(self)@.pending().len() == 0,
            final(self)@.bricks_left <= old(self)@.bricks_left,
            final(self)@.active_shots <= old(self)@.active_shots,
    {
        proof {
            lemma_concluded(self@);
        }
        if !self.is_running() {
            return self.outcome;
        }
        let ghost before = self@;
        let mut kept: Vec<Entity> = Vec::new();
        let mut shots: usize = 0;
        let mut bricks: usize = 0;
        let count = self.entities.len();
        let mut at: usize = 0;
        assert(entity_views(kept@) =~= survivors(before.entities.subrange(0, 0)));
        while at < count
            invariant
                at <= count,
                count == self.entities.len(),
                self@ == before,
                entity_views(kept@) == survivors(before.entities.subrange(0, at as int)),
                shots == tally(entity_views(kept@), Kind::Projectile),
                bricks == tally(entity_views(kept@), Kind::Brick),
            decreases count - at,
        {
            proof {
                let next = before.entities.subrange(0, at + 1);
                assert(next.drop_last() =~= before.entities.subrange(0, at as int));
                assert(next.last() == self.entities@[at as int]@);
            }
            if !self.entities[at].doomed {
                let ghost so_far = entity_views(kept@);
                let entity = Entity {
                    label: self.entities[at].label.clone(),
                    kind: self.entities[at].kind,
                    x: self.entities[at].x,
                    y: self.entities[at].y,
                    rotation: self.entities[at].rotation,
                    doomed: false,
                };
                let kind = entity.kind;
                kept.push(entity);
                proof {
                    assert(entity_views(kept@) =~= so_far.push(self.entities@[at as int]@));
                    lemma_tally_push(so_far, self.entities@[at as int]@, Kind::Projectile);
                    lemma_tally_push(so_far, self.entities@[at as int]@, Kind::Brick);
                    lemma_tally_bound(entity_views(kept@), Kind::Projectile);
                    lemma_tally_bound(entity_views(kept@), Kind::Brick);
                    assert(entity_views(kept@).len() == kept.len());
                }
                match kind {
                    Kind::Projectile => {
                        shots = shots + 1;
                    },
                    Kind::Brick => {
                        bricks = bricks + 1;
                    },
                    _ => {},
                }
            }
            at += 1;
        }
        assert(before.entities.subrange(0, at as int) =~= before.entities);
        self.entities = kept;
        self.active_shots = shots;
        self.bricks_left = bricks;
        self.outcome = if bricks == 0 {
            Outcome::Won
        } else if shots == 0 && self.ammo == 0 {
            Outcome::Lost
        } else {
            Outcome::Running
        };
        self.outcome
    }
}

} // verus!
