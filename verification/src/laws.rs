//! What holds of every session: the counters count the registry, ammunition
//! and bricks only go one way during play, and a frame leaves nothing
//! marked behind.

use crate::label::{is_shot_label, kind_of, shot_label_of, Kind};
use crate::model::{
    condemned, distinct, holds, shifted, slot, survivors, tally, EntityView, EventView, GameView,
    Heading, Input, Move, Outcome, MUZZLE_OFFSET, PLAYER_STEP, TILT_LEFT, TILT_RIGHT,
};
use vstd::prelude::*;

verus! {

/// Adding an entity raises the tally of its own kind by one and no other.
pub proof fn lemma_tally_push(entities: Seq<EntityView>, entity: EntityView, kind: Kind)
    ensures
        tally(entities.push(entity), kind) == tally(entities, kind) + if entity.kind == kind {
            1nat
        } else {
            0nat
        },
{
    assert(entities.push(entity).drop_last() =~= entities);
}

/// No tally exceeds the number of entities.
pub proof fn lemma_tally_bound(entities: Seq<EntityView>, kind: Kind)
    ensures
        tally(entities, kind) <= entities.len(),
    decreases entities.len(),
{
    if entities.len() > 0 {
        lemma_tally_bound(entities.drop_last(), kind);
    }
}

/// A tally depends on the kinds of the entities alone.
pub proof fn lemma_tally_same_kinds(before: Seq<EntityView>, after: Seq<EntityView>, kind: Kind)
    requires
        before.len() == after.len(),
        forall|i: int| 0 <= i < before.len() ==> (#[trigger] before[i]).kind == after[i].kind,
    ensures
        tally(before, kind) == tally(after, kind),
    decreases before.len(),
{
    if before.len() > 0 {
        lemma_tally_same_kinds(before.drop_last(), after.drop_last(), kind);
    }
}

/// A tally is the number of entities of that kind.
pub proof fn lemma_tally_counts(entities: Seq<EntityView>, kind: Kind)
    ensures
        tally(entities, kind) == entities.filter(|e: EntityView| e.kind == kind).len(),
    decreases entities.len(),
{
    reveal(Seq::filter);
    if entities.len() > 0 {
        lemma_tally_counts(entities.drop_last(), kind);
    }
}

/// A tally is zero exactly when no entity is of that kind.
pub proof fn lemma_tally_zero(entities: Seq<EntityView>, kind: Kind)
    ensures
        tally(entities, kind) == 0 <==> forall|i: int|
            0 <= i < entities.len() ==> (#[trigger] entities[i]).kind != kind,
    decreases entities.len(),
{
    if entities.len() > 0 {
        let rest = entities.drop_last();
        lemma_tally_zero(rest, kind);
        if tally(entities, kind) == 0 {
            assert forall|i: int| 0 <= i < entities.len() implies (#[trigger] entities[i]).kind
                != kind by {
                if i < rest.len() {
                    assert(rest[i] == entities[i]);
                }
            }
        } else if entities.last().kind != kind {
            let i = choose|i: int| 0 <= i < rest.len() && (#[trigger] rest[i]).kind == kind;
            assert(entities[i] == rest[i]);
        }
    }
}

/// What is left after removal: each survivor is an unmarked entity of the
/// registry, labels stay unique, and no tally grows.
pub proof fn lemma_survivors(entities: Seq<EntityView>)
    ensures
        survivors(entities).len() <= entities.len(),
        forall|k: int|
            0 <= k < survivors(entities).len() ==> !(#[trigger] survivors(entities)[k]).doomed
                && exists|i: int|
                0 <= i < entities.len() && #[trigger] entities[i] == survivors(entities)[k],
        distinct(entities) ==> distinct(survivors(entities)),
        forall|kind: Kind| #[trigger] tally(survivors(entities), kind) <= tally(entities, kind),
    decreases entities.len(),
{
    if entities.len() > 0 {
        let rest = entities.drop_last();
        let last = entities.last();
        let kept = survivors(rest);
        lemma_survivors(rest);
        assert forall|k: int| 0 <= k < survivors(entities).len() implies !(
        #[trigger] survivors(entities)[k]).doomed && exists|i: int|
            0 <= i < entities.len() && #[trigger] entities[i] == survivors(entities)[k] by {
            if k < kept.len() {
                let i = choose|i: int| 0 <= i < rest.len() && #[trigger] rest[i] == kept[k];
                assert(entities[i] == survivors(entities)[k]);
            } else {
                assert(entities[entities.len() - 1] == survivors(entities)[k]);
            }
        }
        if distinct(entities) {
            assert(distinct(rest)) by {
                assert forall|i: int, j: int| 0 <= i < j < rest.len() implies #[trigger] rest[i].label
                    != #[trigger] rest[j].label by {
                    assert(entities[i].label != entities[j].label);
                }
            }
            if !last.doomed {
                assert forall|i: int, j: int|
                    0 <= i < j < survivors(entities).len() implies #[trigger] survivors(
                    entities,
                )[i].label != #[trigger] survivors(entities)[j].label by {
                    if j < kept.len() {
                        assert(kept[i].label != kept[j].label);
                    } else {
                        let at = choose|at: int| 0 <= at < rest.len() && #[trigger] rest[at] == kept[i];
                        assert(entities[at].label != entities[entities.len() - 1].label);
                    }
                }
            }
        }
        assert forall|kind: Kind| #[trigger]
            tally(survivors(entities), kind) <= tally(entities, kind) by {
            assert(tally(kept, kind) <= tally(rest, kind));
            if !last.doomed {
                lemma_tally_push(kept, last, kind);
            }
        }
    }
}

/// A registry without marks loses nothing to removal and awaits none.
pub proof fn lemma_settled_keeps_all(entities: Seq<EntityView>)
    requires
        forall|i: int| 0 <= i < entities.len() ==> !(#[trigger] entities[i]).doomed,
    ensures
        survivors(entities) == entities,
        condemned(entities).len() == 0,
    decreases entities.len(),
{
    if entities.len() > 0 {
        let rest = entities.drop_last();
        assert forall|i: int| 0 <= i < rest.len() implies !(#[trigger] rest[i]).doomed by {
            assert(rest[i] == entities[i]);
        }
        lemma_settled_keeps_all(rest);
        assert(rest.push(entities.last()) =~= entities);
    } else {
        assert(survivors(entities) =~= entities);
    }
}

/// Every label that awaits removal is the label of a live entity.
pub proof fn lemma_condemned_are_live(entities: Seq<EntityView>)
    ensures
        forall|k: int|
            0 <= k < condemned(entities).len() ==> holds(
                entities,
                #[trigger] condemned(entities)[k],
            ),
    decreases entities.len(),
{
    if entities.len() > 0 {
        let rest = entities.drop_last();
        lemma_condemned_are_live(rest);
        assert forall|k: int| 0 <= k < condemned(entities).len() implies holds(
            entities,
            #[trigger] condemned(entities)[k],
        ) by {
            if k < condemned(rest).len() {
                assert(holds(rest, condemned(rest)[k]));
                let i = choose|i: int|
                    0 <= i < rest.len() && #[trigger] rest[i].label == condemned(rest)[k];
                assert(entities[i].label == condemned(entities)[k]);
            } else {
                assert(entities[entities.len() - 1].label == condemned(entities)[k]);
            }
        }
    }
}

/// With unique labels, the place of a label is the one place that carries
/// it.
pub proof fn lemma_slot_is_unique(entities: Seq<EntityView>, at: int)
    requires
        distinct(entities),
        0 <= at < entities.len(),
    ensures
        holds(entities, entities[at].label),
        slot(entities, entities[at].label) == at,
{
    let label = entities[at].label;
    let found = slot(entities, label);
    if found < at {
        assert(entities[found].label != entities[at].label);
    } else if at < found {
        assert(entities[at].label != entities[found].label);
    }
}

/// The active-shot counter of a well-formed session is the number of live
/// entities whose label starts as a projectile's does, and the brick
/// counter is the number of live bricks.
pub proof fn lemma_counters_count_registry(game: GameView)
    requires
        game.wf(),
    ensures
        game.active_shots == game.entities.filter(
            |e: EntityView| is_shot_label(e.label),
        ).len(),
        game.bricks_left == game.entities.filter(|e: EntityView| e.kind == Kind::Brick).len(),
{
    lemma_tally_counts(game.entities, Kind::Projectile);
    lemma_tally_counts(game.entities, Kind::Brick);
    let by_kind = |e: EntityView| e.kind == Kind::Projectile;
    let by_label = |e: EntityView| is_shot_label(e.label);
    lemma_filter_agrees(game.entities, by_kind, by_label);
}

/// Two tests that agree on every entity of a registry select the same
/// entities from it.
pub proof fn lemma_filter_agrees(
    entities: Seq<EntityView>,
    left: spec_fn(EntityView) -> bool,
    right: spec_fn(EntityView) -> bool,
)
    requires
        forall|i: int| 0 <= i < entities.len() ==> left(#[trigger] entities[i]) == right(entities[i]),
    ensures
        entities.filter(left) == entities.filter(right),
    decreases entities.len(),
{
    reveal(Seq::filter);
    if entities.len() > 0 {
        let rest = entities.drop_last();
        assert forall|i: int| 0 <= i < rest.len() implies left(#[trigger] rest[i]) == right(
            rest[i],
        ) by {
            assert(rest[i] == entities[i]);
        }
        lemma_filter_agrees(rest, left, right);
        assert(left(entities[entities.len() - 1]) == right(entities[entities.len() - 1]));
    }
}

/// The brick counter of a well-formed session is zero exactly when the
/// registry holds no brick.
pub proof fn lemma_no_bricks_left(game: GameView)
    requires
        game.wf(),
    ensures
        game.bricks_left == 0 <==> forall|i: int|
            0 <= i < game.entities.len() ==> kind_of((#[trigger] game.entities[i]).label)
                != Kind::Brick,
{
    lemma_tally_zero(game.entities, Kind::Brick);
    if game.bricks_left == 0 {
        assert forall|i: int| 0 <= i < game.entities.len() implies kind_of(
            (#[trigger] game.entities[i]).label,
        ) != Kind::Brick by {
            assert(game.entities[i].wf());
        }
    } else {
        let i = choose|i: int|
            0 <= i < game.entities.len() && (#[trigger] game.entities[i]).kind == Kind::Brick;
        assert(game.entities[i].wf());
    }
}

/// Adding an entity under a label that is not taken keeps the session well
/// formed and marks nothing.
pub proof fn lemma_with_entity(game: GameView, label: Seq<char>, x: int, y: int, rotation: int)
    requires
        game.wf(),
        game.admits(label),
        i64::MIN <= x <= i64::MAX,
        i64::MIN <= y <= i64::MAX,
    ensures
        game.with_entity(label, x, y, rotation).wf(),
        game.settled() ==> game.with_entity(label, x, y, rotation).settled(),
        game.with_entity(label, x, y, rotation).pending() == game.pending(),
{
    let after = game.with_entity(label, x, y, rotation);
    let added = after.entities.last();
    lemma_tally_push(game.entities, added, Kind::Projectile);
    lemma_tally_push(game.entities, added, Kind::Brick);
    assert(after.entities.drop_last() =~= game.entities);
    assert forall|i: int, j: int| 0 <= i < j < after.entities.len() implies #[trigger] after.entities[i]
        .label != #[trigger] after.entities[j].label by {
        if j < game.entities.len() {
            assert(game.entities[i].label != game.entities[j].label);
        } else {
            assert(game.entities[i].label != label);
        }
    }
    assert forall|i: int| 0 <= i < after.entities.len() implies (#[trigger] after.entities[i]).wf(
    ) by {
        if i < game.entities.len() {
            assert(game.entities[i].wf());
        }
    }
    if game.settled() {
        assert forall|i: int| 0 <= i < after.entities.len() implies !(
        #[trigger] after.entities[i]).doomed by {
            if i < game.entities.len() {
                assert(!game.entities[i].doomed);
            }
        }
    }
}

/// A granted fire request spends exactly one unit of ammunition, adds
/// exactly one projectile under the next sequence number, touches no brick
/// and marks nothing.
pub proof fn lemma_fired(game: GameView, x: int, y: int, heading: int)
    requires
        game.wf(),
        game.can_fire(),
        i64::MIN <= x <= i64::MAX,
        i64::MIN <= y <= i64::MAX,
    ensures
        game.fired(x, y, heading).wf(),
        game.fired(x, y, heading).ammo + 1 == game.ammo,
        game.fired(x, y, heading).active_shots == game.active_shots + 1,
        game.fired(x, y, heading).shot_counter == game.shot_counter + 1,
        game.fired(x, y, heading).bricks_left == game.bricks_left,
        game.fired(x, y, heading).entities.len() == game.entities.len() + 1,
        game.fired(x, y, heading).entities.last().label == shot_label_of(game.shot_counter + 1),
        game.settled() ==> game.fired(x, y, heading).settled(),
{
    let label = shot_label_of(game.shot_counter + 1);
    lemma_with_entity(game, label, x, y, heading);
    crate::label::lemma_shot_labels_are_shots(game.shot_counter + 1);
    let added = game.with_entity(label, x, y, heading);
    assert(game.fired(x, y, heading).entities == added.entities);
    if game.settled() {
        assert(added.settled());
    }
}

/// Travel keeps the session well formed and changes no counter.
pub proof fn lemma_advanced(game: GameView, dt_ms: int, headings: Seq<Heading>)
    requires
        game.wf(),
    ensures
        game.advanced(dt_ms, headings).wf(),
        game.advanced(dt_ms, headings).entities.len() == game.entities.len(),
        game.advanced(dt_ms, headings).ammo == game.ammo,
        game.advanced(dt_ms, headings).active_shots == game.active_shots,
        game.advanced(dt_ms, headings).bricks_left == game.bricks_left,
        game.advanced(dt_ms, headings).shot_counter == game.shot_counter,
        game.advanced(dt_ms, headings).outcome == game.outcome,
{
    let after = game.advanced(dt_ms, headings);
    if game.running() {
        lemma_tally_same_kinds(game.entities, after.entities, Kind::Projectile);
        lemma_tally_same_kinds(game.entities, after.entities, Kind::Brick);
        assert forall|i: int, j: int|
            0 <= i < j < after.entities.len() implies #[trigger] after.entities[i].label
            != #[trigger] after.entities[j].label by {
            assert(game.entities[i].label != game.entities[j].label);
        }
        assert forall|i: int| 0 <= i < after.entities.len() implies (#[trigger] after.entities[i]).wf(
    ) by {
            assert(game.entities[i].wf());
        }
    }
}

/// An event keeps the session well formed, moves no entity in or out of the
/// registry, changes no counter but the ammunition, and never lowers that.
pub proof fn lemma_collided(game: GameView, event: EventView)
    requires
        game.wf(),
    ensures
        game.collided(event).wf(),
        game.collided(event).entities.len() == game.entities.len(),
        game.collided(event).ammo >= game.ammo,
        game.collided(event).active_shots == game.active_shots,
        game.collided(event).bricks_left == game.bricks_left,
        game.collided(event).shot_counter == game.shot_counter,
        game.collided(event).outcome == game.outcome,
        game.collided(event).reload == game.reload,
        game.collided(event).tilt == game.tilt,
{
    let after = game.collided(event);
    if game.strikes(event) && !game.misses(event) {
        let a = slot(game.entities, event.first);
        let b = slot(game.entities, event.second);
        assert(game.entities[a].wf());
        assert(game.entities[b].wf());
        assert forall|i: int| 0 <= i < game.entities.len() implies (#[trigger] game.entities[i]).kind
            == after.entities[i].kind && game.entities[i].label == after.entities[i].label by {}
        lemma_tally_same_kinds(game.entities, after.entities, Kind::Projectile);
        lemma_tally_same_kinds(game.entities, after.entities, Kind::Brick);
        assert forall|i: int, j: int|
            0 <= i < j < after.entities.len() implies #[trigger] after.entities[i].label
            != #[trigger] after.entities[j].label by {
            assert(game.entities[i].label != game.entities[j].label);
        }
        assert forall|i: int| 0 <= i < after.entities.len() implies (#[trigger] after.entities[i]).wf(
    ) by {
            assert(game.entities[i].wf());
        }
    }
}

/// A batch of events keeps the session well formed, moves no entity in or
/// out of the registry, changes no counter but the ammunition, and never
/// lowers that.
pub proof fn lemma_dispatched(game: GameView, events: Seq<EventView>)
    requires
        game.wf(),
    ensures
        game.dispatched(events).wf(),
        game.dispatched(events).entities.len() == game.entities.len(),
        game.dispatched(events).ammo >= game.ammo,
        game.dispatched(events).active_shots == game.active_shots,
        game.dispatched(events).bricks_left == game.bricks_left,
        game.dispatched(events).shot_counter == game.shot_counter,
        game.dispatched(events).outcome == game.outcome,
        game.dispatched(events).reload == game.reload,
        game.dispatched(events).tilt == game.tilt,
        game.impacts(events) <= events.len(),
    decreases events.len(),
{
    if events.len() > 0 {
        lemma_dispatched(game, events.drop_last());
        lemma_collided(game.dispatched(events.drop_last()), events.last());
    }
}

/// Once an impact of a batch has named a missing entity, the events after
/// it change nothing.
pub proof fn lemma_stumble_ends_batch(game: GameView, events: Seq<EventView>, upto: int)
    requires
        0 <= upto <= events.len(),
        game.stumbles(events.subrange(0, upto)),
    ensures
        game.stumbles(events),
        game.dispatched(events) == game.dispatched(events.subrange(0, upto)),
        game.impacts(events) == game.impacts(events.subrange(0, upto)),
    decreases events.len() - upto,
{
    if upto < events.len() {
        let next = events.subrange(0, upto + 1);
        assert(next.drop_last() =~= events.subrange(0, upto));
        lemma_stumble_ends_batch(game, events, upto + 1);
    } else {
        assert(events.subrange(0, upto) =~= events);
    }
}

/// The end of a frame keeps the session well formed, leaves nothing marked,
/// raises no counter, and leaves no brick exactly when the game is won.
pub proof fn lemma_concluded(game: GameView)
    requires
        game.wf(),
    ensures
        game.concluded().wf(),
        game.concluded().settled(),
        game.concluded().pending().len() == 0,
        game.concluded().entities.len() <= game.entities.len(),
        game.concluded().bricks_left <= game.bricks_left,
        game.concluded().active_shots <= game.active_shots,
        game.concluded().ammo == game.ammo,
        game.concluded().shot_counter == game.shot_counter,
        game.running() ==> (game.concluded().outcome == Outcome::Won
            <==> game.concluded().bricks_left == 0),
        game.running() ==> (game.concluded().outcome == Outcome::Lost
            <==> game.concluded().bricks_left > 0 && game.concluded().active_shots == 0
            && game.ammo == 0),
{
    let after = game.concluded();
    lemma_survivors(game.entities);
    if game.running() {
        assert forall|k: int| 0 <= k < after.entities.len() implies (#[trigger] after.entities[k]).wf(
        ) by {
            let i = choose|i: int|
                0 <= i < game.entities.len() && #[trigger] game.entities[i] == after.entities[k];
            assert(game.entities[i].wf());
        }
        assert(tally(after.entities, Kind::Brick) <= tally(game.entities, Kind::Brick));
        assert(tally(after.entities, Kind::Projectile) <= tally(game.entities, Kind::Projectile));
    }
    lemma_settled_keeps_all(after.entities);
}

/// Changing where an entity is, how it is turned or whether it is marked
/// keeps a running session well formed, changes no counter and takes no
/// label in or out of the registry.
pub proof fn lemma_adjusted(game: GameView, at: int, entity: EntityView)
    requires
        game.wf(),
        game.running(),
        0 <= at < game.entities.len(),
        entity.wf(),
        entity.label == game.entities[at].label,
    ensures
        (GameView { entities: game.entities.update(at, entity), ..game }).wf(),
        forall|label: Seq<char>|
            holds(game.entities.update(at, entity), label) == #[trigger] holds(
                game.entities,
                label,
            ),
        entity.doomed == game.entities[at].doomed && game.settled() ==> (GameView {
            entities: game.entities.update(at, entity),
            ..game
        }).settled(),
{
    let after = GameView { entities: game.entities.update(at, entity), ..game };
    assert(game.entities[at].wf());
    assert forall|i: int| 0 <= i < game.entities.len() implies (#[trigger] game.entities[i]).kind
        == after.entities[i].kind && game.entities[i].label == after.entities[i].label by {}
    lemma_tally_same_kinds(game.entities, after.entities, Kind::Projectile);
    lemma_tally_same_kinds(game.entities, after.entities, Kind::Brick);
    assert forall|i: int, j: int| 0 <= i < j < after.entities.len() implies #[trigger] after.entities[i]
        .label != #[trigger] after.entities[j].label by {
        assert(game.entities[i].label != game.entities[j].label);
    }
    assert forall|i: int| 0 <= i < after.entities.len() implies (#[trigger] after.entities[i]).wf(
    ) by {
        assert(game.entities[i].wf());
    }
    assert forall|label: Seq<char>|
        holds(after.entities, label) == #[trigger] holds(game.entities, label) by {
        if holds(game.entities, label) {
            let i = choose|i: int|
                0 <= i < game.entities.len() && #[trigger] game.entities[i].label == label;
            assert(after.entities[i].label == label);
        }
        if holds(after.entities, label) {
            let i = choose|i: int|
                0 <= i < after.entities.len() && #[trigger] after.entities[i].label == label;
            assert(game.entities[i].label == label);
        }
    }
    if entity.doomed == game.entities[at].doomed && game.settled() {
        assert forall|i: int| 0 <= i < after.entities.len() implies !(
        #[trigger] after.entities[i]).doomed by {
            assert(!game.entities[i].doomed);
        }
    }
}

/// Steering keeps the session well formed, touches no brick, never grants
/// ammunition, and spends one unit of it exactly when a projectile is
/// fired.
pub proof fn lemma_steered(game: GameView, input: Input, heading: int)
    requires
        game.wf(),
    ensures
        game.steered(input, heading).wf(),
        game.steered(input, heading).bricks_left == game.bricks_left,
        game.steerable() && game.chosen(input) == Move::Fire ==> game.steered(input, heading).ammo
            + 1 == game.ammo && game.steered(input, heading).active_shots == game.active_shots
            + 1 && game.steered(input, heading).shot_counter == game.shot_counter + 1,
        !(game.steerable() && game.chosen(input) == Move::Fire) ==> game.steered(
            input,
            heading,
        ).ammo == game.ammo && game.steered(input, heading).active_shots == game.active_shots
            && game.steered(input, heading).shot_counter == game.shot_counter,
        game.settled() ==> game.steered(input, heading).settled(),
{
    if game.steerable() {
        let at = slot(game.entities, "player"@);
        let before = game.entities[at];
        assert(before.wf());
        let player = EntityView {
            rotation: if game.tilt.is_finished() {
                0
            } else {
                before.rotation
            },
            ..before
        };
        lemma_adjusted(game, at, player);
        lemma_adjusted(game, at, EntityView { x: shifted(player.x, -PLAYER_STEP), ..player });
        lemma_adjusted(game, at, EntityView { x: shifted(player.x, PLAYER_STEP as int), ..player });
        lemma_adjusted(game, at, EntityView { rotation: TILT_LEFT as int, ..player });
        lemma_adjusted(game, at, EntityView { rotation: TILT_RIGHT as int, ..player });
        if game.chosen(input) == Move::Fire {
            let calm = game.with_player(player);
            assert(holds(calm.entities, shot_label_of(game.shot_counter + 1)) == holds(
                game.entities,
                shot_label_of(game.shot_counter + 1),
            ));
            lemma_fired(calm, player.x, shifted(player.y, MUZZLE_OFFSET as int), heading);
        }
    }
}

/// Without ammunition, or before the reload timer has finished, no fire
/// request is granted: steering then fires nothing, whatever the input, and
/// leaves the ammunition, the sequence counter and the number of live
/// projectiles as they were.
pub proof fn lemma_fire_refused(game: GameView, input: Input, heading: int)
    requires
        game.wf(),
        game.ammo == 0 || !game.reload.is_finished(),
    ensures
        !game.can_fire(),
        game.chosen(input) != Move::Fire,
        game.steered(input, heading).ammo == game.ammo,
        game.steered(input, heading).shot_counter == game.shot_counter,
        game.steered(input, heading).active_shots == game.active_shots,
        game.steered(input, heading).entities.len() == game.entities.len(),
{
    lemma_steered(game, input, heading);
}

/// A session that has ended is changed by no step of a frame.
pub proof fn lemma_stopped_stays(
    game: GameView,
    dt_ms: u64,
    input: Input,
    heading: int,
    headings: Seq<Heading>,
    events: Seq<EventView>,
)
    requires
        !game.running(),
    ensures
        game.ticked(dt_ms) == game,
        !game.can_fire(),
        game.steered(input, heading) == game,
        game.advanced(dt_ms as int, headings) == game,
        game.dispatched(events) == game,
        game.impacts(events) == 0,
        !game.stumbles(events),
        game.concluded() == game,
    decreases events.len(),
{
    if events.len() > 0 {
        lemma_stopped_stays(game, dt_ms, input, heading, headings, events.drop_last());
    }
}

/// Advancing the timers keeps the session well formed and touches neither
/// the registry nor a counter.
pub proof fn lemma_ticked(game: GameView, dt_ms: u64)
    requires
        game.wf(),
    ensures
        game.ticked(dt_ms).wf(),
        game.ticked(dt_ms).entities == game.entities,
        game.ticked(dt_ms).ammo == game.ammo,
        game.ticked(dt_ms).active_shots == game.active_shots,
        game.ticked(dt_ms).bricks_left == game.bricks_left,
        game.ticked(dt_ms).shot_counter == game.shot_counter,
        game.ticked(dt_ms).outcome == game.outcome,
{
}

/// A whole frame keeps the session well formed, so that afterwards the
/// counters still count the registry; it adds no brick, fires at most one
/// projectile, and spends one unit of ammunition only where it fires.
pub proof fn lemma_framed(
    game: GameView,
    dt_ms: u32,
    input: Input,
    heading: int,
    headings: Seq<Heading>,
    events: Seq<EventView>,
)
    requires
        game.wf(),
    ensures
        game.framed(dt_ms, input, heading, headings, events).wf(),
        game.framed(dt_ms, input, heading, headings, events).bricks_left <= game.bricks_left,
        game.framed(dt_ms, input, heading, headings, events).active_shots <= game.active_shots + 1,
        game.framed(dt_ms, input, heading, headings, events).ammo + 1 >= game.ammo,
        game.shot_counter <= game.framed(dt_ms, input, heading, headings, events).shot_counter
            <= game.shot_counter + 1,
        game.framed(dt_ms, input, heading, headings, events).ammo < game.ammo ==> game.framed(
            dt_ms,
            input,
            heading,
            headings,
            events,
        ).shot_counter == game.shot_counter + 1,
        !game.running() ==> game.framed(dt_ms, input, heading, headings, events) == game,
{
    let ticked = game.ticked(dt_ms as u64);
    lemma_ticked(game, dt_ms as u64);
    let steered = ticked.steered(input, heading);
    lemma_steered(ticked, input, heading);
    let advanced = steered.advanced(dt_ms as int, headings);
    lemma_advanced(steered, dt_ms as int, headings);
    let dispatched = advanced.dispatched(events);
    lemma_dispatched(advanced, events);
    lemma_concluded(dispatched);
    if !game.running() {
        lemma_stopped_stays(game, dt_ms as u64, input, heading, headings, events);
    }
}

/// Nothing awaits removal when a frame has ended, nor after the timers
/// have advanced and the player has acted in the next frame.
pub proof fn lemma_next_frame_starts_clean(
    game: GameView,
    dt_ms: u64,
    input: Input,
    heading: int,
)
    requires
        game.wf(),
    ensures
        game.concluded().pending().len() == 0,
        game.concluded().ticked(dt_ms).pending().len() == 0,
        game.concluded().ticked(dt_ms).steered(input, heading).pending().len() == 0,
{
    let ended = game.concluded();
    lemma_concluded(game);
    let ticked = ended.ticked(dt_ms);
    lemma_ticked(ended, dt_ms);
    assert(ticked.settled());
    lemma_steered(ticked, input, heading);
    lemma_settled_keeps_all(ticked.steered(input, heading).entities);
}

} // verus!
