use breakout_core::angle::{bounce, FULL_TURN};
use breakout_core::game::{CollisionEvent, FrameError, Game};
use breakout_core::label::Kind;
use breakout_core::model::{
    Heading, Input, Outcome, Phase, LAUNCH_MAX, LAUNCH_MIN, LOWER_BOUND, MUZZLE_OFFSET,
    PLAYER_STEP, TILT_LEFT, TILT_RIGHT,
};

const UNIT: i64 = 1_000_000_000;

fn touching(first: &str, second: &str) -> CollisionEvent {
    CollisionEvent { first: first.to_string(), second: second.to_string(), phase: Phase::Start }
}

fn parting(first: &str, second: &str) -> CollisionEvent {
    CollisionEvent { first: first.to_string(), second: second.to_string(), phase: Phase::End }
}

fn still(count: usize) -> Vec<Heading> {
    vec![Heading { cos_ppm: 0, sin_ppm: 0 }; count]
}

fn idle() -> Input {
    Input { fire: false, left: false, right: false, tilt_left: false, tilt_right: false }
}

fn rotation_of(game: &Game, label: &str) -> i64 {
    game.entity(game.find(label).unwrap()).unwrap().rotation
}

fn position_of(game: &Game, label: &str) -> (i64, i64) {
    let entity = game.entity(game.find(label).unwrap()).unwrap();
    (entity.x, entity.y)
}

fn count_kind(game: &Game, kind: Kind) -> usize {
    let mut count = 0;
    for at in 0..game.len() {
        if game.entity(at).unwrap().kind == kind {
            count += 1;
        }
    }
    count
}

fn arena(ammo: u32) -> Game {
    let mut game = Game::new(ammo, 150, 50);
    assert!(game.insert("player".to_string(), -300 * UNIT, -300 * UNIT, 0));
    assert!(game.insert("wall_left".to_string(), -750 * UNIT, 0, 90_000));
    assert!(game.insert("wall_right".to_string(), 750 * UNIT, 0, 90_000));
    assert!(game.insert("wall_top".to_string(), 0, 547 * UNIT, 0));
    assert!(game.insert("brick_0".to_string(), -427 * UNIT, 297 * UNIT, 0));
    assert!(game.insert("brick_1".to_string(), -488 * UNIT, 297 * UNIT, 0));
    game
}

#[test]
fn new_session_is_empty_and_running() {
    let game = Game::new(7, 150, 50);
    assert_eq!(game.len(), 0);
    assert_eq!(game.ammo(), 7);
    assert_eq!(game.active_shots(), 0);
    assert_eq!(game.bricks_left(), 0);
    assert_eq!(game.shot_counter(), 0);
    assert_eq!(game.outcome(), Outcome::Running);
    assert!(game.is_running());
    assert!(game.entity(0).is_none());
    assert!(game.pending_labels().is_empty());
}

#[test]
fn insert_classifies_normalises_and_counts() {
    let game = arena(3);
    assert_eq!(game.len(), 6);
    assert_eq!(game.bricks_left(), 2);
    assert_eq!(game.active_shots(), 0);
    let player = game.entity(0).unwrap();
    assert_eq!(player.label, "player");
    assert_eq!(player.kind, Kind::Player);
    assert_eq!((player.x, player.y), (-300 * UNIT, -300 * UNIT));
    assert!(!player.doomed);
    assert_eq!(game.entity(1).unwrap().kind, Kind::Wall);
    assert_eq!(game.entity(1).unwrap().rotation, 90_000);
    assert_eq!(game.entity(4).unwrap().kind, Kind::Brick);
    assert_eq!(game.find("wall_top"), Some(3));
    assert_eq!(game.find("brick_1"), Some(5));
    assert_eq!(game.find("brick_2"), None);
    assert_eq!(game.find(""), None);
    let mut turned = Game::new(0, 1, 1);
    assert!(turned.insert("wall".to_string(), 0, 0, -90_000));
    assert!(turned.insert("other".to_string(), 0, 0, 725_000));
    assert_eq!(rotation_of(&turned, "wall"), 270_000);
    assert_eq!(rotation_of(&turned, "other"), 5_000);
    assert_eq!(turned.entity(1).unwrap().kind, Kind::Other);
}

#[test]
fn insert_refuses_a_label_that_is_taken() {
    let mut game = arena(3);
    assert!(!game.insert("brick_0".to_string(), 1, 2, 3));
    assert_eq!(game.len(), 6);
    assert_eq!(game.bricks_left(), 2);
    assert_eq!(position_of(&game, "brick_0"), (-427 * UNIT, 297 * UNIT));
}

#[test]
fn inserted_projectiles_count_as_active_shots() {
    let mut game = Game::new(0, 150, 50);
    assert!(game.insert("shot_extra".to_string(), 0, 0, 0));
    assert_eq!(game.active_shots(), 1);
    assert_eq!(game.shot_counter(), 0);
}

#[test]
fn fire_is_refused_until_the_reload_timer_has_finished() {
    let mut game = arena(3);
    assert!(!game.ready());
    assert_eq!(game.fire(0, 0, 45_000), None);
    game.tick(149);
    assert_eq!(game.fire(0, 0, 45_000), None);
    assert_eq!(game.ammo(), 3);
    assert_eq!(game.active_shots(), 0);
    assert_eq!(game.shot_counter(), 0);
    assert_eq!(game.len(), 6);
    game.tick(1);
    assert!(game.ready());
    assert_eq!(game.fire(0, 0, 45_000), Some(1));
    assert_eq!(game.fire(0, 0, 45_000), None);
    game.tick(150);
    assert_eq!(game.fire(0, 0, 45_000), Some(2));
    assert_eq!(game.ammo(), 1);
    assert_eq!(game.active_shots(), 2);
    assert_eq!(game.shot_counter(), 2);
}

#[test]
fn fire_is_refused_without_ammunition() {
    let mut game = arena(0);
    game.tick(1_000);
    assert!(!game.ready());
    assert_eq!(game.fire(0, 0, 45_000), None);
    assert_eq!(game.launch(0, 0), None);
    assert_eq!(game.ammo(), 0);
    assert_eq!(game.active_shots(), 0);
    assert_eq!(game.shot_counter(), 0);
    assert_eq!(game.len(), 6);
}

#[test]
fn fire_is_refused_when_the_next_label_is_taken() {
    let mut game = Game::new(5, 0, 0);
    assert!(game.insert("shot1".to_string(), 0, 0, 0));
    assert!(!game.ready());
    assert_eq!(game.fire(0, 0, 45_000), None);
    assert_eq!(game.ammo(), 5);
    assert_eq!(game.active_shots(), 1);
}

#[test]
fn single_round_scenario_fire_then_strike_then_lose() {
    let mut game = arena(1);
    game.tick(150);
    assert_eq!(game.fire(-300 * UNIT, -285 * UNIT, 60_000), Some(1));
    assert_eq!(game.ammo(), 0);
    assert_eq!(game.active_shots(), 1);
    assert_eq!(game.shot_counter(), 1);
    let shot = game.entity(game.find("shot1").unwrap()).unwrap();
    assert_eq!(shot.kind, Kind::Projectile);
    assert_eq!(shot.rotation, 60_000);
    assert_eq!((shot.x, shot.y), (-300 * UNIT, -285 * UNIT));
    assert_eq!(game.finish_frame(), Outcome::Running);

    assert_eq!(game.collide(&touching("shot1", "brick_0")), Ok(true));
    assert_eq!(rotation_of(&game, "shot1"), 300_000);
    assert_eq!(game.bricks_left(), 2);
    assert_eq!(game.pending_labels(), vec!["brick_0".to_string()]);
    assert_eq!(game.finish_frame(), Outcome::Running);
    assert_eq!(game.find("brick_0"), None);
    assert_eq!(game.bricks_left(), 1);
    assert_eq!(game.active_shots(), 1);
    assert!(game.pending_labels().is_empty());

    let mut headings = still(game.len());
    let at = game.find("shot1").unwrap();
    headings[at] = Heading { cos_ppm: 500_000, sin_ppm: -866_025 };
    assert!(game.advance(1_000, &headings));
    assert_eq!(position_of(&game, "shot1"), (-200 * UNIT, -285 * UNIT - 173_205_000_000));
    assert_eq!(game.pending_labels(), vec!["shot1".to_string()]);
    assert_eq!(game.active_shots(), 1);
    assert_eq!(game.finish_frame(), Outcome::Lost);
    assert_eq!(game.active_shots(), 0);
    assert_eq!(game.ammo(), 0);
    assert_eq!(game.bricks_left(), 1);
    assert_eq!(game.find("shot1"), None);
    assert!(!game.is_running());
}

#[test]
fn last_brick_gone_wins_whatever_the_ammunition() {
    let mut game = Game::new(9, 0, 0);
    assert!(game.insert("brick_only".to_string(), 0, 100 * UNIT, 0));
    assert_eq!(game.fire(0, 0, 90_000), Some(1));
    assert_eq!(game.finish_frame(), Outcome::Running);
    assert_eq!(game.collide(&touching("brick_only", "shot1")), Ok(true));
    assert_eq!(rotation_of(&game, "shot1"), 270_000);
    assert_eq!(game.finish_frame(), Outcome::Won);
    assert_eq!(game.bricks_left(), 0);
    assert_eq!(game.ammo(), 8);
    assert_eq!(game.active_shots(), 1);
    assert_eq!(count_kind(&game, Kind::Brick), 0);
}

#[test]
fn session_without_bricks_is_won_at_the_end_of_its_first_frame() {
    let mut game = Game::new(0, 150, 50);
    assert_eq!(game.finish_frame(), Outcome::Won);
}

#[test]
fn bricks_left_with_live_shot_or_ammunition_keep_the_game_running() {
    let mut with_ammo = Game::new(1, 150, 50);
    assert!(with_ammo.insert("brick_0".to_string(), 0, 0, 0));
    assert_eq!(with_ammo.finish_frame(), Outcome::Running);
    let mut with_shot = Game::new(1, 0, 0);
    assert!(with_shot.insert("brick_0".to_string(), 0, 0, 0));
    assert_eq!(with_shot.fire(0, 0, 45_000), Some(1));
    assert_eq!(with_shot.ammo(), 0);
    assert_eq!(with_shot.finish_frame(), Outcome::Running);
    let mut with_neither = Game::new(0, 0, 0);
    assert!(with_neither.insert("brick_0".to_string(), 0, 0, 0));
    assert_eq!(with_neither.finish_frame(), Outcome::Lost);
}

#[test]
fn stopped_session_ignores_every_step() {
    let mut game = Game::new(0, 0, 0);
    assert!(game.insert("player".to_string(), 0, 0, 10_000));
    assert!(game.insert("brick_0".to_string(), 0, 0, 0));
    assert!(game.insert("shot_stray".to_string(), 5, 6, 30_000));
    let headings = vec![Heading { cos_ppm: 1_000_000, sin_ppm: 0 }; 3];
    assert!(game.advance(1, &headings));
    assert_eq!(position_of(&game, "shot_stray"), (200_000_005, 6));
    assert_eq!(game.collide(&touching("shot_stray", "brick_0")), Ok(true));
    assert_eq!(game.finish_frame(), Outcome::Won);
    assert_eq!(game.len(), 2);

    game.tick(1_000);
    assert!(!game.ready());
    assert_eq!(game.fire(0, 0, 0), None);
    assert_eq!(game.launch(0, 0), None);
    assert!(!game.insert("brick_9".to_string(), 0, 0, 0));
    let input = Input { fire: true, left: true, right: true, tilt_left: true, tilt_right: true };
    assert_eq!(game.steer(input), Ok(None));
    assert_eq!(game.steer_with(input, 45_000), Ok(None));
    assert_eq!(position_of(&game, "player"), (0, 0));
    assert_eq!(rotation_of(&game, "player"), 10_000);
    assert!(game.advance(1_000, &vec![Heading { cos_ppm: 1_000_000, sin_ppm: 0 }; 2]));
    assert_eq!(position_of(&game, "shot_stray"), (200_000_005, 6));
    assert_eq!(game.collide(&touching("shot_stray", "player")), Ok(false));
    assert_eq!(game.collide(&touching("shot_stray", "nobody")), Ok(false));
    assert_eq!(game.dispatch(&vec![touching("shot_stray", "player")]), Ok(0));
    assert_eq!(rotation_of(&game, "shot_stray"), 330_000);
    assert_eq!(game.finish_frame(), Outcome::Won);
    assert_eq!(game.outcome(), Outcome::Won);
    assert_eq!(game.len(), 2);
    assert_eq!(game.bricks_left(), 0);
    assert_eq!(game.active_shots(), 1);
}

#[test]
fn launch_draws_the_angle_from_the_launch_range() {
    let mut game = Game::new(200, 0, 0);
    assert!(game.insert("brick_0".to_string(), 0, 0, 0));
    let mut distinct = std::collections::BTreeSet::new();
    for round in 1..=200u32 {
        assert_eq!(game.launch(7, 8), Some(round));
        let label = format!("shot{}", round);
        let rotation = rotation_of(&game, &label);
        assert!(LAUNCH_MIN <= rotation && rotation < LAUNCH_MAX);
        assert_eq!(position_of(&game, &label), (7, 8));
        distinct.insert(rotation);
    }
    assert!(distinct.len() > 1);
    assert_eq!(game.ammo(), 0);
    assert_eq!(game.active_shots(), 200);
    assert_eq!(count_kind(&game, Kind::Projectile), 200);
    assert_eq!(game.launch(7, 8), None);
}

#[test]
fn heading_components_must_not_exceed_one() {
    assert_eq!(Heading::new(0, 0), Some(Heading { cos_ppm: 0, sin_ppm: 0 }));
    assert_eq!(
        Heading::new(1_000_000, -1_000_000),
        Some(Heading { cos_ppm: 1_000_000, sin_ppm: -1_000_000 })
    );
    assert_eq!(Heading::new(1_000_001, 0), None);
    assert_eq!(Heading::new(0, 1_000_001), None);
    assert_eq!(Heading::new(-1_000_001, 0), None);
    assert_eq!(Heading::new(0, -1_000_001), None);
}

#[test]
fn advance_moves_projectiles_only() {
    let mut game = arena(2);
    game.tick(150);
    assert_eq!(game.fire(0, 0, 0), Some(1));
    let headings = vec![Heading { cos_ppm: 600_000, sin_ppm: 800_000 }; 7];
    assert!(game.advance(16, &headings));
    assert_eq!(position_of(&game, "shot1"), (200 * 16 * 600_000, 200 * 16 * 800_000));
    assert_eq!(position_of(&game, "player"), (-300 * UNIT, -300 * UNIT));
    assert_eq!(position_of(&game, "brick_0"), (-427 * UNIT, 297 * UNIT));
    assert_eq!(position_of(&game, "wall_top"), (0, 547 * UNIT));
    assert_eq!(rotation_of(&game, "shot1"), 0);
    assert!(game.advance(0, &headings));
    assert_eq!(position_of(&game, "shot1"), (1_920_000_000, 2_560_000_000));
    assert!(game.pending_labels().is_empty());
}

#[test]
fn advance_refuses_headings_that_do_not_fit() {
    let mut game = Game::new(1, 0, 0);
    assert_eq!(game.fire(10, 20, 0), Some(1));
    assert!(!game.advance(1_000, &Vec::new()));
    assert!(!game.advance(1_000, &still(2)));
    assert!(!game.advance(1_000, &vec![Heading { cos_ppm: 1_000_001, sin_ppm: 0 }]));
    assert!(!game.advance(1_000, &vec![Heading { cos_ppm: 0, sin_ppm: -1_000_001 }]));
    assert_eq!(position_of(&game, "shot1"), (10, 20));
    assert!(game.advance(1_000, &vec![Heading { cos_ppm: -1_000_000, sin_ppm: 1_000_000 }]));
    assert_eq!(position_of(&game, "shot1"), (10 - 200 * UNIT, 20 + 200 * UNIT));
}

#[test]
fn projectile_below_the_lower_bound_is_removed_at_frame_end() {
    let mut game = Game::new(2, 0, 0);
    assert!(game.insert("brick_0".to_string(), 0, 0, 0));
    assert_eq!(game.fire(0, LOWER_BOUND, 0), Some(1));
    assert_eq!(game.fire(0, LOWER_BOUND + 1, 0), Some(2));
    let down = Heading { cos_ppm: 0, sin_ppm: -1 };
    assert!(game.advance(0, &vec![down; 3]));
    assert!(game.pending_labels().is_empty());
    assert!(game.advance(1, &vec![down; 3]));
    assert_eq!(position_of(&game, "shot1"), (0, LOWER_BOUND - 200));
    assert_eq!(position_of(&game, "shot2"), (0, LOWER_BOUND - 199));
    assert_eq!(game.pending_labels(), vec!["shot1".to_string(), "shot2".to_string()]);
    assert_eq!(game.active_shots(), 2);
    assert_eq!(game.finish_frame(), Outcome::Lost);
    assert_eq!(game.active_shots(), 0);
    assert_eq!(game.len(), 1);
    assert_eq!(game.shot_counter(), 2);
}

#[test]
fn projectile_exactly_on_the_lower_bound_stays() {
    let mut game = Game::new(1, 0, 0);
    assert!(game.insert("brick_0".to_string(), 0, 0, 0));
    assert_eq!(game.fire(0, LOWER_BOUND + 200, 0), Some(1));
    assert!(game.advance(1, &vec![Heading { cos_ppm: 0, sin_ppm: -1 }; 2]));
    assert_eq!(position_of(&game, "shot1"), (0, LOWER_BOUND));
    assert!(game.pending_labels().is_empty());
    assert_eq!(game.finish_frame(), Outcome::Running);
    assert_eq!(game.active_shots(), 1);
}

#[test]
fn positions_stop_at_the_ends_of_the_number_range() {
    let mut game = Game::new(2, 0, 0);
    assert!(game.insert("brick_0".to_string(), 0, 0, 0));
    assert_eq!(game.fire(i64::MAX - 5, i64::MAX, 0), Some(1));
    assert_eq!(game.fire(i64::MIN + 5, 0, 0), Some(2));
    let headings = vec![
        Heading { cos_ppm: 0, sin_ppm: 0 },
        Heading { cos_ppm: 1_000_000, sin_ppm: 1_000_000 },
        Heading { cos_ppm: -1_000_000, sin_ppm: 0 },
    ];
    assert!(game.advance(u32::MAX, &headings));
    assert_eq!(position_of(&game, "shot1"), (i64::MAX, i64::MAX));
    assert_eq!(position_of(&game, "shot2"), (i64::MIN, 0));
}

#[test]
fn separating_pairs_and_pairs_without_projectile_are_ignored() {
    let mut game = arena(1);
    game.tick(150);
    assert_eq!(game.fire(0, 0, 45_000), Some(1));
    assert_eq!(game.collide(&parting("shot1", "brick_0")), Ok(false));
    assert_eq!(game.collide(&parting("shot1", "nobody")), Ok(false));
    assert_eq!(game.collide(&touching("player", "wall_left")), Ok(false));
    assert_eq!(game.collide(&touching("player", "nobody")), Ok(false));
    assert_eq!(game.collide(&touching("brick_0", "brick_1")), Ok(false));
    assert_eq!(rotation_of(&game, "shot1"), 45_000);
    assert!(game.pending_labels().is_empty());
    assert_eq!(game.ammo(), 0);
}

#[test]
fn impact_with_a_missing_entity_is_an_error() {
    let mut game = arena(1);
    game.tick(150);
    assert_eq!(game.fire(0, 0, 45_000), Some(1));
    assert_eq!(game.collide(&touching("shot1", "brick_77")), Err(FrameError::MissingEntity));
    assert_eq!(game.collide(&touching("brick_bonus_77", "shot1")), Err(FrameError::MissingEntity));
    assert_eq!(game.collide(&touching("shot2", "brick_0")), Err(FrameError::MissingEntity));
    assert_eq!(game.collide(&touching("shot2", "shot3")), Err(FrameError::MissingEntity));
    assert_eq!(rotation_of(&game, "shot1"), 45_000);
    assert_eq!(game.ammo(), 0);
    assert!(game.pending_labels().is_empty());
}

#[test]
fn walls_reflect_and_stay() {
    let mut game = arena(1);
    game.tick(150);
    assert_eq!(game.fire(0, 0, 0), Some(1));
    assert_eq!(game.collide(&touching("shot1", "wall_left")), Ok(true));
    assert_eq!(rotation_of(&game, "shot1"), 180_000);
    assert_eq!(game.collide(&touching("wall_right", "shot1")), Ok(true));
    assert_eq!(rotation_of(&game, "shot1"), 0);
    assert_eq!(game.collide(&touching("shot1", "wall_top")), Ok(true));
    assert_eq!(rotation_of(&game, "shot1"), 0);
    assert_eq!(rotation_of(&game, "wall_left"), 90_000);
    assert!(game.pending_labels().is_empty());
    assert_eq!(game.finish_frame(), Outcome::Running);
    assert_eq!(game.len(), 7);
}

#[test]
fn projectile_pairs_reflect_off_each_other_as_they_were() {
    let mut game = Game::new(2, 0, 0);
    assert!(game.insert("brick_0".to_string(), 0, 0, 0));
    assert_eq!(game.fire(0, 0, 30_000), Some(1));
    assert_eq!(game.fire(0, 0, 200_000), Some(2));
    assert_eq!(game.collide(&touching("shot1", "shot2")), Ok(true));
    assert_eq!(rotation_of(&game, "shot1"), bounce(30_000, 200_000));
    assert_eq!(rotation_of(&game, "shot1"), 10_000);
    assert_eq!(rotation_of(&game, "shot2"), bounce(200_000, 30_000));
    assert_eq!(rotation_of(&game, "shot2"), 220_000);
    assert!(game.pending_labels().is_empty());

    let mut mirrored = Game::new(2, 0, 0);
    assert!(mirrored.insert("brick_0".to_string(), 0, 0, 0));
    assert_eq!(mirrored.fire(0, 0, 30_000), Some(1));
    assert_eq!(mirrored.fire(0, 0, 200_000), Some(2));
    assert_eq!(mirrored.collide(&touching("shot2", "shot1")), Ok(true));
    assert_eq!(rotation_of(&mirrored, "shot1"), 10_000);
    assert_eq!(rotation_of(&mirrored, "shot2"), 220_000);
}

#[test]
fn projectile_touching_itself_reflects_off_its_own_rotation() {
    let mut game = Game::new(1, 0, 0);
    assert_eq!(game.fire(0, 0, 30_000), Some(1));
    assert_eq!(game.collide(&touching("shot1", "shot1")), Ok(true));
    assert_eq!(rotation_of(&game, "shot1"), 30_000);
}

#[test]
fn bonus_marker_grants_ammunition() {
    let mut game = Game::new(1, 0, 0);
    assert!(game.insert("brick_bonus_0".to_string(), 0, 0, 0));
    assert!(game.insert("brick_1".to_string(), 0, 0, 0));
    assert!(game.insert("wall_bonus".to_string(), 0, 0, 0));
    assert_eq!(game.fire(0, 0, 45_000), Some(1));
    assert_eq!(game.ammo(), 0);
    assert_eq!(game.collide(&touching("shot1", "brick_1")), Ok(true));
    assert_eq!(game.ammo(), 0);
    assert_eq!(game.collide(&touching("shot1", "brick_bonus_0")), Ok(true));
    assert_eq!(game.ammo(), 1);
    assert_eq!(game.collide(&touching("wall_bonus", "shot1")), Ok(true));
    assert_eq!(game.ammo(), 2);
    assert_eq!(game.collide(&parting("shot1", "brick_bonus_0")), Ok(false));
    assert_eq!(game.ammo(), 2);
    assert_eq!(
        game.pending_labels(),
        vec!["brick_bonus_0".to_string(), "brick_1".to_string()]
    );
}

#[test]
fn ammunition_counter_does_not_run_over() {
    let mut game = Game::new(u32::MAX, 0, 0);
    assert!(game.insert("brick_bonus_0".to_string(), 0, 0, 0));
    assert_eq!(game.fire(0, 0, 45_000), Some(1));
    assert_eq!(game.ammo(), u32::MAX - 1);
    assert_eq!(game.collide(&touching("shot1", "brick_bonus_0")), Ok(true));
    assert_eq!(game.ammo(), u32::MAX);
    assert_eq!(game.collide(&touching("shot1", "brick_bonus_0")), Ok(true));
    assert_eq!(game.ammo(), u32::MAX);
}

#[test]
fn brick_struck_twice_in_one_frame_is_removed_once() {
    let mut game = arena(2);
    game.tick(150);
    assert_eq!(game.fire(0, 0, 45_000), Some(1));
    game.tick(150);
    assert_eq!(game.fire(0, 0, 100_000), Some(2));
    let events = vec![
        touching("shot1", "brick_0"),
        parting("shot1", "brick_0"),
        touching("brick_0", "shot2"),
        touching("player", "wall_left"),
    ];
    assert_eq!(game.dispatch(&events), Ok(2));
    assert_eq!(rotation_of(&game, "shot1"), 315_000);
    assert_eq!(rotation_of(&game, "shot2"), 260_000);
    assert_eq!(game.pending_labels(), vec!["brick_0".to_string()]);
    assert_eq!(game.bricks_left(), 2);
    assert_eq!(game.finish_frame(), Outcome::Running);
    assert_eq!(game.bricks_left(), 1);
    assert_eq!(game.find("brick_0"), None);
    assert_eq!(game.find("brick_1"), Some(4));
    assert_eq!(game.len(), 7);
}

#[test]
fn dispatch_stops_at_the_first_missing_entity() {
    let mut game = arena(1);
    game.tick(150);
    assert_eq!(game.fire(0, 0, 45_000), Some(1));
    let events = vec![
        touching("shot1", "wall_left"),
        touching("shot1", "brick_404"),
        touching("shot1", "brick_0"),
    ];
    assert_eq!(game.dispatch(&events), Err(FrameError::MissingEntity));
    assert_eq!(rotation_of(&game, "shot1"), 135_000);
    assert!(game.pending_labels().is_empty());
    assert_eq!(game.dispatch(&Vec::new()), Ok(0));
}

#[test]
fn dispatch_handles_events_in_order() {
    let mut game = arena(1);
    game.tick(150);
    assert_eq!(game.fire(0, 0, 45_000), Some(1));
    let events = vec![touching("shot1", "wall_left"), touching("shot1", "wall_top")];
    assert_eq!(game.dispatch(&events), Ok(2));
    assert_eq!(rotation_of(&game, "shot1"), bounce(bounce(45_000, 90_000), 0));
    assert_eq!(rotation_of(&game, "shot1"), 225_000);
}

#[test]
fn nothing_is_pending_when_a_frame_has_ended() {
    let mut game = arena(3);
    for frame in 0..6u32 {
        assert!(game.pending_labels().is_empty());
        game.tick(150);
        assert_eq!(game.steer(Input { fire: true, ..idle() }).is_ok(), true);
        let mut headings = Vec::new();
        for _ in 0..game.len() {
            headings.push(Heading { cos_ppm: 0, sin_ppm: -1_000_000 });
        }
        assert!(game.advance(900, &headings));
        if frame == 1 {
            assert_eq!(game.find("shot1"), None);
            assert_eq!(game.dispatch(&vec![touching("shot2", "brick_1")]), Ok(1));
            assert_eq!(
                game.pending_labels(),
                vec!["brick_1".to_string(), "shot2".to_string()]
            );
        }
        game.finish_frame();
        assert!(game.pending_labels().is_empty());
        for at in 0..game.len() {
            assert!(!game.entity(at).unwrap().doomed);
        }
    }
}

#[test]
fn counters_count_the_registry_in_every_frame() {
    let mut game = arena(4);
    let mut bricks_before = game.bricks_left();
    for frame in 0..12u32 {
        game.tick(100);
        assert!(game.steer(Input { fire: true, left: frame % 2 == 0, ..idle() }).is_ok());
        assert_eq!(game.active_shots(), count_kind(&game, Kind::Projectile));
        assert_eq!(game.bricks_left(), count_kind(&game, Kind::Brick));
        let mut headings = Vec::new();
        for _ in 0..game.len() {
            headings.push(Heading { cos_ppm: 0, sin_ppm: -1_000_000 });
        }
        assert!(game.advance(250, &headings));
        if frame == 3 && game.find("shot1").is_some() {
            assert_eq!(game.dispatch(&vec![touching("brick_0", "shot1")]), Ok(1));
        }
        assert_eq!(game.active_shots(), count_kind(&game, Kind::Projectile));
        game.finish_frame();
        assert_eq!(game.active_shots(), count_kind(&game, Kind::Projectile));
        assert_eq!(game.bricks_left(), count_kind(&game, Kind::Brick));
        assert!(game.bricks_left() <= bricks_before);
        bricks_before = game.bricks_left();
        for at in 0..game.len() {
            let rotation = game.entity(at).unwrap().rotation;
            assert!(0 <= rotation && rotation < FULL_TURN);
        }
    }
    assert_eq!(game.bricks_left(), 1);
    assert_eq!(game.shot_counter(), 4);
    assert_eq!(game.ammo(), 0);
}

#[test]
fn steering_without_a_player_is_an_error() {
    let mut game = Game::new(1, 0, 0);
    assert!(game.insert("brick_0".to_string(), 0, 0, 0));
    assert_eq!(game.steer(idle()), Err(FrameError::MissingEntity));
    assert_eq!(
        game.steer_with(Input { fire: true, ..idle() }, 45_000),
        Err(FrameError::MissingEntity)
    );
    assert_eq!(game.ammo(), 1);
    assert_eq!(game.len(), 1);
}

#[test]
fn player_steps_left_and_right() {
    let mut game = arena(1);
    assert_eq!(game.steer(Input { left: true, ..idle() }), Ok(None));
    assert_eq!(position_of(&game, "player"), (-300 * UNIT - PLAYER_STEP, -300 * UNIT));
    assert_eq!(game.steer(Input { right: true, ..idle() }), Ok(None));
    assert_eq!(game.steer(Input { right: true, ..idle() }), Ok(None));
    assert_eq!(position_of(&game, "player"), (-292 * UNIT, -300 * UNIT));
    assert_eq!(game.steer(Input { left: true, right: true, tilt_left: true, ..idle() }), Ok(None));
    assert_eq!(position_of(&game, "player"), (-300 * UNIT, -300 * UNIT));
    assert_eq!(game.steer(idle()), Ok(None));
    assert_eq!(position_of(&game, "player"), (-300 * UNIT, -300 * UNIT));
}

#[test]
fn fire_key_comes_first_when_a_shot_is_granted() {
    let mut game = arena(1);
    let input = Input { fire: true, left: true, ..idle() };
    assert_eq!(game.steer_with(input, 70_000), Ok(None));
    assert_eq!(position_of(&game, "player"), (-308 * UNIT, -300 * UNIT));
    game.tick(150);
    assert_eq!(game.steer_with(input, 70_000), Ok(Some(1)));
    assert_eq!(position_of(&game, "player"), (-308 * UNIT, -300 * UNIT));
    assert_eq!(position_of(&game, "shot1"), (-308 * UNIT, -300 * UNIT + MUZZLE_OFFSET));
    assert_eq!(rotation_of(&game, "shot1"), 70_000);
    assert_eq!(game.ammo(), 0);
    assert_eq!(game.active_shots(), 1);
    game.tick(150);
    assert_eq!(game.steer_with(input, 70_000), Ok(None));
    assert_eq!(position_of(&game, "player"), (-316 * UNIT, -300 * UNIT));
    assert_eq!(game.shot_counter(), 1);
}

#[test]
fn steer_fires_at_a_random_angle_of_the_launch_range() {
    let mut game = arena(50);
    for round in 1..=50u32 {
        game.tick(150);
        assert_eq!(game.steer(Input { fire: true, ..idle() }), Ok(Some(round)));
        let rotation = rotation_of(&game, &format!("shot{}", round));
        assert!(LAUNCH_MIN <= rotation && rotation < LAUNCH_MAX);
    }
}

#[test]
fn tilt_lasts_until_its_timer_has_finished() {
    let mut game = arena(0);
    assert_eq!(game.steer(Input { tilt_left: true, ..idle() }), Ok(None));
    assert_eq!(rotation_of(&game, "player"), 0);
    game.tick(50);
    assert_eq!(game.steer(Input { tilt_left: true, ..idle() }), Ok(None));
    assert_eq!(rotation_of(&game, "player"), TILT_LEFT);
    game.tick(49);
    assert_eq!(game.steer(Input { tilt_right: true, ..idle() }), Ok(None));
    assert_eq!(rotation_of(&game, "player"), TILT_LEFT);
    game.tick(1);
    assert_eq!(game.steer(Input { tilt_right: true, ..idle() }), Ok(None));
    assert_eq!(rotation_of(&game, "player"), TILT_RIGHT);
    game.tick(50);
    assert_eq!(game.steer(idle()), Ok(None));
    assert_eq!(rotation_of(&game, "player"), 0);
    game.tick(50);
    assert_eq!(
        game.steer(Input { tilt_left: true, tilt_right: true, ..idle() }),
        Ok(None)
    );
    assert_eq!(rotation_of(&game, "player"), TILT_LEFT);
}

#[test]
fn pending_labels_come_in_registry_order() {
    let mut game = arena(2);
    game.tick(150);
    assert_eq!(game.fire(0, LOWER_BOUND - 1, 45_000), Some(1));
    assert!(game.advance(0, &still(7)));
    assert_eq!(game.collide(&touching("shot1", "brick_1")), Ok(true));
    assert_eq!(game.collide(&touching("shot1", "brick_0")), Ok(true));
    assert_eq!(
        game.pending_labels(),
        vec!["brick_0".to_string(), "brick_1".to_string(), "shot1".to_string()]
    );
    assert_eq!(game.finish_frame(), Outcome::Won);
    assert_eq!(game.len(), 4);
    assert_eq!(game.active_shots(), 0);
    assert_eq!(game.bricks_left(), 0);
}
