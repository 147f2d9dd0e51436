//! Angles as whole numbers of millidegrees, and the reflection of a
//! projectile's heading off a surface.

use vstd::prelude::*;

verus! {

/// Half a turn (the angle pi), in millidegrees.
pub const HALF_TURN: i64 = 180_000;

/// A full turn (the angle two pi), in millidegrees.
pub const FULL_TURN: i64 = 360_000;

/// The largest magnitude of an angle that can be reflected without leaving
/// the range of the machine integers.
pub const ANGLE_LIMIT: i64 = 1_000_000_000_000_000;

/// The heading of a projectile after it strikes a surface: a heading below
/// half a turn is mirrored about the surface, one above half a turn is
/// mirrored about the surface turned by half a turn, and a heading of exactly
/// half a turn is flipped.
pub open spec fn reflected(shot: int, surface: int) -> int {
    if shot < HALF_TURN {
        2 * surface - shot
    } else if shot > HALF_TURN {
        2 * (HALF_TURN + surface) - shot
    } else {
        shot + HALF_TURN
    }
}

/// The angle in `[0, FULL_TURN)` that points the same way as `angle`.
pub open spec fn normalized(angle: int) -> int {
    angle % (FULL_TURN as int)
}

/// A reflection followed by normalisation: what a projectile's stored heading
/// becomes on impact.
pub open spec fn bounced(shot: int, surface: int) -> int {
    normalized(reflected(shot, surface))
}

/// Whether `angle` can be handed to [`reflect`].
pub open spec fn reflectable(angle: int) -> bool {
    -ANGLE_LIMIT <= angle <= ANGLE_LIMIT
}

/// Computes the outgoing heading of a projectile with heading `shot` that
/// struck a surface at angle `surface`. The result is not normalised.
pub fn reflect(shot: i64, surface: i64) -> (out: i64)
    requires
        reflectable(shot as int),
        reflectable(surface as int),
    ensures
        out == reflected(shot as int, surface as int),
{
    if shot < HALF_TURN {
        2 * surface - shot
    } else if shot > HALF_TURN {
        2 * (HALF_TURN + surface) - shot
    } else {
        shot + HALF_TURN
    }
}

/// Brings any angle into `[0, FULL_TURN)`.
pub fn normalize(angle: i64) -> (out: i64)
    ensures
        out == normalized(angle as int),
        0 <= out < FULL_TURN,
{
    let r: i64 = angle % FULL_TURN;
    if r < 0 {
        r + FULL_TURN
    } else {
        r
    }
}

/// Reflects and normalises in one step.
pub fn bounce(shot: i64, surface: i64) -> (out: i64)
    requires
        reflectable(shot as int),
        reflectable(surface as int),
    ensures
        out == bounced(shot as int, surface as int),
        0 <= out < FULL_TURN,
{
    normalize(reflect(shot, surface))
}

/// Reflecting twice off a flat surface (angle zero) gives back a heading that
/// points the same way as the first, for every heading other than plus or
/// minus half a turn; for headings strictly within half a turn of zero it
/// gives back that very heading.
pub proof fn lemma_flat_reflection_involutive(shot: int)
    requires
        shot != HALF_TURN,
        shot != -HALF_TURN,
    ensures
        normalized(reflected(reflected(shot, 0), 0)) == normalized(shot),
        -HALF_TURN < shot < HALF_TURN ==> reflected(reflected(shot, 0), 0) == shot,
{
    let twice = reflected(reflected(shot, 0), 0);
    if twice != shot {
        if shot < HALF_TURN {
            assert(twice == shot + FULL_TURN);
        } else {
            assert(twice == shot - FULL_TURN);
        }
        lemma_full_turn_shift(shot);
    }
}

/// Bouncing twice off a flat surface gives back the heading it began with,
/// for every normalised heading other than half a turn.
pub proof fn lemma_flat_bounce_involutive(shot: int)
    requires
        0 <= shot < FULL_TURN,
        shot != HALF_TURN,
    ensures
        bounced(bounced(shot, 0), 0) == shot,
{
}

/// A heading of exactly half a turn is flipped to a full turn, whatever the
/// surface.
pub proof fn lemma_half_turn_flips(surface: int)
    ensures
        reflected(HALF_TURN as int, surface) == FULL_TURN,
        bounced(HALF_TURN as int, surface) == 0,
{
}

/// Adding or taking away a full turn does not change where an angle points.
pub proof fn lemma_full_turn_shift(angle: int)
    ensures
        normalized(angle + FULL_TURN) == normalized(angle),
        normalized(angle - FULL_TURN) == normalized(angle),
{
    vstd::arithmetic::div_mod::lemma_mod_add_multiples_vanish(angle, FULL_TURN as int);
    vstd::arithmetic::div_mod::lemma_mod_sub_multiples_vanish(angle, FULL_TURN as int);
}

} // verus!
