//! Entity labels and what they say about the entity that carries them.

use vstd::prelude::*;

verus! {

/// What an entity is, as told by its label.
#[derive(Clone, Copy, Debug, PartialEq, Eq, Structural)]
pub enum Kind {
    /// The player's paddle, labelled `player`.
    Player,
    /// A permanent reflector; its label starts with `wall`.
    Wall,
    /// A destructible reflector; its label starts with `brick`.
    Brick,
    /// A shot fired by the player; its label starts with `shot`.
    Projectile,
    /// Anything else.
    Other,
}

/// Whether `needle` occurs somewhere in `text`.
pub open spec fn occurs_in(needle: Seq<char>, text: Seq<char>) -> bool {
    exists|at: int|
        0 <= at && at + needle.len() <= text.len() && #[trigger] text.subrange(
            at,
            at + needle.len(),
        ) == needle
}

/// Whether a label names a projectile.
pub open spec fn is_shot_label(label: Seq<char>) -> bool {
    "shot"@.is_prefix_of(label)
}

/// Whether a label carries the bonus marker.
pub open spec fn is_bonus_label(label: Seq<char>) -> bool {
    occurs_in("bonus"@, label)
}

/// The kind that a label stands for.
pub open spec fn kind_of(label: Seq<char>) -> Kind {
    if is_shot_label(label) {
        Kind::Projectile
    } else if "brick"@.is_prefix_of(label) {
        Kind::Brick
    } else if "wall"@.is_prefix_of(label) {
        Kind::Wall
    } else if label == "player"@ {
        Kind::Player
    } else {
        Kind::Other
    }
}

/// The digit character for a value below ten.
pub open spec fn digit(value: nat) -> char {
    if value == 0 {
        '0'
    } else if value == 1 {
        '1'
    } else if value == 2 {
        '2'
    } else if value == 3 {
        '3'
    } else if value == 4 {
        '4'
    } else if value == 5 {
        '5'
    } else if value == 6 {
        '6'
    } else if value == 7 {
        '7'
    } else if value == 8 {
        '8'
    } else {
        '9'
    }
}

/// A number written in decimal, without leading zeros.
pub open spec fn decimal(value: nat) -> Seq<char>
    decreases value,
{
    if value < 10 {
        seq![digit(value)]
    } else {
        decimal(value / 10).push(digit(value % 10))
    }
}

/// The label of the projectile with the given sequence number.
pub open spec fn shot_label_of(sequence: nat) -> Seq<char> {
    "shot"@ + decimal(sequence)
}

/// `str::starts_with` of the standard library, for a string pattern: whether
/// the characters of `prefix` are the first characters of `text`.
#[verifier::external_body]
fn starts_with(text: &str, prefix: &str) -> (found: bool)
    ensures
        found == prefix@.is_prefix_of(text@),
{
    text.starts_with(prefix)
}

/// `str::contains` of the standard library, for a string pattern: whether
/// the characters of `needle` stand somewhere in `text`, one after the other.
#[verifier::external_body]
fn contains(text: &str, needle: &str) -> (found: bool)
    ensures
        found == occurs_in(needle@, text@),
{
    text.contains(needle)
}

/// `str::eq` of the standard library: whether two string slices hold the
/// same characters.
#[verifier::external_body]
pub(crate) fn same_text(left: &str, right: &str) -> (same: bool)
    ensures
        same == (left@ == right@),
{
    left == right
}

/// The standard library's decimal formatting of a `u32` behind the word
/// `shot`: the digits come without sign, padding or leading zeros.
#[verifier::external_body]
fn format_shot_label(sequence: u32) -> (label: String)
    ensures
        label@ == shot_label_of(sequence as nat),
{
    format!("shot{}", sequence)
}

/// Whether the label names a projectile.
pub fn is_shot(label: &str) -> (shot: bool)
    ensures
        shot == is_shot_label(label@),
{
    starts_with(label, "shot")
}

/// Whether the label carries the bonus marker.
pub fn is_bonus(label: &str) -> (bonus: bool)
    ensures
        bonus == is_bonus_label(label@),
{
    contains(label, "bonus")
}

/// Tells from a label what kind of entity carries it.
pub fn classify(label: &str) -> (kind: Kind)
    ensures
        kind == kind_of(label@),
{
    if starts_with(label, "shot") {
        Kind::Projectile
    } else if starts_with(label, "brick") {
        Kind::Brick
    } else if starts_with(label, "wall") {
        Kind::Wall
    } else if same_text(label, "player") {
        Kind::Player
    } else {
        Kind::Other
    }
}

/// Builds the label of the projectile with the given sequence number.
pub fn shot_label(sequence: u32) -> (label: String)
    ensures
        label@ == shot_label_of(sequence as nat),
        kind_of(label@) == Kind::Projectile,
{
    let label = format_shot_label(sequence);
    proof {
        lemma_shot_labels_are_shots(sequence as nat);
    }
    label
}

/// Every projectile label names a projectile.
pub proof fn lemma_shot_labels_are_shots(sequence: nat)
    ensures
        is_shot_label(shot_label_of(sequence)),
        kind_of(shot_label_of(sequence)) == Kind::Projectile,
{
    let label = shot_label_of(sequence);
    assert(label.subrange(0, "shot"@.len() as int) =~= "shot"@);
}

} // verus!
