//! Side-effect events a tick hands back to its caller: sounds to play, the
//! game-over signal, and the request to quit. The core never performs these
//! effects itself; the embedding drains the list after each tick.

use vstd::prelude::*;

verus! {

/// A sound effect to play, one variant per asset the game uses. A bounce
/// picks one of the two plucks by coin flip; a death plays the explosion; a
/// collected star plays the laser.
#[derive(Clone, Copy, PartialEq, Eq, Structural, Debug)]
pub enum Sound {
    PluckA,
    PluckB,
    Explosion,
    Laser,
}

/// The player was hit: the session ended with this final score.
#[derive(Clone, Copy, PartialEq, Eq, Structural, Debug)]
pub struct GameOver {
    pub score: u32,
}

/// One side effect requested by the simulation during a tick.
#[derive(Clone, Copy, PartialEq, Eq, Structural, Debug)]
pub enum GameEvent {
    /// Play this sound.
    Sound(Sound),
    /// The player died with this score.
    GameOver(GameOver),
    /// The player asked to quit the program.
    ExitRequested,
}

/// Whether an event is one of the two bounce sounds.
pub open spec fn is_bounce_sound(e: GameEvent) -> bool {
    e == GameEvent::Sound(Sound::PluckA) || e == GameEvent::Sound(Sound::PluckB)
}

/// Whether an event is the star-collection sound.
pub open spec fn is_collect_sound(e: GameEvent) -> bool {
    e == GameEvent::Sound(Sound::Laser)
}

/// Whether an event is the game-over signal, with any score.
pub open spec fn is_game_over(e: GameEvent) -> bool {
    e is GameOver
}

/// Whether an event is the quit request.
pub open spec fn is_exit(e: GameEvent) -> bool {
    e is ExitRequested
}

/// The collection-sound predicate, as a value for filtering.
pub open spec fn collect_pred() -> spec_fn(GameEvent) -> bool {
    |e: GameEvent| is_collect_sound(e)
}

/// How many collection sounds an event list holds: one per star collected.
pub open spec fn count_collect_sounds(es: Seq<GameEvent>) -> int {
    es.filter(collect_pred()).len() as int
}

/// The bounce-sound predicate, as a value for filtering.
pub open spec fn bounce_pred() -> spec_fn(GameEvent) -> bool {
    |e: GameEvent| is_bounce_sound(e)
}

/// How many bounce sounds an event list holds: one per enemy that turned.
pub open spec fn count_bounce_sounds(es: Seq<GameEvent>) -> int {
    es.filter(bounce_pred()).len() as int
}

/// Whether an event list announces a game over.
pub open spec fn has_game_over(es: Seq<GameEvent>) -> bool {
    exists|k: int| 0 <= k < es.len() && is_game_over(#[trigger] es[k])
}

} // verus!
