//! Which sounds a collision makes.
use vstd::prelude::*;
use crate::chance::choice_below;

verus! {

/// The first entity of a colliding pair is heard: it has a sound, and the other
/// has none or none of a higher priority.
pub open spec fn first_is_heard(first: Option<i32>, second: Option<i32>) -> bool {
    match (first, second) {
        (Some(a), Some(b)) => a >= b,
        (Some(_), None) => true,
        (None, _) => false,
    }
}

/// Of two entities that collide, each with the priority of its collision sound if
/// it has one, says which are heard: the one of the higher priority, and both
/// where the priorities are equal.
pub fn collision_sounds(first: Option<i32>, second: Option<i32>) -> (r: (bool, bool))
    ensures
        r.0 == first_is_heard(first, second),
        r.1 == first_is_heard(second, first),
{
    match (first, second) {
        (Some(a), Some(b)) => {
            if a == b {
                (true, true)
            } else if a > b {
                (true, false)
            } else {
                (false, true)
            }
        },
        (Some(_), None) => (true, false),
        (None, Some(_)) => (false, true),
        (None, None) => (false, false),
    }
}

/// What an entity has to offer as its collision sound.
#[derive(Clone, Copy, Debug, PartialEq, Eq, Structural)]
pub enum SoundType {
    /// No sound.
    Silent,
    /// One sound.
    Single,
    /// One of so many sounds, left to chance.
    Random(usize),
}

/// The sound to play for a collision.
#[derive(Clone, Copy, Debug, PartialEq, Eq, Structural)]
pub struct Playback {
    /// Which of the offered sounds is played.
    pub index: usize,
    /// Whether it is played at the entity's own volume.
    pub with_volume: bool,
}

/// The playback is one that the offer allows: a single sound is played as it is,
/// one of several at the entity's volume, and where nothing is offered nothing
/// is played.
pub open spec fn allowed(sound: SoundType, playback: Option<Playback>) -> bool {
    match sound {
        SoundType::Silent => playback.is_none(),
        SoundType::Single => playback == Some(Playback { index: 0, with_volume: false }),
        SoundType::Random(count) => if count == 0 {
            playback.is_none()
        } else {
            playback.is_some() && playback.unwrap().index < count && playback.unwrap().with_volume
        },
    }
}

/// Chooses the sound to play from what an entity offers.
pub fn sound_to_play(sound: SoundType) -> (r: Option<Playback>)
    ensures
        allowed(sound, r),
{
    match sound {
        SoundType::Silent => None,
        SoundType::Single => Some(Playback { index: 0, with_volume: false }),
        SoundType::Random(count) => match choice_below(count) {
            Some(index) => Some(Playback { index, with_volume: true }),
            None => None,
        },
    }
}

} // verus!
