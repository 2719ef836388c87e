//! Audio channels and the choice of a free sink.
use vstd::prelude::*;

verus! {

/// The channel a sound plays on.
#[derive(Clone, Copy, Debug, PartialEq, Eq, Structural)]
pub enum AudioType {
    /// Looping or long tracks.
    Music,
    /// Common effects, dropped when every sink is busy.
    Sound,
    /// Interface sounds, which should never be dropped.
    UI,
}

/// How many sinks each channel has.
pub fn sink_count(audio_type: AudioType) -> (r: usize)
    ensures
        r == (match audio_type {
            AudioType::Music => 2usize,
            AudioType::Sound => 16usize,
            AudioType::UI => 4usize,
        }),
{
    match audio_type {
        AudioType::Music => 2,
        AudioType::Sound => 16,
        AudioType::UI => 4,
    }
}

/// The first sink with nothing queued, given which sinks are empty; `None`
/// when all are busy, in which case the sound is dropped.
pub fn first_idle_sink(idle: &Vec<bool>) -> (r: Option<usize>)
    ensures
        r is None <==> forall|i: int| 0 <= i < idle@.len() ==> !idle@[i],
        r matches Some(i) ==> i < idle@.len() && idle@[i as int] && forall|j: int| 0 <= j < i ==> !idle@[j],
{
    let mut i: usize = 0;
    while i < idle.len()
        invariant
            i <= idle@.len(),
            forall|j: int| 0 <= j < i ==> !idle@[j],
        decreases idle@.len() - i,
    {
        if idle[i] {
            return Some(i);
        }
        i += 1;
    }
    None
}

} // verus!
