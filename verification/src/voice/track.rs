//! Tracks: where audio comes from, and whether it plays.

use vstd::prelude::*;

verus! {

/// Where the audio of a track comes from.
pub trait AudioSource: Send {
    /// Read exactly 20ms of PCM data (960 samples per channel, stereo = 1920 i16s).
    fn read_frame(&mut self) -> Option<Vec<i16>>;
}

/// Whether a track plays.
#[derive(Debug, Clone, Copy, PartialEq, Eq, Structural)]
pub enum PlayState {
    Playing,
    Paused,
    Stopped,
}

impl PlayState {
    /// The number that stands for the state in an atomic cell.
    pub open spec fn number(self) -> u8 {
        match self {
            PlayState::Playing => 0,
            PlayState::Paused => 1,
            PlayState::Stopped => 2,
        }
    }

    /// The number that stands for the state in an atomic cell.
    pub fn to_u8(&self) -> (n: u8)
        ensures
            n == self.number(),
    {
        match self {
            PlayState::Playing => 0,
            PlayState::Paused => 1,
            PlayState::Stopped => 2,
        }
    }

    /// The state that a number stands for. A number that stands for none counts
    /// as stopped.
    pub fn from_u8(n: u8) -> (state: PlayState)
        ensures
            n <= 2 ==> state.number() == n,
            n > 2 ==> state is Stopped,
    {
        match n {
            0 => PlayState::Playing,
            1 => PlayState::Paused,
            _ => PlayState::Stopped,
        }
    }

    /// A track in this state stays in the mix.
    pub fn stays(&self) -> (b: bool)
        ensures
            b == !(self is Stopped),
    {
        match self {
            PlayState::Playing | PlayState::Paused => true,
            PlayState::Stopped => false,
        }
    }
}

/// What came of asking a playing track for audio.
#[derive(Debug, Clone, Copy, PartialEq, Eq, Structural)]
pub enum TrackRead {
    /// A frame.
    Frame,
    /// Nothing: the source is at its end.
    End,
    /// Nothing yet: the track is in use elsewhere.
    Busy,
}

/// What a tick means for a track.
#[derive(Debug, Clone, Copy, PartialEq, Eq, Structural)]
pub struct TrackStep {
    /// The state afterwards.
    pub state: PlayState,
    /// The track counts as active.
    pub active: bool,
    /// The track has just ended.
    pub ended: bool,
}

/// What a tick means for a track that was asked for audio: it stops at the end
/// of its source, and counts as active otherwise.
pub fn after_read(state: PlayState, read: TrackRead) -> (step: TrackStep)
    ensures
        step == if read is End {
            TrackStep { state: PlayState::Stopped, active: false, ended: true }
        } else {
            TrackStep { state, active: true, ended: false }
        },
{
    match read {
        TrackRead::End => TrackStep { state: PlayState::Stopped, active: false, ended: true },
        TrackRead::Frame | TrackRead::Busy => TrackStep { state, active: true, ended: false },
    }
}

/// Playing, paused and stopped are the numbers 0, 1 and 2, and are read back from
/// them; any other number is read as stopped.
pub proof fn play_states_are_read_back(state: PlayState, n: u8, any: u8, found: PlayState)
    requires
        call_ensures(PlayState::to_u8, (&state,), n),
        call_ensures(PlayState::from_u8, (any,), found),
    ensures
        n == 0 <==> state == PlayState::Playing,
        n == 1 <==> state == PlayState::Paused,
        n == 2 <==> state == PlayState::Stopped,
        any == n ==> found == state,
        any > 2 ==> found == PlayState::Stopped,
{
}

/// A track that has come to the end of its source is stopped, says so once, and
/// leaves the mix. Any other keeps its state, counts as active, and stays unless
/// it was stopped.
pub proof fn tracks_end_with_their_source(
    state: PlayState,
    read: TrackRead,
    step: TrackStep,
    stays: bool,
)
    requires
        call_ensures(after_read, (state, read), step),
        call_ensures(PlayState::stays, (&step.state,), stays),
    ensures
        read == TrackRead::End <==> step.ended,
        step.active <==> read != TrackRead::End,
        read == TrackRead::End ==> step.state == PlayState::Stopped && !stays,
        read != TrackRead::End ==> step.state == state && (stays <==> state
            == PlayState::Playing || state == PlayState::Paused),
{
}

} // verus!
