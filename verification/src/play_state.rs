//! What the deck is doing, as one answer.
//!
//! The status word in the header and the transport's pill both read this, so
//! the two can only ever say the same thing.

use vstd::prelude::*;

use crate::state::Deck;

verus! {

/// The three states a deck can be in, as the screen has to draw them.
#[derive(Debug, Clone, Copy, PartialEq, Eq, Structural)]
pub enum PlayState {
    /// Sound is coming out.
    Playing,
    /// Asked for and not heard yet.
    Loading,
    /// Loaded and quiet.
    Paused,
}

/// What is making sound, and whether it is.
#[derive(Debug, Clone, Copy)]
pub struct Status {
    /// Which source the answer is about.
    pub word: &'static str,
    pub state: PlayState,
    /// Whether the audio is ours to judge.
    pub ours: bool,
    /// Whether samples are arriving from the local sink right now.
    pub fresh: bool,
}

/// What the radio transport's right-hand button does.
#[derive(Debug, Clone, Copy, PartialEq, Eq, Structural)]
pub enum RadioForward {
    Nothing,
    /// The next station of what was listened to.
    Next,
    /// Another station of the same country.
    Seek,
}

/// What there is either side of a station.
#[derive(Debug, Clone, Copy, PartialEq, Eq, Structural)]
pub struct RadioSteps {
    pub back: bool,
    pub forward: RadioForward,
}

/// Whether the source on the deck says it is playing. A play that was asked
/// for counts for a record, not for a station.
pub open spec fn claims(d: Deck) -> bool {
    match d.radio {
        Some(r) => r.is_playing,
        None => match d.playback {
            Some(pb) => pb.is_playing || d.pending_play,
            None => false,
        },
    }
}

/// Whether the sound is this machine's to judge.
pub open spec fn judged(d: Deck) -> bool {
    d.pending_play || d.radio is Some || (d.playback matches Some(pb) && pb.is_local_device)
}

/// What the deck is doing.
pub open spec fn play_state(d: Deck) -> PlayState {
    if !claims(d) {
        PlayState::Paused
    } else if judged(d) && !d.tap_fresh {
        PlayState::Loading
    } else {
        PlayState::Playing
    }
}

/// Work out what the deck is doing. `None` when nothing is on it.
///
/// A station is checked first: while one is on, the record under it is kept
/// only so that stopping the stream puts it back.
pub fn status(deck: &Deck) -> (r: Option<Status>)
    ensures
        r is None <==> (deck.radio is None && deck.playback is None),
        r matches Some(s) ==> {
            &&& s.word@ == (if deck.radio is Some { "RADIO"@ } else { "STREAMING"@ })
            &&& s.state == play_state(*deck)
            &&& s.ours == judged(*deck)
            &&& s.fresh == deck.tap_fresh
        },
{
    let switching: bool = deck.pending_play;
    let (word, says): (&'static str, bool) = match (&deck.radio, &deck.playback) {
        (Some(r), _) => ("RADIO", r.is_playing),
        (None, Some(pb)) => ("STREAMING", pb.is_playing || switching),
        (None, None) => return None,
    };
    let local: bool = match &deck.playback {
        Some(pb) => pb.is_local_device,
        None => false,
    };
    let ours: bool = switching || deck.radio.is_some() || local;
    let fresh: bool = deck.tap_fresh;
    let state = match (says, ours && !fresh) {
        (true, true) => PlayState::Loading,
        (true, false) => PlayState::Playing,
        (false, _) => PlayState::Paused,
    };
    Some(Status { word, state, ours, fresh })
}

/// The state to draw a transport in, paused when there is nothing to report.
pub fn or_paused(status: Option<Status>) -> (r: PlayState)
    ensures
        r == (match status {
            Some(s) => s.state,
            None => PlayState::Paused,
        }),
{
    match status {
        Some(s) => s.state,
        None => PlayState::Paused,
    }
}

/// Sound arriving ends the wait, whatever else is believed.
pub proof fn audio_ends_loading(d: Deck)
    requires
        d.tap_fresh,
    ensures
        play_state(d) != PlayState::Loading,
{
}

/// A record playing on another device is never read as loading, unless a play
/// was asked for here.
pub proof fn elsewhere_is_never_loading(d: Deck)
    requires
        d.radio is None,
        !d.pending_play,
        d.playback matches Some(pb) && !pb.is_local_device,
    ensures
        play_state(d) != PlayState::Loading,
{
}

/// What does not claim to play is paused.
pub proof fn quiet_is_paused(d: Deck)
    requires
        !claims(d),
    ensures
        play_state(d) == PlayState::Paused,
{
}

/// A play that was asked for over a record is heard or loading, never paused.
pub proof fn an_asked_play_is_never_paused(d: Deck)
    requires
        d.radio is None,
        d.playback is Some,
        d.pending_play,
    ensures
        play_state(d) == (if d.tap_fresh { PlayState::Playing } else { PlayState::Loading }),
{
}

/// What a deck is doing. A station plays where it says so and is heard; a record
/// where it says so or was asked for, and is heard or is not this machine's to
/// hear.
pub proof fn a_deck_plays_what_is_heard(d: Deck)
    ensures
        d.radio matches Some(r) ==> play_state(d) == (if !r.is_playing {
            PlayState::Paused
        } else if d.tap_fresh {
            PlayState::Playing
        } else {
            PlayState::Loading
        }),
        d.radio is None ==> (d.playback matches Some(pb) ==> play_state(d) == (if !pb.is_playing
            && !d.pending_play {
            PlayState::Paused
        } else if d.tap_fresh || !(pb.is_local_device || d.pending_play) {
            PlayState::Playing
        } else {
            PlayState::Loading
        })),
        d.radio is None && d.playback is None ==> play_state(d) == PlayState::Paused,
{
}

} // verus!
