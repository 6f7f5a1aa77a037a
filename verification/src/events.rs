//! What a note message from a plugin host does to the voices.
use vstd::prelude::*;

use crate::voices::{silenced, VoiceSlot};

verus! {

/// A note message from the host, reduced to what the synthesizer reads of it.
#[derive(Clone, Copy, Debug, PartialEq, Eq, Structural)]
pub enum NoteMessage {
    /// A key went down (MIDI note number).
    NoteOn(u8),
    /// A key went up.
    NoteOff(u8),
    /// The host cuts a note short; `None` stands for every note at once.
    Choke(Option<u8>),
    /// Anything else (pressure, expression, ...).
    Other,
}

/// What the engine does for a note message.
#[derive(Clone, Copy, Debug, PartialEq, Eq, Structural)]
pub enum VoiceAction {
    /// Start a voice for the MIDI note.
    Start(u8),
    /// Release the voices of the MIDI note.
    Release(u8),
    /// Silence every voice (the panic).
    SilenceAll,
    /// Leave the voices as they are.
    Nothing,
}

/// The action of a message: a key down starts its note, a key up or the choke of one note
/// releases it, the choke of every note silences all voices, and other messages do nothing.
pub open spec fn action_of(m: NoteMessage) -> VoiceAction {
    match m {
        NoteMessage::NoteOn(n) => VoiceAction::Start(n),
        NoteMessage::NoteOff(n) => VoiceAction::Release(n),
        NoteMessage::Choke(Some(n)) => VoiceAction::Release(n),
        NoteMessage::Choke(None) => VoiceAction::SilenceAll,
        NoteMessage::Other => VoiceAction::Nothing,
    }
}

/// The action for a note message; see `action_of`.
pub fn action_for(m: NoteMessage) -> (r: VoiceAction)
    ensures
        r == action_of(m),
{
    match m {
        NoteMessage::NoteOn(n) => VoiceAction::Start(n),
        NoteMessage::NoteOff(n) => VoiceAction::Release(n),
        NoteMessage::Choke(Some(n)) => VoiceAction::Release(n),
        NoteMessage::Choke(None) => VoiceAction::SilenceAll,
        NoteMessage::Other => VoiceAction::Nothing,
    }
}

/// A choke of every note leaves no voice sounding and no voice holding a note.
pub proof fn choke_all_silences(s: Seq<VoiceSlot>, separate: bool)
    ensures
        action_of(NoteMessage::Choke(None)) == VoiceAction::SilenceAll,
        forall|i: int| 0 <= i < s.len() ==> !(#[trigger] silenced(s)[i]).live(separate),
{
}

/// Choking one note acts on the voices exactly as releasing it does.
pub proof fn choke_one_is_release(n: u8)
    ensures
        action_of(NoteMessage::Choke(Some(n))) == action_of(NoteMessage::NoteOff(n)),
{
}

} // verus!
