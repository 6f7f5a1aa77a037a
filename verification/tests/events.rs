use zweiton::events::{action_for, NoteMessage, VoiceAction};

#[test]
fn host_messages_map_to_voice_actions() {
    assert_eq!(action_for(NoteMessage::NoteOn(64)), VoiceAction::Start(64));
    assert_eq!(action_for(NoteMessage::NoteOff(64)), VoiceAction::Release(64));
    assert_eq!(action_for(NoteMessage::Choke(Some(61))), VoiceAction::Release(61));
    assert_eq!(action_for(NoteMessage::Choke(None)), VoiceAction::SilenceAll);
    assert_eq!(action_for(NoteMessage::Other), VoiceAction::Nothing);
}
