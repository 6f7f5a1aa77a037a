use zweiton::env::Stage;
use zweiton::voices::{VoiceBank, VoiceSlot, MAX_VOICES};

fn slots(bank: &VoiceBank) -> Vec<VoiceSlot> {
    (0..bank.voice_count()).map(|i| bank.voice(i)).collect()
}

#[test]
fn new_bank_has_eight_silent_voices() {
    let bank = VoiceBank::new();
    assert_eq!(bank.voice_count(), MAX_VOICES);
    assert_eq!(MAX_VOICES, 8);
    for slot in slots(&bank) {
        assert_eq!(slot, VoiceSlot { note: None, env_a: Stage::Idle, env_b: Stage::Idle });
    }
    assert!(!bank.is_active(false));
    assert!(!bank.is_active(true));
}

#[test]
fn keys_take_free_voices_in_order() {
    let mut bank = VoiceBank::new();
    assert_eq!(bank.start(Some(60), false), 0);
    assert_eq!(bank.start(Some(64), false), 1);
    assert_eq!(bank.start(Some(67), false), 2);
    assert_eq!(bank.voice(1), VoiceSlot { note: Some(64), env_a: Stage::Attack, env_b: Stage::Attack });
    assert!(bank.is_active(false));
}

#[test]
fn same_note_reuses_its_voice() {
    let mut bank = VoiceBank::new();
    bank.start(Some(60), false);
    bank.start(Some(62), false);
    assert_eq!(bank.allocate(Some(62), false), 1);
    assert_eq!(bank.start(Some(62), false), 1);
    let notes: Vec<Option<u8>> = slots(&bank).iter().map(|s| s.note).collect();
    assert_eq!(notes.iter().filter(|n| **n == Some(62)).count(), 1);
}

#[test]
fn ninth_key_steals_voice_zero() {
    let mut bank = VoiceBank::new();
    for (i, note) in (60u8..68).enumerate() {
        assert_eq!(bank.start(Some(note), false), i);
    }
    assert_eq!(bank.start(Some(90), false), 0);
    assert_eq!(bank.voice(0).note, Some(90));
}

#[test]
fn release_note_reaches_only_that_voice() {
    let mut bank = VoiceBank::new();
    bank.start(Some(60), false);
    bank.start(Some(64), false);
    bank.release_note(64);
    assert_eq!(bank.voice(1).env_a, Stage::Release);
    assert_eq!(bank.voice(1).env_b, Stage::Release);
    assert_eq!(bank.voice(0).env_a, Stage::Attack);
    bank.release_note(99);
    assert_eq!(bank.voice(0).env_a, Stage::Attack);
}

#[test]
fn free_note_release_spares_midi_voices() {
    let mut bank = VoiceBank::new();
    assert_eq!(bank.start(None, false), 0);
    bank.start(Some(60), false);
    bank.release_untagged(false);
    assert_eq!(bank.voice(0).env_a, Stage::Release);
    assert_eq!(bank.voice(1).env_a, Stage::Attack);
}

#[test]
fn panic_silences_every_voice() {
    let mut bank = VoiceBank::new();
    bank.start(Some(60), true);
    bank.start(None, true);
    bank.start(Some(72), true);
    bank.silence();
    assert!(!bank.is_active(true));
    assert!(!bank.is_active(false));
    for slot in slots(&bank) {
        assert_eq!(slot.note, None);
    }
}

#[test]
fn quiet_voices_lose_their_notes_and_are_reused() {
    let mut bank = VoiceBank::new();
    bank.start(Some(60), false);
    bank.start(Some(64), false);
    bank.release_note(60);
    // Voice 0 reaches silence.
    bank.tick(0, true, true);
    assert_eq!(bank.voice(0).env_a, Stage::Idle);
    assert_eq!(bank.voice(0).note, Some(60));
    bank.retire_silent(false);
    assert_eq!(bank.voice(0).note, None);
    assert_eq!(bank.voice(1).note, Some(64));
    assert_eq!(bank.start(Some(67), false), 0);
}

#[test]
fn separate_envelope_keeps_voice_live() {
    let mut bank = VoiceBank::new();
    bank.start(Some(60), true);
    bank.release_note(60);
    bank.tick(0, true, false);
    let slot = bank.voice(0);
    assert_eq!(slot.env_a, Stage::Idle);
    assert_eq!(slot.env_b, Stage::Release);
    assert!(slot.is_live(true));
    assert!(!slot.is_live(false));
    assert!(bank.is_active(true));
    assert!(!bank.is_active(false));
    assert_eq!(bank.allocate(Some(70), true), 1);
    assert_eq!(bank.allocate(Some(70), false), 0);
}

#[test]
fn envelope_stages_follow_ticks() {
    let mut bank = VoiceBank::new();
    bank.start(None, false);
    bank.tick(0, false, false);
    assert_eq!(bank.voice(0).env_a, Stage::Attack);
    bank.tick(0, true, false);
    assert_eq!(bank.voice(0).env_a, Stage::Decay);
    assert_eq!(bank.voice(0).env_b, Stage::Attack);
    bank.tick(0, true, true);
    assert_eq!(bank.voice(0).env_a, Stage::Sustain);
    assert_eq!(bank.voice(0).env_b, Stage::Decay);
}
