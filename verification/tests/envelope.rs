use zweiton::env::Stage;

const ALL: [Stage; 5] = [Stage::Idle, Stage::Attack, Stage::Decay, Stage::Sustain, Stage::Release];

#[test]
fn key_press_always_attacks() {
    for s in ALL {
        assert_eq!(s.note_on(), Stage::Attack);
        assert!(s.note_on().is_active());
    }
}

#[test]
fn key_release_goes_to_release_unless_idle() {
    assert_eq!(Stage::Idle.note_off(), Stage::Idle);
    for s in [Stage::Attack, Stage::Decay, Stage::Sustain, Stage::Release] {
        assert_eq!(s.note_off(), Stage::Release);
    }
}

#[test]
fn ticks_move_stages_forward_when_reached() {
    assert_eq!(Stage::Attack.after_tick(true), Stage::Decay);
    assert_eq!(Stage::Decay.after_tick(true), Stage::Sustain);
    assert_eq!(Stage::Release.after_tick(true), Stage::Idle);
    assert_eq!(Stage::Sustain.after_tick(true), Stage::Sustain);
    assert_eq!(Stage::Idle.after_tick(true), Stage::Idle);
    for s in ALL {
        assert_eq!(s.after_tick(false), s);
    }
}

#[test]
fn idle_is_the_only_silent_stage() {
    assert!(!Stage::Idle.is_active());
    assert_eq!(Stage::default(), Stage::Idle);
    for s in [Stage::Attack, Stage::Decay, Stage::Sustain, Stage::Release] {
        assert!(s.is_active());
    }
}

#[test]
fn released_envelope_never_sounds_again_without_key() {
    let mut s = Stage::Sustain.note_off();
    for reached in [false, true, false, true] {
        s = s.after_tick(reached).note_off();
        assert!(s == Stage::Release || s == Stage::Idle);
    }
    assert_eq!(s, Stage::Idle);
}
