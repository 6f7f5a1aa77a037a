use zweiton::keys::{
    all_piano_keys, lower_row, midi_for_position, notes_held_down, semitone_offset, shift_octave,
    upper_row, waveform_from_function_key, Key, Layout, C4_MIDI,
};
use zweiton::Waveform;

#[test]
fn qwertz_swaps_y_and_z() {
    assert_eq!(Layout::Qwertz.typed_key(Key::Z), Key::Y);
    assert_eq!(Layout::Qwertz.typed_key(Key::Y), Key::Z);
    assert_eq!(Layout::Qwertz.typed_key(Key::Q), Key::Q);
    assert_eq!(Layout::Qwerty.typed_key(Key::Z), Key::Z);
    for k in all_piano_keys() {
        for layout in [Layout::Qwertz, Layout::Qwerty] {
            assert_eq!(layout.position_key(layout.typed_key(k)), k);
        }
    }
}

#[test]
fn semitone_offsets_cover_two_octaves() {
    let keys = all_piano_keys();
    assert_eq!(keys.len(), 25);
    for (i, k) in keys.iter().enumerate() {
        assert_eq!(semitone_offset(*k), Some(i as i32));
    }
    assert_eq!(semitone_offset(Key::F1), None);
}

#[test]
fn midi_for_position_with_octaves() {
    assert_eq!(C4_MIDI, 60);
    assert_eq!(midi_for_position(Key::Z, 0), Some(60));
    assert_eq!(midi_for_position(Key::I, 0), Some(84));
    assert_eq!(midi_for_position(Key::N, 1), Some(81));
    assert_eq!(midi_for_position(Key::Z, -2), Some(36));
    assert_eq!(midi_for_position(Key::Z, -10), Some(36));
    assert_eq!(midi_for_position(Key::I, 3), Some(120));
    assert_eq!(midi_for_position(Key::I, i32::MAX), Some(120));
    assert_eq!(midi_for_position(Key::F2, 0), None);
}

#[test]
fn function_keys_select_waves() {
    assert_eq!(waveform_from_function_key(Key::F1), Some(Waveform::Sine));
    assert_eq!(waveform_from_function_key(Key::F2), Some(Waveform::Square));
    assert_eq!(waveform_from_function_key(Key::F3), Some(Waveform::Saw));
    assert_eq!(waveform_from_function_key(Key::F4), Some(Waveform::Triangle));
    assert_eq!(waveform_from_function_key(Key::Q), None);
}

#[test]
fn rows_and_labels() {
    let lower = lower_row();
    let upper = upper_row();
    assert_eq!(lower[0].label(Layout::Qwerty), "Z C");
    assert_eq!(lower[0].label(Layout::Qwertz), "Y C");
    assert_eq!(upper[9].label(Layout::Qwerty), "Y A");
    assert_eq!(upper[9].label(Layout::Qwertz), "Z A");
    let blacks: Vec<bool> = lower.iter().map(|k| k.black).collect();
    assert_eq!(
        blacks,
        vec![false, true, false, true, false, false, true, false, true, false, true, false]
    );
    assert!(upper[1].black && !upper[12].black);
    assert_eq!(upper[12].key, Key::I);
}

#[test]
fn octave_shift_is_held_in_range() {
    assert_eq!(shift_octave(0, 1), 1);
    assert_eq!(shift_octave(3, 1), 3);
    assert_eq!(shift_octave(-2, -1), -2);
    assert_eq!(shift_octave(1, -1), 0);
}

#[test]
fn held_keys_give_notes() {
    // On QWERTZ the typed key Y plays the position Z, C4.
    assert_eq!(notes_held_down(Layout::Qwertz, 0, &[Key::Y]), vec![60]);
    // The same typed key Y on QWERTY is the top-row A5.
    assert_eq!(notes_held_down(Layout::Qwerty, 0, &[Key::Y]), vec![81]);
    assert_eq!(notes_held_down(Layout::Qwerty, 1, &[Key::I, Key::Z, Key::F1]), vec![72, 96]);
    assert_eq!(notes_held_down(Layout::Qwerty, 0, &[]), Vec::<u8>::new());
}
