use zweiton::held::note_changes;

#[test]
fn changes_start_new_and_stop_old() {
    let (start, stop) = note_changes(&[60, 64, 67], &[64, 67, 72]);
    assert_eq!(start, vec![72]);
    assert_eq!(stop, vec![60]);
}

#[test]
fn no_change_when_equal() {
    let (start, stop) = note_changes(&[60, 64], &[64, 60]);
    assert!(start.is_empty() && stop.is_empty());
}

#[test]
fn from_and_to_silence() {
    assert_eq!(note_changes(&[], &[61, 62]), (vec![61, 62], vec![]));
    assert_eq!(note_changes(&[61, 62], &[]), (vec![], vec![61, 62]));
}
