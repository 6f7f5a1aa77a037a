use std::str::FromStr;

use zweiton::note::{midi_from_note, parse_i32_chars};
use zweiton::{SynthError, Waveform};

fn midi(name: &str) -> Result<i64, SynthError> {
    midi_from_note(name)
}

#[test]
fn a4_is_440() {
    // A4 is MIDI note 69, the note tuned to 440 Hz.
    assert_eq!(midi("A4"), Ok(69));
}

#[test]
fn c4_is_middle_c() {
    assert_eq!(midi("C4"), Ok(60));
}

#[test]
fn german_h4_is_b4() {
    assert_eq!(midi("H4"), midi("B4"));
    assert_eq!(midi("H4"), Ok(71));
}

#[test]
fn note_accidentals_and_case() {
    assert_eq!(midi("C#5"), Ok(73));
    assert_eq!(midi("C♯5"), Ok(73));
    assert_eq!(midi("Bb3"), Ok(58));
    assert_eq!(midi("bb3"), Ok(58));
    assert_eq!(midi("  a4 \t"), Ok(69));
    assert_eq!(midi("C-1"), Ok(0));
    assert_eq!(midi("G9"), Ok(127));
    assert_eq!(midi("C+4"), Ok(60));
    assert_eq!(midi("E004"), Ok(64));
}

#[test]
fn note_octave_extremes() {
    assert_eq!(midi("C2147483647"), Ok(2147483648i64 * 12));
    assert_eq!(midi("C-2147483648"), Ok(-2147483647i64 * 12));
    assert_eq!(
        midi("C2147483648"),
        Err(SynthError::InvalidNote("C2147483648".to_string()))
    );
}

#[test]
fn invalid_notes_keep_the_given_name() {
    for name in ["", "   ", "X4", "A", "A#", "Ab", "A4x", "A 4", "#4", "A--1", "A+-1", "A##4"] {
        assert_eq!(midi(name), Err(SynthError::InvalidNote(name.to_string())), "{name:?}");
    }
    assert_eq!(midi(" Q1 "), Err(SynthError::InvalidNote(" Q1 ".to_string())));
}

#[test]
fn i32_reading() {
    let read = |s: &str| parse_i32_chars(&s.chars().collect());
    assert_eq!(read("0"), Some(0));
    assert_eq!(read("-0"), Some(0));
    assert_eq!(read("+17"), Some(17));
    assert_eq!(read("-2147483648"), Some(i32::MIN));
    assert_eq!(read("2147483647"), Some(i32::MAX));
    assert_eq!(read("2147483648"), None);
    assert_eq!(read("-2147483649"), None);
    assert_eq!(read("99999999999999999999"), None);
    assert_eq!(read(""), None);
    assert_eq!(read("-"), None);
    assert_eq!(read("+"), None);
    assert_eq!(read("1a"), None);
    assert_eq!(read(" 1"), None);
    for s in ["0", "-0", "+17", "2147483647", "-2147483648", "x", "", "-", "12x"] {
        assert_eq!(read(s), s.parse::<i32>().ok(), "{s:?}");
    }
}

#[test]
fn waveform_names_and_aliases() {
    let cases = [
        ("sine", Waveform::Sine),
        ("sin", Waveform::Sine),
        ("Sinus", Waveform::Sine),
        ("  SQUARE ", Waveform::Square),
        ("sqr", Waveform::Square),
        ("Rechteck", Waveform::Square),
        ("saw", Waveform::Saw),
        ("sawtooth", Waveform::Saw),
        ("SAEGE", Waveform::Saw),
        ("säge", Waveform::Saw),
        ("triangle", Waveform::Triangle),
        ("\ttri\n", Waveform::Triangle),
        ("Dreieck", Waveform::Triangle),
    ];
    for (name, wave) in cases {
        assert_eq!(Waveform::from_name(name), Ok(wave), "{name:?}");
        assert_eq!(Waveform::from_str(name), Ok(wave), "{name:?}");
    }
}

#[test]
fn unknown_waveform_reports_trimmed_lowercase_name() {
    assert_eq!(
        Waveform::from_name("  Noise "),
        Err(SynthError::UnknownWaveform("noise".to_string()))
    );
    // Only ASCII letters are lower-cased: `SÄGE` stays `sÄge`, which is no known name.
    assert_eq!(
        Waveform::from_name("SÄGE"),
        Err(SynthError::UnknownWaveform("sÄge".to_string()))
    );
    assert_eq!(Waveform::from_name(""), Err(SynthError::UnknownWaveform(String::new())));
    let err = Waveform::from_name("x").unwrap_err();
    assert_eq!(err.message(), "unbekannte Wellenform 'x' (erlaubt: sine, square, saw, triangle)");
    assert_eq!(
        midi_from_note("Y2").unwrap_err().message(),
        "ungültige Note 'Y2' (Beispiel: A4, C#5, Bb3)"
    );
}
