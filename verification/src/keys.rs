//! The computer keyboard as a piano: which key plays which note.
use vstd::prelude::*;

use crate::wave::Waveform;

verus! {

/// The MIDI number of middle C, the note of the lowest piano key at octave shift 0.
pub const C4_MIDI: i32 = 60;

/// A key of the computer keyboard that the synthesizer listens to, named by its physical
/// position on a US (QWERTY) keyboard.
#[derive(Clone, Copy, Debug, PartialEq, Eq, Structural)]
pub enum Key {
    Z, S, X, D, C, V, G, B, H, N, J, M,
    Q, Num2, W, Num3, E, R, Num5, T, Num6, Y, Num7, U, I,
    F1, F2, F3, F4,
}

/// The keyboard layout the user types on.
#[derive(Clone, Copy, Debug, PartialEq, Eq, Structural)]
pub enum Layout {
    /// German layout, where the keys Y and Z trade places.
    Qwertz,
    /// US layout.
    Qwerty,
}

/// The key a user of `layout` presses at the physical position `position`, and, read the
/// other way, the position of a typed key: on QWERTZ, Y and Z trade places.
pub open spec fn layout_swap(layout: Layout, position: Key) -> Key {
    if layout == Layout::Qwertz && position == Key::Z {
        Key::Y
    } else if layout == Layout::Qwertz && position == Key::Y {
        Key::Z
    } else {
        position
    }
}

impl Layout {
    /// The name shown for the layout.
    pub open spec fn name_text(self) -> Seq<char> {
        match self {
            Layout::Qwertz => "QWERTZ"@,
            Layout::Qwerty => "QWERTY"@,
        }
    }

    /// The name of the layout.
    pub fn name(self) -> (r: &'static str)
        ensures
            r@ == self.name_text(),
    {
        match self {
            Layout::Qwertz => "QWERTZ",
            Layout::Qwerty => "QWERTY",
        }
    }

    /// The key that is typed at a physical position.
    pub fn typed_key(self, position: Key) -> (r: Key)
        ensures
            r == layout_swap(self, position),
    {
        match (self, position) {
            (Layout::Qwertz, Key::Z) => Key::Y,
            (Layout::Qwertz, Key::Y) => Key::Z,
            _ => position,
        }
    }

    /// The physical position of a typed key.
    pub fn position_key(self, typed: Key) -> (r: Key)
        ensures
            r == layout_swap(self, typed),
    {
        self.typed_key(typed)
    }
}

impl Default for Layout {
    fn default() -> (r: Layout)
        ensures
            r == Layout::Qwertz,
    {
        Layout::Qwertz
    }
}

/// How many semitones above the lowest piano key a position plays: the bottom row plays
/// C to B, the top row C to the next C, one octave higher.
pub open spec fn offset_of(position: Key) -> Option<int> {
    match position {
        Key::Z => Some(0),
        Key::S => Some(1),
        Key::X => Some(2),
        Key::D => Some(3),
        Key::C => Some(4),
        Key::V => Some(5),
        Key::G => Some(6),
        Key::B => Some(7),
        Key::H => Some(8),
        Key::N => Some(9),
        Key::J => Some(10),
        Key::M => Some(11),
        Key::Q => Some(12),
        Key::Num2 => Some(13),
        Key::W => Some(14),
        Key::Num3 => Some(15),
        Key::E => Some(16),
        Key::R => Some(17),
        Key::Num5 => Some(18),
        Key::T => Some(19),
        Key::Num6 => Some(20),
        Key::Y => Some(21),
        Key::Num7 => Some(22),
        Key::U => Some(23),
        Key::I => Some(24),
        _ => None,
    }
}

/// The octave shift as it is used: held between -2 and 3.
pub open spec fn clamp_octave(shift: int) -> int {
    if shift < -2 {
        -2
    } else if shift > 3 {
        3
    } else {
        shift
    }
}

/// The MIDI note a position plays at an octave shift, when that is a MIDI note (0 to 127).
pub open spec fn midi_at(position: Key, octave_shift: int) -> Option<int> {
    match offset_of(position) {
        None => None,
        Some(off) => {
            let midi = C4_MIDI + off + clamp_octave(octave_shift) * 12;
            if 0 <= midi <= 127 {
                Some(midi)
            } else {
                None
            }
        },
    }
}

/// The semitone offset of a position; see `offset_of`.
pub fn semitone_offset(position: Key) -> (r: Option<i32>)
    ensures
        match r {
            Some(o) => offset_of(position) == Some(o as int),
            None => offset_of(position) is None,
        },
{
    match position {
        Key::Z => Some(0),
        Key::S => Some(1),
        Key::X => Some(2),
        Key::D => Some(3),
        Key::C => Some(4),
        Key::V => Some(5),
        Key::G => Some(6),
        Key::B => Some(7),
        Key::H => Some(8),
        Key::N => Some(9),
        Key::J => Some(10),
        Key::M => Some(11),
        Key::Q => Some(12),
        Key::Num2 => Some(13),
        Key::W => Some(14),
        Key::Num3 => Some(15),
        Key::E => Some(16),
        Key::R => Some(17),
        Key::Num5 => Some(18),
        Key::T => Some(19),
        Key::Num6 => Some(20),
        Key::Y => Some(21),
        Key::Num7 => Some(22),
        Key::U => Some(23),
        Key::I => Some(24),
        _ => None,
    }
}

/// The MIDI note a position plays at an octave shift; see `midi_at`.
pub fn midi_for_position(position: Key, octave_shift: i32) -> (r: Option<u8>)
    ensures
        match r {
            Some(m) => midi_at(position, octave_shift as int) == Some(m as int),
            None => midi_at(position, octave_shift as int) is None,
        },
{
    let off = match semitone_offset(position) {
        Some(o) => o,
        None => {
            return None;
        },
    };
    let shift: i32 = if octave_shift < -2 {
        -2
    } else if octave_shift > 3 {
        3
    } else {
        octave_shift
    };
    let midi: i32 = C4_MIDI + off + shift * 12;
    if 0 <= midi && midi <= 127 {
        Some(midi as u8)
    } else {
        None
    }
}

/// The waveform of oscillator A that a function key selects.
pub open spec fn function_key_wave(key: Key) -> Option<Waveform> {
    match key {
        Key::F1 => Some(Waveform::Sine),
        Key::F2 => Some(Waveform::Square),
        Key::F3 => Some(Waveform::Saw),
        Key::F4 => Some(Waveform::Triangle),
        _ => None,
    }
}

/// The waveform that a function key selects: F1 sine, F2 square, F3 saw, F4 triangle.
pub fn waveform_from_function_key(key: Key) -> (r: Option<Waveform>)
    ensures
        r == function_key_wave(key),
{
    match key {
        Key::F1 => Some(Waveform::Sine),
        Key::F2 => Some(Waveform::Square),
        Key::F3 => Some(Waveform::Saw),
        Key::F4 => Some(Waveform::Triangle),
        _ => None,
    }
}

/// A key of the on-screen piano.
#[derive(Clone, Copy, Debug)]
pub struct PianoKey {
    /// The physical position that plays the key.
    pub key: Key,
    /// The caption on a QWERTY keyboard.
    pub label_qwerty: &'static str,
    /// The caption on a QWERTZ keyboard.
    pub label_qwertz: &'static str,
    /// Whether the key is a black key.
    pub black: bool,
}

/// A piano key as plain values: position, QWERTY caption, QWERTZ caption, black or not.
pub open spec fn key_model(k: PianoKey) -> (Key, Seq<char>, Seq<char>, bool) {
    (k.key, k.label_qwerty@, k.label_qwertz@, k.black)
}

impl PianoKey {
    /// The caption of the key for a layout.
    pub fn label(self, layout: Layout) -> (r: &'static str)
        ensures
            r@ == (match layout {
                Layout::Qwerty => self.label_qwerty@,
                Layout::Qwertz => self.label_qwertz@,
            }),
    {
        match layout {
            Layout::Qwerty => self.label_qwerty,
            Layout::Qwertz => self.label_qwertz,
        }
    }
}

/// The bottom row of the on-screen piano, C4 to B4 at octave shift 0.
pub open spec fn lower_row_model() -> Seq<(Key, Seq<char>, Seq<char>, bool)> {
    seq![
        (Key::Z, "Z C"@, "Y C"@, false),
        (Key::S, "S C#"@, "S C#"@, true),
        (Key::X, "X D"@, "X D"@, false),
        (Key::D, "D D#"@, "D D#"@, true),
        (Key::C, "C E"@, "C E"@, false),
        (Key::V, "V F"@, "V F"@, false),
        (Key::G, "G F#"@, "G F#"@, true),
        (Key::B, "B G"@, "B G"@, false),
        (Key::H, "H G#"@, "H G#"@, true),
        (Key::N, "N A"@, "N A"@, false),
        (Key::J, "J A#"@, "J A#"@, true),
        (Key::M, "M B"@, "M B"@, false),
    ]
}

/// The top row of the on-screen piano, C5 to C6 at octave shift 0.
pub open spec fn upper_row_model() -> Seq<(Key, Seq<char>, Seq<char>, bool)> {
    seq![
        (Key::Q, "Q C"@, "Q C"@, false),
        (Key::Num2, "2 C#"@, "2 C#"@, true),
        (Key::W, "W D"@, "W D"@, false),
        (Key::Num3, "3 D#"@, "3 D#"@, true),
        (Key::E, "E E"@, "E E"@, false),
        (Key::R, "R F"@, "R F"@, false),
        (Key::Num5, "5 F#"@, "5 F#"@, true),
        (Key::T, "T G"@, "T G"@, false),
        (Key::Num6, "6 G#"@, "6 G#"@, true),
        (Key::Y, "Y A"@, "Z A"@, false),
        (Key::Num7, "7 A#"@, "7 A#"@, true),
        (Key::U, "U B"@, "U B"@, false),
        (Key::I, "I C"@, "I C"@, false),
    ]
}

/// The bottom row of the on-screen piano.
pub fn lower_row() -> (r: [PianoKey; 12])
    ensures
        r@.map_values(|k: PianoKey| key_model(k)) == lower_row_model(),
{
    let r = [
            PianoKey { key: Key::Z, label_qwerty: "Z C", label_qwertz: "Y C", black: false },
            PianoKey { key: Key::S, label_qwerty: "S C#", label_qwertz: "S C#", black: true },
            PianoKey { key: Key::X, label_qwerty: "X D", label_qwertz: "X D", black: false },
            PianoKey { key: Key::D, label_qwerty: "D D#", label_qwertz: "D D#", black: true },
            PianoKey { key: Key::C, label_qwerty: "C E", label_qwertz: "C E", black: false },
            PianoKey { key: Key::V, label_qwerty: "V F", label_qwertz: "V F", black: false },
            PianoKey { key: Key::G, label_qwerty: "G F#", label_qwertz: "G F#", black: true },
            PianoKey { key: Key::B, label_qwerty: "B G", label_qwertz: "B G", black: false },
            PianoKey { key: Key::H, label_qwerty: "H G#", label_qwertz: "H G#", black: true },
            PianoKey { key: Key::N, label_qwerty: "N A", label_qwertz: "N A", black: false },
            PianoKey { key: Key::J, label_qwerty: "J A#", label_qwertz: "J A#", black: true },
            PianoKey { key: Key::M, label_qwerty: "M B", label_qwertz: "M B", black: false },
    ];
    assert(r@.map_values(|k: PianoKey| key_model(k)) =~= lower_row_model());
    r
}

/// The top row of the on-screen piano.
pub fn upper_row() -> (r: [PianoKey; 13])
    ensures
        r@.map_values(|k: PianoKey| key_model(k)) == upper_row_model(),
{
    let r = [
            PianoKey { key: Key::Q, label_qwerty: "Q C", label_qwertz: "Q C", black: false },
            PianoKey { key: Key::Num2, label_qwerty: "2 C#", label_qwertz: "2 C#", black: true },
            PianoKey { key: Key::W, label_qwerty: "W D", label_qwertz: "W D", black: false },
            PianoKey { key: Key::Num3, label_qwerty: "3 D#", label_qwertz: "3 D#", black: true },
            PianoKey { key: Key::E, label_qwerty: "E E", label_qwertz: "E E", black: false },
            PianoKey { key: Key::R, label_qwerty: "R F", label_qwertz: "R F", black: false },
            PianoKey { key: Key::Num5, label_qwerty: "5 F#", label_qwertz: "5 F#", black: true },
            PianoKey { key: Key::T, label_qwerty: "T G", label_qwertz: "T G", black: false },
            PianoKey { key: Key::Num6, label_qwerty: "6 G#", label_qwertz: "6 G#", black: true },
            PianoKey { key: Key::Y, label_qwerty: "Y A", label_qwertz: "Z A", black: false },
            PianoKey { key: Key::Num7, label_qwerty: "7 A#", label_qwertz: "7 A#", black: true },
            PianoKey { key: Key::U, label_qwerty: "U B", label_qwertz: "U B", black: false },
            PianoKey { key: Key::I, label_qwerty: "I C", label_qwertz: "I C", black: false },
    ];
    assert(r@.map_values(|k: PianoKey| key_model(k)) =~= upper_row_model());
    r
}

/// The positions of all piano keys: the bottom row, then the top row.
pub open spec fn piano_positions() -> Seq<Key> {
    lower_row_model().map_values(|t: (Key, Seq<char>, Seq<char>, bool)| t.0) + upper_row_model().map_values(
        |t: (Key, Seq<char>, Seq<char>, bool)| t.0,
    )
}

/// The positions of all piano keys, bottom row first.
pub fn all_piano_keys() -> (r: Vec<Key>)
    ensures
        r@ == piano_positions(),
{
    let lower = lower_row();
    let upper = upper_row();
    let mut r: Vec<Key> = Vec::new();
    let mut k: usize = 0;
    while k < 12
        invariant
            k <= 12,
            lower@.map_values(|p: PianoKey| key_model(p)) == lower_row_model(),
            r@ == lower_row_model().map_values(|t: (Key, Seq<char>, Seq<char>, bool)| t.0).take(k as int),
        decreases 12 - k,
    {
        assert(key_model(lower@[k as int]) == lower_row_model()[k as int]);
        r.push(lower[k].key);
        k = k + 1;
        assert(r@ =~= lower_row_model().map_values(|t: (Key, Seq<char>, Seq<char>, bool)| t.0).take(k as int));
    }
    let mut k: usize = 0;
    while k < 13
        invariant
            k <= 13,
            upper@.map_values(|p: PianoKey| key_model(p)) == upper_row_model(),
            r@ == lower_row_model().map_values(|t: (Key, Seq<char>, Seq<char>, bool)| t.0) + upper_row_model().map_values(
                |t: (Key, Seq<char>, Seq<char>, bool)| t.0,
            ).take(k as int),
        decreases 13 - k,
    {
        assert(key_model(upper@[k as int]) == upper_row_model()[k as int]);
        r.push(upper[k].key);
        k = k + 1;
        assert(r@ =~= lower_row_model().map_values(|t: (Key, Seq<char>, Seq<char>, bool)| t.0) + upper_row_model().map_values(
            |t: (Key, Seq<char>, Seq<char>, bool)| t.0,
        ).take(k as int));
    }
    assert(upper_row_model().map_values(|t: (Key, Seq<char>, Seq<char>, bool)| t.0).take(13) =~= upper_row_model().map_values(
        |t: (Key, Seq<char>, Seq<char>, bool)| t.0,
    ));
    r
}

/// The octave shift after the user moves it by `delta`: held between -2 and 3.
pub fn shift_octave(octave: i32, delta: i32) -> (r: i32)
    requires
        i32::MIN <= octave + delta <= i32::MAX,
    ensures
        r == clamp_octave(octave + delta),
{
    let v = octave + delta;
    if v < -2 {
        -2
    } else if v > 3 {
        3
    } else {
        v
    }
}

/// The note a piano position sounds while the typed keys `down` are held: the position
/// sounds when its typed key (on `layout`) is down, with the note `midi_at` gives.
pub open spec fn sounding(layout: Layout, octave_shift: int, down: Seq<Key>) -> spec_fn(Key) -> Option<u8> {
    |p: Key|
        if down.contains(layout_swap(layout, p)) {
            match midi_at(p, octave_shift) {
                Some(m) => Some(m as u8),
                None => None,
            }
        } else {
            None
        }
}

/// Whether `keys` holds `k`.
fn holds_key(keys: &[Key], k: Key) -> (r: bool)
    ensures
        r == keys@.contains(k),
{
    let mut i: usize = 0;
    while i < keys.len()
        invariant
            i <= keys@.len(),
            forall|j: int| 0 <= j < i ==> keys@[j] != k,
        decreases keys.len() - i,
    {
        if keys[i] == k {
            return true;
        }
        i = i + 1;
    }
    false
}

/// The MIDI notes that the computer keyboard asks for while the typed keys `down` are held,
/// in the order of the piano positions.
pub fn notes_held_down(layout: Layout, octave_shift: i32, down: &[Key]) -> (r: Vec<u8>)
    ensures
        r@ == piano_positions().filter_map(sounding(layout, octave_shift as int, down@)),
{
    let positions = all_piano_keys();
    let ghost f = sounding(layout, octave_shift as int, down@);
    let mut r: Vec<u8> = Vec::new();
    let mut k: usize = 0;
    while k < positions.len()
        invariant
            k <= positions@.len(),
            positions@ == piano_positions(),
            f == sounding(layout, octave_shift as int, down@),
            r@ == positions@.take(k as int).filter_map(f),
        decreases positions.len() - k,
    {
        let p = positions[k];
        proof {
            positions@.lemma_filter_map_take_succ(f, k as int);
        }
        if holds_key(down, layout.typed_key(p)) {
            match midi_for_position(p, octave_shift) {
                Some(m) => {
                    r.push(m);
                    assert(r@ =~= positions@.take(k + 1).filter_map(f));
                },
                None => {},
            }
        }
        k = k + 1;
    }
    assert(positions@.take(positions@.len() as int) =~= positions@);
    r
}

/// Reading a typed key back to its position undoes the layout: a position, typed and read
/// back, is the same position, on either layout.
pub proof fn layout_round_trip(layout: Layout, position: Key)
    ensures
        layout_swap(layout, layout_swap(layout, position)) == position,
{
}

/// The two rows of the on-screen piano are chromatic: the i-th key of the bottom row plays
/// i semitones above C4, the i-th key of the top row 12 + i.
pub proof fn rows_are_chromatic()
    ensures
        lower_row_model().len() == 12,
        upper_row_model().len() == 13,
        forall|i: int| 0 <= i < 12 ==> offset_of((#[trigger] lower_row_model()[i]).0) == Some(i),
        forall|i: int| 0 <= i < 13 ==> offset_of((#[trigger] upper_row_model()[i]).0) == Some(12 + i),
{
    assert(lower_row_model().len() == 12);
    assert(upper_row_model().len() == 13);
}

/// Every piano key plays a MIDI note at every octave shift, between C2 (36) and C9 (120).
pub proof fn piano_keys_always_play(position: Key, octave_shift: int)
    requires
        offset_of(position) is Some,
    ensures
        midi_at(position, octave_shift) is Some,
        36 <= midi_at(position, octave_shift)->0 <= 120,
{
}

/// Position `i` of the piano plays `i` semitones above the lowest key.
proof fn lemma_position_offset(i: int)
    requires
        0 <= i < 25,
    ensures
        piano_positions().len() == 25,
        offset_of(piano_positions()[i]) == Some(i),
{
    rows_are_chromatic();
    let lo = lower_row_model().map_values(|t: (Key, Seq<char>, Seq<char>, bool)| t.0);
    let up = upper_row_model().map_values(|t: (Key, Seq<char>, Seq<char>, bool)| t.0);
    if i < 12 {
        assert(piano_positions()[i] == lo[i]);
        assert(lo[i] == lower_row_model()[i].0);
    } else {
        assert(piano_positions()[i] == up[i - 12]);
        assert(up[i - 12] == upper_row_model()[i - 12].0);
    }
}

proof fn lemma_held_prefix(layout: Layout, octave_shift: int, down: Seq<Key>, k: int)
    requires
        0 <= k <= 25,
    ensures
        ({
            let r = piano_positions().take(k).filter_map(sounding(layout, octave_shift, down));
            &&& forall|i: int, j: int| 0 <= i < j < r.len() ==> r[i] < r[j]
            &&& forall|i: int| 0 <= i < r.len() ==> r[i] < C4_MIDI + k + clamp_octave(octave_shift) * 12
        }),
    decreases k,
{
    let f = sounding(layout, octave_shift, down);
    lemma_position_offset(0);
    if k == 0 {
        assert(piano_positions().take(0).filter_map(f) =~= Seq::<u8>::empty());
    } else {
        lemma_held_prefix(layout, octave_shift, down, k - 1);
        piano_positions().lemma_filter_map_take_succ(f, k - 1);
        lemma_position_offset(k - 1);
        let p = piano_positions()[k - 1];
        match f(p) {
            Some(m) => {
                assert(m == C4_MIDI + (k - 1) + clamp_octave(octave_shift) * 12);
            },
            None => {},
        }
    }
}

/// The notes the computer keyboard asks for come in strictly rising order, so no note is
/// asked for twice.
pub proof fn held_notes_rise(layout: Layout, octave_shift: int, down: Seq<Key>)
    ensures
        forall|i: int, j: int|
            0 <= i < j < piano_positions().filter_map(sounding(layout, octave_shift, down)).len()
                ==> piano_positions().filter_map(sounding(layout, octave_shift, down))[i]
                < piano_positions().filter_map(sounding(layout, octave_shift, down))[j],
{
    lemma_held_prefix(layout, octave_shift, down, 25);
    lemma_position_offset(0);
    assert(piano_positions().take(25) =~= piano_positions());
}

/// Octave shifts from -2 to 3 are used as they are: at such a shift `s` a piano position `o`
/// semitones above the lowest key plays MIDI note `60 + o + 12 * s`, and one step up or down
/// inside the range moves its note by exactly one octave.
pub proof fn octave_shift_in_range(position: Key, s: int)
    requires
        -2 <= s <= 3,
        offset_of(position) is Some,
    ensures
        clamp_octave(s) == s,
        midi_at(position, s) == Some(60 + offset_of(position)->0 + 12 * s),
        s < 3 ==> midi_at(position, s + 1)->0 == midi_at(position, s)->0 + 12,
        s > -2 ==> midi_at(position, s - 1)->0 == midi_at(position, s)->0 - 12,
{
}

/// Octave shifts beyond the range play as its nearest end: above 3 as 3, below -2 as -2.
pub proof fn octave_shift_beyond_range(position: Key, s: int)
    ensures
        s > 3 ==> clamp_octave(s) == 3 && midi_at(position, s) == midi_at(position, 3),
        s < -2 ==> clamp_octave(s) == -2 && midi_at(position, s) == midi_at(position, -2),
{
}

} // verus!
