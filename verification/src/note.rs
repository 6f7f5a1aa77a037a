//! Reading note names such as `A4`, `C#5`, `Bb3` or the German `H4`.
use vstd::prelude::*;

use crate::error::SynthError;
use crate::text::{chars_of, lemma_trim_fixed, lemma_trim_shape, trim, trimmed};

verus! {

/// The pitch class of a note letter, counted in semitones above C.
/// Case is ignored; the German `H` is the English `B`.
pub open spec fn letter_semitone(c: char) -> Option<int> {
    if c == 'C' || c == 'c' {
        Some(0)
    } else if c == 'D' || c == 'd' {
        Some(2)
    } else if c == 'E' || c == 'e' {
        Some(4)
    } else if c == 'F' || c == 'f' {
        Some(5)
    } else if c == 'G' || c == 'g' {
        Some(7)
    } else if c == 'A' || c == 'a' {
        Some(9)
    } else if c == 'B' || c == 'b' || c == 'H' || c == 'h' {
        Some(11)
    } else {
        None
    }
}

/// The accidental that starts `rest` (sharp `#`/`♯` is +1, flat `b` is -1) and the text after it.
pub open spec fn split_accidental(rest: Seq<char>) -> (int, Seq<char>) {
    if rest.len() > 0 && (rest[0] == '#' || rest[0] == '♯') {
        (1, rest.drop_first())
    } else if rest.len() > 0 && rest[0] == 'b' {
        (-1, rest.drop_first())
    } else {
        (0, rest)
    }
}

pub open spec fn is_digit(c: char) -> bool {
    '0' <= c && c <= '9'
}

pub open spec fn all_digits(d: Seq<char>) -> bool {
    forall|i: int| 0 <= i < d.len() ==> is_digit(#[trigger] d[i])
}

/// The number that a string of decimal digits writes.
pub open spec fn digits_value(d: Seq<char>) -> nat
    decreases d.len(),
{
    if d.len() == 0 {
        0
    } else {
        digits_value(d.drop_last()) * 10 + ((d.last() as u32) - ('0' as u32)) as nat
    }
}

/// What `i32::from_str` reads from `s`: an optional `+` or `-`, then at least one decimal
/// digit and nothing else, with the value inside the range of `i32`.
pub open spec fn parse_i32(s: Seq<char>) -> Option<int> {
    let neg = s.len() > 0 && s[0] == '-';
    let digits = if s.len() > 0 && (s[0] == '-' || s[0] == '+') {
        s.drop_first()
    } else {
        s
    };
    let v: int = if neg {
        -(digits_value(digits) as int)
    } else {
        digits_value(digits) as int
    };
    if digits.len() == 0 || !all_digits(digits) || v < i32::MIN || v > i32::MAX {
        None
    } else {
        Some(v)
    }
}

/// The MIDI number of a note name: surrounding whitespace is ignored; a letter, an optional
/// accidental and an octave number follow; `C4` is 60 and `A4` is 69.
pub open spec fn note_midi(s: Seq<char>) -> Option<int> {
    let t = trim(s);
    if t.len() == 0 {
        None
    } else {
        match letter_semitone(t[0]) {
            None => None,
            Some(base) => {
                let (acc, octave_text) = split_accidental(t.drop_first());
                match parse_i32(octave_text) {
                    None => None,
                    Some(octave) => Some((octave + 1) * 12 + base + acc),
                }
            },
        }
    }
}

/// The note names on which reading stops short: a valid letter followed by the flat sign
/// `♭`, where the octave would be cut out in the middle of that sign's bytes.
pub open spec fn cuts_flat_sign(s: Seq<char>) -> bool {
    let t = trim(s);
    t.len() >= 2 && letter_semitone(t[0]) is Some && t[1] == '♭'
}

/// A value of a digit string, held at most at `digit_cap()` so that it fits in machine words.
pub open spec fn digit_cap() -> nat {
    2147483649
}

pub open spec fn capped(v: nat) -> nat {
    if v < digit_cap() {
        v
    } else {
        digit_cap()
    }
}

fn letter_semitone_of(c: char) -> (r: Option<i64>)
    ensures
        match r {
            Some(b) => letter_semitone(c) == Some(b as int),
            None => letter_semitone(c) is None,
        },
{
    if c == 'C' || c == 'c' {
        Some(0)
    } else if c == 'D' || c == 'd' {
        Some(2)
    } else if c == 'E' || c == 'e' {
        Some(4)
    } else if c == 'F' || c == 'f' {
        Some(5)
    } else if c == 'G' || c == 'g' {
        Some(7)
    } else if c == 'A' || c == 'a' {
        Some(9)
    } else if c == 'B' || c == 'b' || c == 'H' || c == 'h' {
        Some(11)
    } else {
        None
    }
}

/// The characters of `v` from index `start` on.
fn tail_from(v: &Vec<char>, start: usize) -> (r: Vec<char>)
    requires
        start <= v@.len(),
    ensures
        r@ == v@.subrange(start as int, v@.len() as int),
{
    let mut r: Vec<char> = Vec::new();
    let mut k: usize = start;
    while k < v.len()
        invariant
            start <= k <= v@.len(),
            r@ == v@.subrange(start as int, k as int),
        decreases v.len() - k,
    {
        r.push(v[k]);
        k = k + 1;
        assert(r@ =~= v@.subrange(start as int, k as int));
    }
    r
}

/// The value of a digit string, capped, or `None` when a character is not a digit.
fn digits_capped(d: &Vec<char>) -> (r: Option<u64>)
    ensures
        match r {
            Some(x) => all_digits(d@) && x == capped(digits_value(d@)),
            None => !all_digits(d@),
        },
{
    let mut acc: u64 = 0;
    let mut k: usize = 0;
    while k < d.len()
        invariant
            k <= d@.len(),
            all_digits(d@.take(k as int)),
            acc == capped(digits_value(d@.take(k as int))),
        decreases d.len() - k,
    {
        let c = d[k];
        if !('0' <= c && c <= '9') {
            assert(!is_digit(d@[k as int]));
            return None;
        }
        let digit: u64 = ((c as u32) - ('0' as u32)) as u64;
        let ghost prev = d@.take(k as int);
        assert(d@.take(k + 1).drop_last() =~= prev);
        assert(d@.take(k + 1).last() == c);
        let next: u64 = acc * 10 + digit;
        acc = if next < 2147483649 {
            next
        } else {
            2147483649
        };
        k = k + 1;
        assert(all_digits(d@.take(k as int))) by {
            assert forall|i: int| 0 <= i < k implies is_digit(#[trigger] d@.take(k as int)[i]) by {
                if i < k - 1 {
                    assert(d@.take(k as int)[i] == prev[i]);
                }
            }
        }
    }
    assert(d@.take(d@.len() as int) =~= d@);
    Some(acc)
}

/// Reads a signed 32-bit decimal number as `i32::from_str` does.
pub fn parse_i32_chars(s: &Vec<char>) -> (r: Option<i32>)
    ensures
        match r {
            Some(v) => parse_i32(s@) == Some(v as int),
            None => parse_i32(s@) is None,
        },
{
    let neg = s.len() > 0 && s[0] == '-';
    let signed = s.len() > 0 && (s[0] == '-' || s[0] == '+');
    let digits = if signed {
        tail_from(s, 1)
    } else {
        tail_from(s, 0)
    };
    assert(s@.subrange(1, s@.len() as int) =~= s@.drop_first());
    assert(s@.subrange(0, s@.len() as int) =~= s@);
    if digits.len() == 0 {
        return None;
    }
    match digits_capped(&digits) {
        None => None,
        Some(x) => {
            if neg {
                if x <= 2147483648 {
                    let v: i64 = -(x as i64);
                    Some(v as i32)
                } else {
                    None
                }
            } else {
                if x <= 2147483647 {
                    Some(x as i32)
                } else {
                    None
                }
            }
        },
    }
}

/// The MIDI number of a note name such as `A4` (69), `C#5`, `Bb3` or `H4`.
/// A name that cannot be read is refused with the name as it was given.
pub fn midi_from_note(name: &str) -> (r: Result<i64, SynthError>)
    requires
        !cuts_flat_sign(name@),
    ensures
        match r {
            Ok(m) => note_midi(name@) == Some(m as int),
            Err(e) => note_midi(name@) is None && (e matches SynthError::InvalidNote(t) && t@ == name@),
        },
{
    let raw = chars_of(name);
    let t = trimmed(&raw);
    if t.len() == 0 {
        return Err(SynthError::InvalidNote(name.to_owned()));
    }
    let base = match letter_semitone_of(t[0]) {
        Some(b) => b,
        None => {
            return Err(SynthError::InvalidNote(name.to_owned()));
        },
    };
    let rest = tail_from(&t, 1);
    assert(rest@ =~= t@.drop_first());
    let (acc, octave_text): (i64, Vec<char>) = if rest.len() > 0 && (rest[0] == '#' || rest[0] == '♯') {
        (1, tail_from(&rest, 1))
    } else if rest.len() > 0 && rest[0] == 'b' {
        (-1, tail_from(&rest, 1))
    } else {
        (0, tail_from(&rest, 0))
    };
    assert(rest@.subrange(1, rest@.len() as int) =~= rest@.drop_first());
    assert(rest@.subrange(0, rest@.len() as int) =~= rest@);
    match parse_i32_chars(&octave_text) {
        None => Err(SynthError::InvalidNote(name.to_owned())),
        Some(octave) => {
            let o: i64 = octave as i64;
            Ok((o + 1) * 12 + base + acc)
        },
    }
}

/// The German `H` is the English `B`: a note name whose (trimmed) letter is `H` or `h` names
/// the same note as the trimmed name with `B` in its place.
pub proof fn german_h_is_b(s: Seq<char>)
    requires
        trim(s).len() > 0,
        trim(s)[0] == 'H' || trim(s)[0] == 'h',
    ensures
        note_midi(s) == note_midi(trim(s).update(0, 'B')),
{
    let t = trim(s);
    lemma_trim_shape(s);
    let u = t.update(0, 'B');
    if u.len() > 1 {
        assert(u.last() == t.last());
    }
    lemma_trim_fixed(u);
    assert(u.drop_first() =~= t.drop_first());
}

/// The note letters C, D, E, F, G, A, B, and the German H, in either case, name the keys 0, 2,
/// 4, 5, 7, 9, 11 and 11 semitones above C: a letter followed by a decimal octave `o` (without
/// sign) is the MIDI note `(o + 1) * 12` plus those semitones, and the small letter reads as
/// the capital one.
pub proof fn letters_name_their_keys(i: int, small: bool, d: Seq<char>)
    requires
        0 <= i < 8,
        d.len() > 0,
        forall|k: int| 0 <= k < d.len() ==> '0' <= #[trigger] d[k] && d[k] <= '9',
        digits_value(d) <= i32::MAX,
    ensures
        note_midi(
            seq![
                if small {
                    seq!['c', 'd', 'e', 'f', 'g', 'a', 'b', 'h'][i]
                } else {
                    seq!['C', 'D', 'E', 'F', 'G', 'A', 'B', 'H'][i]
                },
            ] + d,
        ) == Some((digits_value(d) + 1) * 12 + seq![0int, 2, 4, 5, 7, 9, 11, 11][i]),
{
    let letter = if small {
        seq!['c', 'd', 'e', 'f', 'g', 'a', 'b', 'h'][i]
    } else {
        seq!['C', 'D', 'E', 'F', 'G', 'A', 'B', 'H'][i]
    };
    let s = seq![letter] + d;
    assert(s[0] == letter);
    assert(s.last() == d.last());
    assert(d.last() == d[d.len() - 1]);
    lemma_trim_fixed(s);
    assert(s.drop_first() =~= d);
    assert(d[0] == d[0]);
    assert(all_digits(d));
}

} // verus!
