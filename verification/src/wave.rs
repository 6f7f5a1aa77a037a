//! The four basic waveforms and how they are named.
use vstd::prelude::*;

use crate::error::SynthError;
use crate::text::{
    chars_of, lemma_trim_fixed, lower_all, lower_undoes_upper, lowered, same_text, text_from, trim, trimmed,
    upper_all,
};

verus! {

/// The shape of one oscillator.
#[derive(Clone, Copy, Debug, PartialEq, Eq, Structural)]
pub enum Waveform {
    Sine,
    Square,
    Saw,
    Triangle,
}

/// The text of a waveform name once it is trimmed and lower-cased.
pub open spec fn name_key(s: Seq<char>) -> Seq<char> {
    lower_all(trim(s))
}

/// The waveform that a (trimmed, lower-cased) name stands for, with its aliases.
pub open spec fn waveform_named(t: Seq<char>) -> Option<Waveform> {
    if t == "sine"@ || t == "sin"@ || t == "sinus"@ {
        Some(Waveform::Sine)
    } else if t == "square"@ || t == "sqr"@ || t == "rechteck"@ {
        Some(Waveform::Square)
    } else if t == "saw"@ || t == "sawtooth"@ || t == "saege"@ || t == "säge"@ {
        Some(Waveform::Saw)
    } else if t == "triangle"@ || t == "tri"@ || t == "dreieck"@ {
        Some(Waveform::Triangle)
    } else {
        None
    }
}

impl Waveform {
    /// The label shown for the waveform.
    pub open spec fn label_text(self) -> Seq<char> {
        match self {
            Waveform::Sine => "sine"@,
            Waveform::Square => "square"@,
            Waveform::Saw => "saw"@,
            Waveform::Triangle => "triangle"@,
        }
    }

    /// All waveforms, in the order the user interface lists them.
    pub const ALL: [Waveform; 4] = [Waveform::Sine, Waveform::Square, Waveform::Saw, Waveform::Triangle];

    /// The label of the waveform.
    pub fn label(self) -> (r: &'static str)
        ensures
            r@ == self.label_text(),
    {
        match self {
            Waveform::Sine => "sine",
            Waveform::Square => "square",
            Waveform::Saw => "saw",
            Waveform::Triangle => "triangle",
        }
    }

    /// Reads a waveform name: surrounding whitespace and ASCII case are ignored, and the
    /// aliases `sin`, `sinus`, `sqr`, `rechteck`, `sawtooth`, `saege`, `säge`, `tri` and
    /// `dreieck` are accepted. Anything else is refused with the trimmed, lower-cased text.
    pub fn from_name(value: &str) -> (r: Result<Waveform, SynthError>)
        ensures
            match r {
                Ok(w) => waveform_named(name_key(value@)) == Some(w),
                Err(e) => waveform_named(name_key(value@)) is None && (e matches SynthError::UnknownWaveform(t) && t@ == name_key(value@)),
            },
    {
        let raw = chars_of(value);
        let t = trimmed(&raw);
        let key = lowered(&t);
        if same_text(&key, "sine") || same_text(&key, "sin") || same_text(&key, "sinus") {
            Ok(Waveform::Sine)
        } else if same_text(&key, "square") || same_text(&key, "sqr") || same_text(&key, "rechteck") {
            Ok(Waveform::Square)
        } else if same_text(&key, "saw") || same_text(&key, "sawtooth") || same_text(&key, "saege")
            || same_text(&key, "säge") {
            Ok(Waveform::Saw)
        } else if same_text(&key, "triangle") || same_text(&key, "tri") || same_text(&key, "dreieck") {
            Ok(Waveform::Triangle)
        } else {
            Err(SynthError::UnknownWaveform(text_from(&key)))
        }
    }
}

impl Default for Waveform {
    fn default() -> (r: Waveform)
        ensures
            r == Waveform::Sine,
    {
        Waveform::Sine
    }
}

impl core::str::FromStr for Waveform {
    type Err = SynthError;

    fn from_str(value: &str) -> (r: Result<Waveform, SynthError>)
        ensures
            match r {
                Ok(w) => waveform_named(name_key(value@)) == Some(w),
                Err(e) => waveform_named(name_key(value@)) is None && (e matches SynthError::UnknownWaveform(t) && t@ == name_key(value@)),
            },
    {
        Waveform::from_name(value)
    }
}

/// A label that is only lower-case letters reads back unchanged as a name key.
proof fn lemma_plain_key(t: Seq<char>)
    requires
        t.len() > 0,
        forall|i: int| 0 <= i < t.len() ==> 'a' <= #[trigger] t[i] && t[i] <= 'z',
    ensures
        name_key(t) == t,
{
    lemma_trim_fixed(t);
    assert(lower_all(t) =~= t);
}

/// Every waveform reads back from its own label: the parser accepts what the user interface
/// shows.
pub proof fn labels_read_back(w: Waveform)
    ensures
        waveform_named(name_key(w.label_text())) == Some(w),
{
    reveal_strlit("sine");
    reveal_strlit("square");
    reveal_strlit("saw");
    reveal_strlit("triangle");
    reveal_strlit("sin");
    reveal_strlit("sinus");
    reveal_strlit("sqr");
    reveal_strlit("rechteck");
    reveal_strlit("sawtooth");
    reveal_strlit("saege");
    reveal_strlit("säge");
    reveal_strlit("tri");
    reveal_strlit("dreieck");
    lemma_plain_key(w.label_text());
    match w {
        Waveform::Sine => {},
        Waveform::Square => {
            assert("square"@.len() != "sine"@.len() && "square"@.len() != "sin"@.len());
            assert("square"@.len() != "sinus"@.len());
        },
        Waveform::Saw => {
            assert("saw"@[1] != "sin"@[1]);
            assert("saw"@[1] != "sqr"@[1]);
            assert("saw"@.len() != "sine"@.len() && "saw"@.len() != "sinus"@.len());
            assert("saw"@.len() != "square"@.len() && "saw"@.len() != "rechteck"@.len());
        },
        Waveform::Triangle => {
            assert("triangle"@[0] != "sawtooth"@[0] && "triangle"@[0] != "rechteck"@[0]);
            assert("triangle"@.len() != "sine"@.len() && "triangle"@.len() != "sin"@.len());
            assert("triangle"@.len() != "sinus"@.len() && "triangle"@.len() != "square"@.len());
            assert("triangle"@.len() != "sqr"@.len() && "triangle"@.len() != "saw"@.len());
            assert("triangle"@.len() != "saege"@.len() && "triangle"@.len() != "säge"@.len());
        },
    }
}

/// Case does not matter: every waveform also reads back from its label written in capitals.
pub proof fn shouted_labels_read_back(w: Waveform)
    ensures
        waveform_named(name_key(upper_all(w.label_text()))) == Some(w),
{
    reveal_strlit("sine");
    reveal_strlit("square");
    reveal_strlit("saw");
    reveal_strlit("triangle");
    let t = w.label_text();
    lower_undoes_upper(t);
    let u = upper_all(t);
    lemma_trim_fixed(u);
    assert(name_key(u) == t);
    lemma_plain_key(t);
    labels_read_back(w);
}

} // verus!
