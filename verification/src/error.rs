//! Errors of the parsers.
use vstd::prelude::*;

verus! {

/// What the parsers reject. Each variant carries the text that was refused.
#[derive(Debug, PartialEq, Eq)]
pub enum SynthError {
    /// A waveform name that is none of the known names (trimmed and lower-cased).
    UnknownWaveform(String),
    /// A note name that cannot be read (as it was given).
    InvalidNote(String),
}

impl SynthError {
    /// The message shown for the error.
    pub open spec fn message_text(&self) -> Seq<char> {
        match self {
            SynthError::UnknownWaveform(s) => "unbekannte Wellenform '"@ + s@
                + "' (erlaubt: sine, square, saw, triangle)"@,
            SynthError::InvalidNote(s) => "ungültige Note '"@ + s@ + "' (Beispiel: A4, C#5, Bb3)"@,
        }
    }

    /// The message shown for the error, naming the refused text.
    pub fn message(&self) -> (m: String)
        ensures
            m@ == self.message_text(),
    {
        match self {
            SynthError::UnknownWaveform(s) => {
                let mut m = String::from_str("unbekannte Wellenform '");
                m.append(s.as_str());
                m.append("' (erlaubt: sine, square, saw, triangle)");
                m
            },
            SynthError::InvalidNote(s) => {
                let mut m = String::from_str("ungültige Note '");
                m.append(s.as_str());
                m.append("' (Beispiel: A4, C#5, Bb3)");
                m
            },
        }
    }
}

} // verus!
