//! How the two oscillators of a voice interact.
use vstd::prelude::*;

verus! {

/// The interaction of oscillator A and oscillator B.
#[derive(Clone, Copy, Debug, PartialEq, Eq, Structural)]
pub enum OscInteract {
    /// Linear crossfade from A to B.
    Mix,
    /// Amplitude modulation, `A * (1 + depth * B)`.
    Am,
    /// Ring modulation, `A * B`.
    Ring,
    /// B modulates the frequency of A.
    Fm,
    /// Hard sync: B restarts its phase whenever A wraps.
    Sync,
}

impl OscInteract {
    /// The label shown for the mode.
    pub open spec fn label_text(self) -> Seq<char> {
        match self {
            OscInteract::Mix => "Mix"@,
            OscInteract::Am => "AM"@,
            OscInteract::Ring => "Ring"@,
            OscInteract::Fm => "FM"@,
            OscInteract::Sync => "Sync"@,
        }
    }

    /// All modes, in the order the user interface lists them.
    pub const ALL: [OscInteract; 5] = [OscInteract::Mix, OscInteract::Am, OscInteract::Ring, OscInteract::Fm, OscInteract::Sync];

    /// The label of the mode.
    pub fn label(self) -> (r: &'static str)
        ensures
            r@ == self.label_text(),
    {
        match self {
            OscInteract::Mix => "Mix",
            OscInteract::Am => "AM",
            OscInteract::Ring => "Ring",
            OscInteract::Fm => "FM",
            OscInteract::Sync => "Sync",
        }
    }
}

impl Default for OscInteract {
    fn default() -> (r: OscInteract)
        ensures
            r == OscInteract::Mix,
    {
        OscInteract::Mix
    }
}

} // verus!
