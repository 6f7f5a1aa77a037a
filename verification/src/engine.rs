//! Noise settings and the pseudo-random generator behind the noise.
use vstd::prelude::*;

verus! {

/// How noise `n` is applied to a dry sample.
#[derive(Clone, Copy, Debug, PartialEq, Eq, Structural)]
pub enum NoiseMode {
    /// `sample + n`.
    Additive,
    /// `sample * (1 + n)`.
    Multiplicative,
    /// `sample * (prev * (1 + n))`, where `prev` is a running gain that starts at 1.
    Walk,
    /// `sample * prev * (2 + n - prev)`.
    Parabolic,
}

impl NoiseMode {
    /// The label shown for the mode.
    pub open spec fn label_text(self) -> Seq<char> {
        match self {
            NoiseMode::Additive => "Additiv"@,
            NoiseMode::Multiplicative => "×(1±val)"@,
            NoiseMode::Walk => "s×(prev×(1±))"@,
            NoiseMode::Parabolic => "s×v(2+n−v)"@,
        }
    }

    /// All noise modes, in the order the user interface lists them.
    pub const ALL: [NoiseMode; 4] = [NoiseMode::Additive, NoiseMode::Multiplicative, NoiseMode::Walk, NoiseMode::Parabolic];

    /// The label of the mode.
    pub fn label(self) -> (r: &'static str)
        ensures
            r@ == self.label_text(),
    {
        match self {
            NoiseMode::Additive => "Additiv",
            NoiseMode::Multiplicative => "×(1±val)",
            NoiseMode::Walk => "s×(prev×(1±))",
            NoiseMode::Parabolic => "s×v(2+n−v)",
        }
    }
}

impl Default for NoiseMode {
    fn default() -> (r: NoiseMode)
        ensures
            r == NoiseMode::Additive,
    {
        NoiseMode::Additive
    }
}

/// The distribution that noise is drawn from.
#[derive(Clone, Copy, Debug, PartialEq, Eq, Structural)]
pub enum NoiseDist {
    /// Uniform in `[-val, +val]`.
    Uniform,
    /// Gaussian `N(0, val)`.
    Gauss,
}

impl NoiseDist {
    /// The label shown for the distribution.
    pub open spec fn label_text(self) -> Seq<char> {
        match self {
            NoiseDist::Uniform => "Gleich"@,
            NoiseDist::Gauss => "Gauß"@,
        }
    }

    /// Both distributions, in the order the user interface lists them.
    pub const ALL: [NoiseDist; 2] = [NoiseDist::Uniform, NoiseDist::Gauss];

    /// The label of the distribution.
    pub fn label(self) -> (r: &'static str)
        ensures
            r@ == self.label_text(),
    {
        match self {
            NoiseDist::Uniform => "Gleich",
            NoiseDist::Gauss => "Gauß",
        }
    }
}

impl Default for NoiseDist {
    fn default() -> (r: NoiseDist)
        ensures
            r == NoiseDist::Uniform,
    {
        NoiseDist::Uniform
    }
}

/// One step of Marsaglia's 13/17/5 xorshift on 32 bits.
pub open spec fn xorshift(x: u32) -> u32 {
    let a = x ^ (x << 13u32);
    let b = a ^ (a >> 17u32);
    b ^ (b << 5u32)
}

/// A nonzero state stays nonzero under the xorshift step, so the generator never gets stuck.
pub proof fn xorshift_keeps_nonzero(x: u32)
    requires
        x != 0,
    ensures
        xorshift(x) != 0,
{
    assert(x != 0 ==> (x ^ (x << 13u32)) ^ ((x ^ (x << 13u32)) >> 17u32) ^ (((x ^ (x << 13u32)) ^ ((x
        ^ (x << 13u32)) >> 17u32)) << 5u32) != 0) by (bit_vector);
}

/// The xorshift pseudo-random generator that drives the noise.
#[derive(Debug)]
pub struct XorShift32 {
    state: u32,
}

impl XorShift32 {
    #[verifier::type_invariant]
    spec fn nonzero(self) -> bool {
        self.state != 0
    }

    /// The current state.
    pub closed spec fn state(self) -> u32 {
        self.state
    }

    /// A generator seeded with `seed`; the lowest bit is forced on so that the state is nonzero.
    pub fn new(seed: u32) -> (r: XorShift32)
        ensures
            r.state() == seed | 1u32,
            r.state() != 0,
    {
        assert(seed | 1u32 != 0) by (bit_vector);
        XorShift32 { state: seed | 1 }
    }

    /// Advances the state by one xorshift step and returns the new state.
    pub fn next_u32(&mut self) -> (x: u32)
        ensures
            x == xorshift(old(self).state()),
            final(self).state() == x,
            x != 0,
    {
        proof {
            use_type_invariant(&*self);
            xorshift_keeps_nonzero(self.state);
        }
        let mut x = self.state;
        x ^= x << 13;
        x ^= x >> 17;
        x ^= x << 5;
        self.state = x;
        x
    }
}

} // verus!
