use vstd::prelude::*;

verus! {

/// Why a sampling configuration was refused.
#[derive(Debug, Clone, Copy, PartialEq, Eq, Structural)]
pub enum SampleError {
    /// The sample size is larger than the population.
    InvalidSampleSize,
    /// The crossover parameter is zero.
    InvalidAlpha,
}

/// The parameters of one sampling run: `n` items are drawn out of a
/// population of `population` items; `alpha` sets the point at which the
/// rejection method hands over to direct inversion.
#[derive(Debug, Clone, Copy, PartialEq, Eq, Structural)]
pub struct SamplingConfig {
    pub n: usize,
    pub population: usize,
    pub alpha: usize,
}

impl SamplingConfig {
    /// A configuration is valid when the sample fits in the population and
    /// `alpha` is at least one.
    pub open spec fn valid(&self) -> bool {
        self.n <= self.population && self.alpha >= 1
    }

    /// Checks the parameters; the sample size is checked first.
    pub fn new(n: usize, population: usize, alpha: usize) -> (r: Result<SamplingConfig, SampleError>)
        ensures
            n > population ==> r == Err::<SamplingConfig, SampleError>(SampleError::InvalidSampleSize),
            n <= population && alpha == 0 ==> r == Err::<SamplingConfig, SampleError>(SampleError::InvalidAlpha),
            n <= population && alpha >= 1 ==> r == Ok::<SamplingConfig, SampleError>(
                SamplingConfig { n, population, alpha },
            ),
    {
        if n > population {
            Err(SampleError::InvalidSampleSize)
        } else if alpha == 0 {
            Err(SampleError::InvalidAlpha)
        } else {
            Ok(SamplingConfig { n, population, alpha })
        }
    }
}

/// The crossover rule: with `to_select` items still to choose out of
/// `remaining`, direct inversion takes over once `to_select >= remaining / alpha`
/// in real division, that is once `to_select * alpha >= remaining`.
pub open spec fn direct_rule(to_select: nat, remaining: nat, alpha: nat) -> bool {
    to_select * alpha >= remaining
}

/// Decides the crossover rule without overflow.
pub fn direct_preferred(to_select: usize, remaining: usize, alpha: usize) -> (r: bool)
    ensures
        r == direct_rule(to_select as nat, remaining as nat, alpha as nat),
{
    let a: u128 = to_select as u128;
    let b: u128 = alpha as u128;
    assert(a * b <= 0xffff_ffff_ffff_ffffu128 * 0xffff_ffff_ffff_ffffu128) by (nonlinear_arith)
        requires
            a <= 0xffff_ffff_ffff_ffffu128,
            b <= 0xffff_ffff_ffff_ffffu128,
    ;
    a * b >= remaining as u128
}

} // verus!
