use vstd::prelude::*;
use crate::errors::PipelineError;
use crate::num::{
    Decimal, SignedDecimal, lemma_pow10_adds, lemma_pow10_mono, lemma_pow10_pos,
    lemma_pow10_values, pow10,
};

verus! {

/// Power of ten converting megabits per second to bits per second.
pub const MBPS_TO_BPS_EXP: u32 = 6;

/// The exact measured-to-observed quotient as a fraction `num / den`.
#[derive(Clone, Copy, Debug, PartialEq, Eq, Structural)]
pub struct Ratio {
    pub num: u128,
    pub den: u128,
}

impl Ratio {
    pub open spec fn valid(self) -> bool {
        self.den > 0
    }
}

/// 10^n, executable.
pub fn pow10_u128(n: u32) -> (r: u128)
    requires
        n <= 19,
    ensures
        r == pow10(n as nat),
{
    proof {
        lemma_pow10_values();
    }
    let mut r: u128 = 1;
    let mut i: u32 = 0;
    while i < n
        invariant
            i <= n <= 19,
            r == pow10(i as nat),
            pow10(19) == 10_000_000_000_000_000_000,
        decreases n - i,
    {
        proof {
            lemma_pow10_mono((i + 1) as nat, 19);
        }
        r = r * 10;
        i = i + 1;
    }
    r
}

/// Combines the two observations into the exact dimensionless ratio
/// `(measured Mbps converted to bps) / (observed bps)`.
///
/// With `measured = m1 / 10^s1` Mbps and `observed = m2 / 10^s2` bps the
/// result is the fraction `(m1 * 10^(6+s2)) / (m2 * 10^s1)`.  An observed
/// sample that is zero or negative is no valid denominator and is rejected
/// with `DivisionError`; it never yields a zero, negative or infinite ratio.
pub fn compute_ratio(measured: &Decimal, observed: &SignedDecimal) -> (r: Result<
    Ratio,
    PipelineError,
>)
    requires
        measured.valid(),
        observed.valid(),
    ensures
        match r {
            Ok(q) => observed.is_positive() && q.num == measured.mantissa * pow10(
                (MBPS_TO_BPS_EXP + observed.magnitude.scale) as nat,
            ) && q.den == observed.magnitude.mantissa * pow10(measured.scale as nat) && q.valid(),
            Err(e) => !observed.is_positive() && e == PipelineError::DivisionError,
        },
{
    if observed.negative || observed.magnitude.mantissa == 0 {
        return Err(PipelineError::DivisionError);
    }
    let p_num = pow10_u128(MBPS_TO_BPS_EXP + observed.magnitude.scale);
    let p_den = pow10_u128(measured.scale);
    proof {
        lemma_pow10_values();
        lemma_pow10_mono((MBPS_TO_BPS_EXP + observed.magnitude.scale) as nat, 18);
        lemma_pow10_mono(measured.scale as nat, 12);
        lemma_pow10_adds(20, 18);
        lemma_pow10_adds(20, 12);
        lemma_pow10_mono(32, 38);
        assert(measured.mantissa * p_num < pow10(20) * pow10(18)) by (nonlinear_arith)
            requires
                0 <= measured.mantissa < pow10(20),
                0 <= p_num <= pow10(18),
                0 < pow10(18),
        ;
        assert(observed.magnitude.mantissa * p_den < pow10(20) * pow10(12)) by (nonlinear_arith)
            requires
                0 <= observed.magnitude.mantissa < pow10(20),
                0 <= p_den <= pow10(12),
                0 < pow10(12),
        ;
        lemma_pow10_pos(measured.scale as nat);
        assert(observed.magnitude.mantissa * p_den >= 1) by (nonlinear_arith)
            requires
                observed.magnitude.mantissa >= 1,
                p_den >= 1,
        ;
    }
    let num = (measured.mantissa as u128) * p_num;
    let den = (observed.magnitude.mantissa as u128) * p_den;
    Ok(Ratio { num, den })
}

/// Law: the computed ratio is exactly the measured throughput, converted from
/// Mbps to bps by the fixed factor 10^6, divided by the observed throughput.
/// With `measured = m1 / 10^s1` and `observed = m2 / 10^s2`, the equation
/// `num / den == (m1 * 10^6 / 10^s1) / (m2 / 10^s2)` is stated here with both
/// sides cross-multiplied, so it speaks only of integers.
pub proof fn lemma_ratio_exact(measured: Decimal, observed: SignedDecimal, q: Ratio)
    requires
        measured.valid(),
        observed.valid(),
        observed.is_positive(),
        q.num == measured.mantissa * pow10((MBPS_TO_BPS_EXP + observed.magnitude.scale) as nat),
        q.den == observed.magnitude.mantissa * pow10(measured.scale as nat),
    ensures
        q.num * observed.magnitude.mantissa * pow10(measured.scale as nat) == q.den
            * (measured.mantissa * pow10(6) * pow10(observed.magnitude.scale as nat)),
{
    let m1 = measured.mantissa as nat;
    let m2 = observed.magnitude.mantissa as nat;
    let p1 = pow10(measured.scale as nat);
    let p2 = pow10(observed.magnitude.scale as nat);
    lemma_pow10_adds(6, observed.magnitude.scale as nat);
    assert(q.num == m1 * (pow10(6) * p2));
    assert((m1 * (pow10(6) * p2)) * m2 * p1 == (m2 * p1) * (m1 * pow10(6) * p2))
        by (nonlinear_arith);
}

} // verus!
