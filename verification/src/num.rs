use vstd::prelude::*;

verus! {

/// Greatest number of fractional digits a `Decimal` may carry.  Together with
/// `MAX_DIGITS` it bounds every product taken in `compute_ratio` so that the
/// exact ratio fits in a `u128`.
pub const MAX_SCALE: u32 = 12;

/// Greatest number of digits (integral and fractional together) a decimal
/// token may carry: a 19-digit number is below 10^19 and so fits in a `u64`.
pub const MAX_DIGITS: u64 = 19;

/// 10^n.
pub open spec fn pow10(n: nat) -> nat
    decreases n,
{
    if n == 0 {
        1
    } else {
        10 * pow10((n - 1) as nat)
    }
}

/// An exact non-negative decimal number: `mantissa / 10^scale`.
#[derive(Clone, Copy, Debug, PartialEq, Eq, Structural)]
pub struct Decimal {
    pub mantissa: u64,
    pub scale: u32,
}

impl Decimal {
    pub open spec fn valid(self) -> bool {
        self.scale <= MAX_SCALE
    }
}

/// A decimal number together with its sign, as a metrics store may report one.
#[derive(Clone, Copy, Debug, PartialEq, Eq, Structural)]
pub struct SignedDecimal {
    pub negative: bool,
    pub magnitude: Decimal,
}

impl SignedDecimal {
    pub open spec fn valid(self) -> bool {
        self.magnitude.valid()
    }

    /// Strictly greater than zero: a legal denominator for the ratio.
    pub open spec fn is_positive(self) -> bool {
        !self.negative && self.magnitude.mantissa > 0
    }
}

pub proof fn lemma_pow10_pos(n: nat)
    ensures
        pow10(n) >= 1,
    decreases n,
{
    if n > 0 {
        lemma_pow10_pos((n - 1) as nat);
    }
}

pub proof fn lemma_pow10_mono(a: nat, b: nat)
    requires
        a <= b,
    ensures
        pow10(a) <= pow10(b),
    decreases b,
{
    if a < b {
        lemma_pow10_mono(a, (b - 1) as nat);
        lemma_pow10_pos((b - 1) as nat);
    }
}

pub proof fn lemma_pow10_adds(a: nat, b: nat)
    ensures
        pow10(a + b) == pow10(a) * pow10(b),
    decreases a,
{
    if a > 0 {
        lemma_pow10_adds((a - 1) as nat, b);
        let x = pow10((a - 1) as nat);
        let y = pow10(b);
        assert(pow10(((a - 1) as nat) + b) == x * y);
        assert(((a - 1) as nat) + b == (a + b - 1) as nat);
        assert(pow10((a + b - 1) as nat) == x * y);
        assert(pow10(a + b) == 10 * pow10((a + b - 1) as nat));
        assert(pow10(a) == 10 * x);
        assert(10 * (x * y) == (10 * x) * y) by (nonlinear_arith);
        assert(pow10(a + b) == pow10(a) * y);
    } else {
        assert(a == 0);
        assert(pow10(a) == 1);
        assert(a + b == b);
        assert(pow10(a + b) == pow10(b));
        assert(pow10(a) * pow10(b) == 1 * pow10(b)) by (nonlinear_arith)
            requires
                pow10(a) == 1,
        ;
    }
}

/// The concrete powers of ten the executable code compares against.
pub proof fn lemma_pow10_values()
    ensures
        pow10(12) == 1_000_000_000_000,
        pow10(19) == 10_000_000_000_000_000_000,
        pow10(20) == 100_000_000_000_000_000_000,
        pow10(38) == 100_000_000_000_000_000_000_000_000_000_000_000_000,
{
    reveal_with_fuel(pow10, 13);
    assert(pow10(12) == 1_000_000_000_000);
    assert(pow10(19) == pow10(12) * pow10(7)) by {
        lemma_pow10_adds(12, 7);
    }
    assert(pow10(20) == pow10(12) * pow10(8)) by {
        lemma_pow10_adds(12, 8);
    }
    assert(pow10(38) == pow10(19) * pow10(19)) by {
        lemma_pow10_adds(19, 19);
    }
    assert((10_000_000_000_000_000_000 as int) * (10_000_000_000_000_000_000 as int)
        == 100_000_000_000_000_000_000_000_000_000_000_000_000) by (nonlinear_arith);
}

pub open spec fn is_digit(b: u8) -> bool {
    48 <= b && b <= 57
}

pub open spec fn is_dot(b: u8) -> bool {
    b == 46
}

pub open spec fn digit_val(b: u8) -> nat {
    (b - 48) as nat
}

/// Every byte is a digit or a dot.
pub open spec fn dec_chars_ok(s: Seq<u8>) -> bool {
    forall|i: int| 0 <= i < s.len() ==> is_digit(s[i]) || is_dot(s[i])
}

pub open spec fn dot_count(s: Seq<u8>) -> nat
    decreases s.len(),
{
    if s.len() == 0 {
        0
    } else {
        dot_count(s.drop_last()) + if is_dot(s.last()) {
            1nat
        } else {
            0nat
        }
    }
}

pub open spec fn digit_count(s: Seq<u8>) -> nat
    decreases s.len(),
{
    if s.len() == 0 {
        0
    } else {
        digit_count(s.drop_last()) + if is_digit(s.last()) {
            1nat
        } else {
            0nat
        }
    }
}

/// A well-formed decimal token: digits with at most one dot among them and at
/// least one digit, as in `93.45`, `100`, `5.` or `.5`.
pub open spec fn dec_wf(s: Seq<u8>) -> bool {
    dec_chars_ok(s) && dot_count(s) <= 1 && digit_count(s) >= 1
}

/// The token's digits read as one number, the dot ignored: `93.45` gives 9345.
pub open spec fn dec_mant(s: Seq<u8>) -> nat
    decreases s.len(),
{
    if s.len() == 0 {
        0
    } else if is_digit(s.last()) {
        dec_mant(s.drop_last()) * 10 + digit_val(s.last())
    } else {
        dec_mant(s.drop_last())
    }
}

/// How many digits follow the dot: `93.45` gives 2, `100` gives 0.
pub open spec fn dec_scale(s: Seq<u8>) -> nat
    decreases s.len(),
{
    if s.len() == 0 {
        0
    } else if is_dot(s.last()) {
        0
    } else if dot_count(s) >= 1 {
        dec_scale(s.drop_last()) + 1
    } else {
        0
    }
}

/// A token the library accepts: well formed and within the precision bounds.
pub open spec fn dec_token_ok(s: Seq<u8>) -> bool {
    dec_wf(s) && digit_count(s) <= MAX_DIGITS && dec_scale(s) <= MAX_SCALE
}

/// The number a well-formed token denotes.
pub open spec fn dec_value(s: Seq<u8>) -> Decimal {
    Decimal { mantissa: dec_mant(s) as u64, scale: dec_scale(s) as u32 }
}

/// Counting dots and digits over a prefix never exceeds the count over the
/// whole sequence.
pub proof fn lemma_counts_prefix(s: Seq<u8>, k: int)
    requires
        0 <= k <= s.len(),
    ensures
        dot_count(s.subrange(0, k)) <= dot_count(s),
        digit_count(s.subrange(0, k)) <= digit_count(s),
    decreases s.len() - k,
{
    if k == s.len() {
        assert(s.subrange(0, k) =~= s);
    } else {
        lemma_counts_prefix(s.drop_last(), k);
        assert(s.drop_last().subrange(0, k) =~= s.subrange(0, k));
    }
}

/// Once a dot stands in a prefix, appending further characters of a token
/// with a single dot only moves the scale up.
pub proof fn lemma_scale_prefix(s: Seq<u8>, k: int)
    requires
        0 <= k <= s.len(),
        dec_chars_ok(s),
        dot_count(s) <= 1,
        dot_count(s.subrange(0, k)) >= 1,
    ensures
        dec_scale(s) >= dec_scale(s.subrange(0, k)),
    decreases s.len() - k,
{
    if k == s.len() {
        assert(s.subrange(0, k) =~= s);
    } else {
        let dl = s.drop_last();
        assert(dl.subrange(0, k) =~= s.subrange(0, k));
        assert(dec_chars_ok(dl)) by {
            assert(forall|i: int| 0 <= i < dl.len() ==> dl[i] == s[i]);
        }
        lemma_scale_prefix(dl, k);
        lemma_counts_prefix(dl, k);
        if is_dot(s.last()) {
            assert(dot_count(s) >= 2);
        } else {
            assert(is_digit(s.last()));
            assert(dot_count(s) >= dot_count(s.subrange(0, k))) by {
                lemma_counts_prefix(s, k);
            }
        }
    }
}

/// Parses the token `s[from..to]` as an exact decimal.  Returns the token's
/// value exactly when the token is well formed and within the precision
/// bounds (`dec_token_ok`).
pub fn parse_decimal_range(s: &Vec<u8>, from: usize, to: usize) -> (r: Option<Decimal>)
    requires
        from <= to <= s.len(),
    ensures
        match r {
            Some(d) => dec_token_ok(s@.subrange(from as int, to as int)) && d == dec_value(
                s@.subrange(from as int, to as int),
            ),
            None => !dec_token_ok(s@.subrange(from as int, to as int)),
        },
{
    let ghost tok = s@.subrange(from as int, to as int);
    proof {
        lemma_pow10_values();
    }
    let mut i: usize = from;
    let mut acc: u64 = 0;
    let mut digits: u64 = 0;
    let mut dots: u64 = 0;
    let mut scale: u32 = 0;
    while i < to
        invariant
            from <= i <= to <= s.len(),
            tok == s@.subrange(from as int, to as int),
            dec_chars_ok(s@.subrange(from as int, i as int)),
            acc == dec_mant(s@.subrange(from as int, i as int)),
            digits == digit_count(s@.subrange(from as int, i as int)),
            dots == dot_count(s@.subrange(from as int, i as int)),
            scale == dec_scale(s@.subrange(from as int, i as int)),
            dots <= 1,
            digits <= MAX_DIGITS,
            scale <= MAX_SCALE,
            acc < pow10(digits as nat),
            pow10(19) == 10_000_000_000_000_000_000,
        decreases to - i,
    {
        let ghost pre = s@.subrange(from as int, i as int);
        let ghost pre1 = s@.subrange(from as int, i as int + 1);
        proof {
            assert(pre1.drop_last() =~= pre);
            assert(pre1.last() == s@[i as int]);
        }
        let b = s[i];
        if 48 <= b && b <= 57 {
            if digits == MAX_DIGITS {
                proof {
                    lemma_counts_prefix(tok, i as int + 1 - from as int);
                    assert(tok.subrange(0, i as int + 1 - from as int) =~= pre1);
                }
                return None;
            }
            proof {
                lemma_pow10_mono(digits as nat, 18);
                assert(acc * 10 + 9 < pow10(19)) by (nonlinear_arith)
                    requires
                        acc < pow10(digits as nat),
                        pow10(digits as nat) <= pow10(18),
                        10 * pow10(18) == pow10(19),
                ;
            }
            acc = acc * 10 + ((b - 48) as u64);
            digits = digits + 1;
            if dots >= 1 {
                if scale == MAX_SCALE {
                    proof {
                        lemma_counts_prefix(tok, i as int + 1 - from as int);
                        assert(tok.subrange(0, i as int + 1 - from as int) =~= pre1);
                        if dec_chars_ok(tok) && dot_count(tok) <= 1 {
                            lemma_scale_prefix(tok, i as int + 1 - from as int);
                        }
                    }
                    return None;
                }
                scale = scale + 1;
            }
        } else if b == 46 {
            if dots == 1 {
                proof {
                    lemma_counts_prefix(tok, i as int + 1 - from as int);
                    assert(tok.subrange(0, i as int + 1 - from as int) =~= pre1);
                }
                return None;
            }
            dots = 1;
            scale = 0;
        } else {
            proof {
                assert(tok[i as int - from as int] == s@[i as int]);
            }
            return None;
        }
        i = i + 1;
    }
    proof {
        assert(s@.subrange(from as int, i as int) =~= tok);
    }
    if digits == 0 {
        return None;
    }
    Some(Decimal { mantissa: acc, scale })
}

pub open spec fn signed_neg(s: Seq<u8>) -> bool {
    s.len() > 0 && s[0] == 45
}

/// The token with a leading `-` or `+` stripped.
pub open spec fn signed_body(s: Seq<u8>) -> Seq<u8> {
    if s.len() > 0 && (s[0] == 45 || s[0] == 43) {
        s.subrange(1, s.len() as int)
    } else {
        s
    }
}

/// Parses an optionally signed decimal token, as the metrics store formats a
/// sample value.
pub fn parse_signed_decimal(s: &Vec<u8>) -> (r: Option<SignedDecimal>)
    ensures
        match r {
            Some(v) => dec_token_ok(signed_body(s@)) && v == (SignedDecimal {
                negative: signed_neg(s@),
                magnitude: dec_value(signed_body(s@)),
            }),
            None => !dec_token_ok(signed_body(s@)),
        },
{
    let mut from: usize = 0;
    let mut negative = false;
    if s.len() > 0 {
        let b = s[0];
        if b == 45 {
            negative = true;
            from = 1;
        } else if b == 43 {
            from = 1;
        }
    }
    proof {
        assert(signed_body(s@) =~= s@.subrange(from as int, s@.len() as int));
    }
    match parse_decimal_range(s, from, s.len()) {
        Some(d) => Some(SignedDecimal { negative, magnitude: d }),
        None => None,
    }
}

} // verus!
