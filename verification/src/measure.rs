use vstd::prelude::*;
use crate::errors::PipelineError;
use crate::num::{Decimal, dec_token_ok, dec_value, digit_count, is_digit, is_dot,
    parse_decimal_range};

verus! {

/// Whitespace as the pattern tolerates it: space, tab, line feed, vertical
/// tab, form feed, carriage return.
pub open spec fn is_ws(b: u8) -> bool {
    b == 32 || (9 <= b && b <= 13)
}

/// The bytes of `Download` stand at position `i`.
pub open spec fn download_at(s: Seq<u8>, i: int) -> bool {
    &&& 0 <= i
    &&& i + 8 <= s.len()
    &&& s[i] == 68  // D
    &&& s[i + 1] == 111  // o
    &&& s[i + 2] == 119  // w
    &&& s[i + 3] == 110  // n
    &&& s[i + 4] == 108  // l
    &&& s[i + 5] == 111  // o
    &&& s[i + 6] == 97  // a
    &&& s[i + 7] == 100  // d
}

/// The bytes of `Mbps` stand at position `m`.
pub open spec fn mbps_at(s: Seq<u8>, m: int) -> bool {
    &&& 0 <= m
    &&& m + 4 <= s.len()
    &&& s[m] == 77  // M
    &&& s[m + 1] == 98  // b
    &&& s[m + 2] == 112  // p
    &&& s[m + 3] == 115  // s
}

/// The download pattern, with every landmark named: `Download` at `i`, then
/// label text free of colons and line breaks, a colon at `c`, whitespace, a
/// number token at `[t0, t1)`, whitespace, and `Mbps` at `m`.  Both
/// whitespace runs are non-empty, and the token is delimited by whitespace on
/// both sides, so all five landmarks are determined by `i`.
pub open spec fn match_shape(s: Seq<u8>, i: int, c: int, t0: int, t1: int, m: int) -> bool {
    &&& download_at(s, i)
    &&& i + 8 <= c < s.len()
    &&& s[c] == 58  // :
    &&& (forall|k: int| i + 8 <= k < c ==> s[k] != 58 && s[k] != 10)
    &&& c + 2 <= t0
    &&& (forall|k: int| c < k < t0 ==> is_ws(s[k]))
    &&& t0 < t1 <= s.len()
    &&& (forall|k: int| t0 <= k < t1 ==> is_digit(s[k]) || is_dot(s[k]))
    &&& t1 < m
    &&& (forall|k: int| t1 <= k < m ==> is_ws(s[k]))
    &&& mbps_at(s, m)
}

/// The download pattern stands at position `i`.
pub open spec fn match_at(s: Seq<u8>, i: int) -> bool {
    exists|c: int, t0: int, t1: int, m: int| match_shape(s, i, c, t0, t1, m)
}

/// `i` is the first position at which the pattern stands.
pub open spec fn first_match_at(s: Seq<u8>, i: int) -> bool {
    match_at(s, i) && (forall|j: int| 0 <= j < i ==> !match_at(s, j))
}

/// `d` is the value of the number token of the first pattern occurrence.
pub open spec fn measurement_value(s: Seq<u8>, d: Decimal) -> bool {
    exists|i: int, c: int, t0: int, t1: int, m: int|
        first_match_at(s, i) && match_shape(s, i, c, t0, t1, m) && dec_token_ok(
            s.subrange(t0, t1),
        ) && d == dec_value(s.subrange(t0, t1))
}

/// No pattern occurrence yields a value: either none stands in `s`, or the
/// first one's token is not an accepted decimal.
pub open spec fn measurement_fails(s: Seq<u8>) -> bool {
    ||| (forall|i: int| !match_at(s, i))
    ||| (exists|i: int, c: int, t0: int, t1: int, m: int|
        first_match_at(s, i) && match_shape(s, i, c, t0, t1, m) && !dec_token_ok(
            s.subrange(t0, t1),
        ))
}

/// The pattern's landmarks are determined by its start: two decompositions of
/// an occurrence at `i` name the same colon, token and unit positions.
pub proof fn lemma_match_witnesses_unique(
    s: Seq<u8>,
    i: int,
    c1: int,
    t01: int,
    t11: int,
    m1: int,
    c2: int,
    t02: int,
    t12: int,
    m2: int,
)
    requires
        match_shape(s, i, c1, t01, t11, m1),
        match_shape(s, i, c2, t02, t12, m2),
    ensures
        c1 == c2 && t01 == t02 && t11 == t12 && m1 == m2,
{
    if c1 < c2 {
        assert(s[c1] != 58);
    }
    if c2 < c1 {
        assert(s[c2] != 58);
    }
    if t01 < t02 {
        assert(is_ws(s[t01]));
        assert(is_digit(s[t01]) || is_dot(s[t01]));
    }
    if t02 < t01 {
        assert(is_ws(s[t02]));
        assert(is_digit(s[t02]) || is_dot(s[t02]));
    }
    if t11 < t12 {
        assert(is_ws(s[t11]));
        assert(is_digit(s[t11]) || is_dot(s[t11]));
    }
    if t12 < t11 {
        assert(is_ws(s[t12]));
        assert(is_digit(s[t12]) || is_dot(s[t12]));
    }
    if m1 < m2 {
        assert(is_ws(s[m1]));
        assert(s[m1] == 77);
    }
    if m2 < m1 {
        assert(is_ws(s[m2]));
        assert(s[m2] == 77);
    }
}

/// Law: parsing is deterministic — the measured sample is a function of the
/// captured output text alone.
pub proof fn lemma_measurement_value_unique(s: Seq<u8>, d1: Decimal, d2: Decimal)
    requires
        measurement_value(s, d1),
        measurement_value(s, d2),
    ensures
        d1 == d2,
{
    let (i1, c1, t01, t11, m1) = choose|i: int, c: int, t0: int, t1: int, m: int|
        first_match_at(s, i) && match_shape(s, i, c, t0, t1, m) && dec_token_ok(
            s.subrange(t0, t1),
        ) && d1 == dec_value(s.subrange(t0, t1));
    let (i2, c2, t02, t12, m2) = choose|i: int, c: int, t0: int, t1: int, m: int|
        first_match_at(s, i) && match_shape(s, i, c, t0, t1, m) && dec_token_ok(
            s.subrange(t0, t1),
        ) && d2 == dec_value(s.subrange(t0, t1));
    if i1 < i2 {
        assert(!match_at(s, i1));
        assert(match_at(s, i1));
    }
    if i2 < i1 {
        assert(!match_at(s, i2));
        assert(match_at(s, i2));
    }
    lemma_match_witnesses_unique(s, i1, c1, t01, t11, m1, c2, t02, t12, m2);
}

/// Law: parsing is whitespace-insensitive.  An output assembled as
/// `Download`, label text without colon or line break, `:`, any non-empty
/// whitespace, an accepted number token, any non-empty whitespace, `Mbps` —
/// with anything at all after — parses to the token's value, however long the
/// whitespace runs and the label are.
pub proof fn lemma_whitespace_insensitive(
    s: Seq<u8>,
    label: Seq<u8>,
    w1: Seq<u8>,
    tok: Seq<u8>,
    w2: Seq<u8>,
    rest: Seq<u8>,
)
    requires
        s == seq![68u8, 111, 119, 110, 108, 111, 97, 100] + label + seq![58u8] + w1 + tok + w2
            + seq![77u8, 98, 112, 115] + rest,
        forall|k: int| 0 <= k < label.len() ==> label[k] != 58 && label[k] != 10,
        w1.len() > 0,
        forall|k: int| 0 <= k < w1.len() ==> is_ws(w1[k]),
        forall|k: int| 0 <= k < tok.len() ==> is_digit(tok[k]) || is_dot(tok[k]),
        dec_token_ok(tok),
        w2.len() > 0,
        forall|k: int| 0 <= k < w2.len() ==> is_ws(w2[k]),
    ensures
        measurement_value(s, dec_value(tok)),
{
    let c = 8 + label.len() as int;
    let t0 = c + 1 + w1.len() as int;
    let t1 = t0 + tok.len() as int;
    let m = t1 + w2.len() as int;
    assert(tok.len() > 0) by {
        if tok.len() == 0 {
            assert(digit_count(tok) == 0);
        }
    }
    assert(download_at(s, 0));
    assert(s[c] == 58);
    assert(forall|k: int| 8 <= k < c ==> s[k] == label[k - 8]);
    assert(forall|k: int| c < k < t0 ==> s[k] == w1[k - c - 1]);
    assert(forall|k: int| t0 <= k < t1 ==> s[k] == tok[k - t0]);
    assert(forall|k: int| t1 <= k < m ==> s[k] == w2[k - t1]);
    assert(mbps_at(s, m));
    assert(match_shape(s, 0, c, t0, t1, m));
    assert(first_match_at(s, 0));
    assert(s.subrange(t0, t1) =~= tok);
}

fn ws(b: u8) -> (r: bool)
    ensures
        r == is_ws(b),
{
    b == 32 || (9 <= b && b <= 13)
}

fn num_char(b: u8) -> (r: bool)
    ensures
        r == (is_digit(b) || is_dot(b)),
{
    (48 <= b && b <= 57) || b == 46
}

fn download_prefix_at(s: &Vec<u8>, i: usize) -> (r: bool)
    requires
        i <= s.len(),
    ensures
        r == download_at(s@, i as int),
{
    if s.len() - i < 8 {
        return false;
    }
    s[i] == 68 && s[i + 1] == 111 && s[i + 2] == 119 && s[i + 3] == 110 && s[i + 4] == 108 && s[i
        + 5] == 111 && s[i + 6] == 97 && s[i + 7] == 100
}

fn mbps_prefix_at(s: &Vec<u8>, m: usize) -> (r: bool)
    requires
        m <= s.len(),
    ensures
        r == mbps_at(s@, m as int),
{
    if s.len() - m < 4 {
        return false;
    }
    s[m] == 77 && s[m + 1] == 98 && s[m + 2] == 112 && s[m + 3] == 115
}

/// Completes the pattern after `Download` at `i`; on success returns the
/// number token's bounds.
fn match_tail(s: &Vec<u8>, i: usize) -> (r: Option<(usize, usize)>)
    requires
        download_at(s@, i as int),
    ensures
        match r {
            Some(t) => t.0 < t.1 <= s.len() && exists|c: int, m: int|
                match_shape(s@, i as int, c, t.0 as int, t.1 as int, m),
            None => !match_at(s@, i as int),
        },
{
    let n = s.len();
    // the colon ending the label, on the same line
    let mut j: usize = i + 8;
    while j < n && s[j] != 58 && s[j] != 10
        invariant
            i + 8 <= j <= n == s.len(),
            forall|k: int| i + 8 <= k < j ==> s@[k] != 58 && s@[k] != 10,
        decreases n - j,
    {
        j = j + 1;
    }
    if j == n || s[j] != 58 {
        proof {
            assert forall|c: int, t0: int, t1: int, m: int|
                !match_shape(s@, i as int, c, t0, t1, m) by {
                if match_shape(s@, i as int, c, t0, t1, m) {
                    if c < j {
                        assert(s@[c] != 58);
                    } else if c > j {
                        assert(s@[j as int] != 58 && s@[j as int] != 10);
                    }
                }
            }
        }
        return None;
    }
    let c = j;
    // at least one whitespace byte after the colon
    let mut w: usize = c + 1;
    while w < n && ws(s[w])
        invariant
            c + 1 <= w <= n == s.len(),
            c < n,
            forall|k: int| c < k < w ==> is_ws(s@[k]),
        decreases n - w,
    {
        w = w + 1;
    }
    proof {
        // in any occurrence at i the colon is this one
        assert forall|c2: int, t0: int, t1: int, m: int|
            match_shape(s@, i as int, c2, t0, t1, m) implies c2 == c by {
            if c2 < c {
                assert(s@[c2] != 58);
            } else if c2 > c {
                assert(s@[c as int] != 58 && s@[c as int] != 10);
            }
        }
    }
    if w == c + 1 || w == n {
        proof {
            assert forall|c2: int, t0: int, t1: int, m: int|
                !match_shape(s@, i as int, c2, t0, t1, m) by {
                if match_shape(s@, i as int, c2, t0, t1, m) {
                    assert(c2 == c);
                    if w == c + 1 {
                        // the byte after the colon is not whitespace, or is past the end
                        assert(c + 1 < t0 < t1 <= n);
                        assert(is_ws(s@[c + 1]));
                    } else {
                        // whitespace runs to the end: no room for a token
                        assert(t0 < t1 <= n);
                        assert(is_digit(s@[t0]) || is_dot(s@[t0]));
                        if t0 < w {
                            assert(is_ws(s@[t0]));
                        }
                    }
                }
            }
        }
        return None;
    }
    // the number token
    let t0 = w;
    if !num_char(s[t0]) {
        proof {
            assert forall|c2: int, u0: int, t1: int, m: int|
                !match_shape(s@, i as int, c2, u0, t1, m) by {
                if match_shape(s@, i as int, c2, u0, t1, m) {
                    assert(c2 == c);
                    if u0 < t0 {
                        assert(is_ws(s@[u0]));
                        assert(is_digit(s@[u0]) || is_dot(s@[u0]));
                    } else if u0 > t0 {
                        assert(is_ws(s@[t0 as int]));
                    } else {
                        assert(is_digit(s@[t0 as int]) || is_dot(s@[t0 as int]));
                    }
                }
            }
        }
        return None;
    }
    let mut t1: usize = t0;
    while t1 < n && num_char(s[t1])
        invariant
            t0 <= t1 <= n == s.len(),
            forall|k: int| t0 <= k < t1 ==> is_digit(s@[k]) || is_dot(s@[k]),
        decreases n - t1,
    {
        t1 = t1 + 1;
    }
    proof {
        // in any occurrence at i the token starts and ends here
        assert forall|c2: int, u0: int, u1: int, m: int|
            match_shape(s@, i as int, c2, u0, u1, m) implies u0 == t0 && u1 == t1 by {
            if match_shape(s@, i as int, c2, u0, u1, m) {
                assert(c2 == c);
                if u0 < t0 {
                    assert(is_ws(s@[u0]));
                    assert(is_digit(s@[u0]) || is_dot(s@[u0]));
                } else if u0 > t0 {
                    assert(is_ws(s@[t0 as int]));
                    assert(is_digit(s@[t0 as int]) || is_dot(s@[t0 as int]));
                }
                assert(u0 == t0);
                if u1 < t1 {
                    assert(is_ws(s@[u1]));
                    assert(is_digit(s@[u1]) || is_dot(s@[u1]));
                } else if u1 > t1 {
                    assert(t1 < n);
                    assert(is_digit(s@[t1 as int]) || is_dot(s@[t1 as int]));
                }
            }
        }
    }
    if t1 == n || !ws(s[t1]) {
        proof {
            assert forall|c2: int, u0: int, u1: int, m: int|
                !match_shape(s@, i as int, c2, u0, u1, m) by {
                if match_shape(s@, i as int, c2, u0, u1, m) {
                    assert(u1 == t1);
                    assert(u1 < m && mbps_at(s@, m));
                    assert(is_ws(s@[u1 as int]));
                }
            }
        }
        return None;
    }
    // at least one whitespace byte, then `Mbps`
    let mut m: usize = t1;
    while m < n && ws(s[m])
        invariant
            t1 <= m <= n == s.len(),
            forall|k: int| t1 <= k < m ==> is_ws(s@[k]),
        decreases n - m,
    {
        m = m + 1;
    }
    if mbps_prefix_at(s, m) {
        proof {
            assert(is_ws(s@[t1 as int]));
            assert(m > t1);
            assert(match_shape(s@, i as int, c as int, t0 as int, t1 as int, m as int));
        }
        return Some((t0, t1));
    }
    proof {
        assert forall|c2: int, u0: int, u1: int, m2: int|
            !match_shape(s@, i as int, c2, u0, u1, m2) by {
            if match_shape(s@, i as int, c2, u0, u1, m2) {
                assert(u1 == t1);
                if m2 < m {
                    assert(is_ws(s@[m2]));
                    assert(s@[m2] == 77);
                } else if m2 > m {
                    assert(m < n);
                    assert(is_ws(s@[m as int]));
                }
                assert(m2 == m);
                assert(mbps_at(s@, m as int));
            }
        }
    }
    None
}

/// The parsing half of the Measurement Adapter: finds the first
/// `Download ...: <number> Mbps` pattern in the captured output and returns
/// the number as an exact decimal in Mbps.  Tolerates extra whitespace inside
/// the pattern and any unrelated output around it.
pub fn parse_download_mbps(out: &Vec<u8>) -> (r: Option<Decimal>)
    ensures
        match r {
            Some(d) => measurement_value(out@, d) && d.valid(),
            None => measurement_fails(out@),
        },
{
    let n = out.len();
    let mut i: usize = 0;
    while i < n
        invariant
            i <= n == out.len(),
            forall|j: int| 0 <= j < i ==> !match_at(out@, j),
        decreases n - i,
    {
        if download_prefix_at(out, i) {
            match match_tail(out, i) {
                Some((t0, t1)) => {
                    proof {
                        assert(first_match_at(out@, i as int));
                    }
                    match parse_decimal_range(out, t0, t1) {
                        Some(d) => {
                            return Some(d);
                        },
                        None => {
                            return None;
                        },
                    }
                },
                None => {},
            }
        } else {
            proof {
                assert forall|c: int, t0: int, t1: int, m: int|
                    !match_shape(out@, i as int, c, t0, t1, m) by {
                    if match_shape(out@, i as int, c, t0, t1, m) {
                        assert(download_at(out@, i as int));
                    }
                }
                assert(!match_at(out@, i as int));
            }
        }
        i = i + 1;
    }
    proof {
        assert forall|j: int| !match_at(out@, j) by {
            if match_at(out@, j) {
                let (c, t0, t1, m) = choose|c: int, t0: int, t1: int, m: int|
                    match_shape(out@, j, c, t0, t1, m);
                assert(download_at(out@, j));
                assert(0 <= j < n);
            }
        }
    }
    None
}

/// The computing half of the Measurement Adapter: judges an external
/// measurement process's captured outcome.  A run that did not exit
/// successfully is a `ProcessError` carrying the exit code and the captured
/// output; otherwise the first download pattern in stdout gives the sample,
/// and its absence (or an unaccepted number) is a `ParseError`.
pub fn evaluate_measurement(
    exit_ok: bool,
    exit_code: Option<i32>,
    stdout: Vec<u8>,
    stderr: Vec<u8>,
) -> (r: Result<Decimal, PipelineError>)
    ensures
        match r {
            Ok(d) => exit_ok && measurement_value(stdout@, d) && d.valid(),
            Err(e) => if exit_ok {
                e == PipelineError::ParseError && measurement_fails(stdout@)
            } else {
                e == (PipelineError::ProcessError { exit_code, stdout, stderr })
            },
        },
{
    if !exit_ok {
        return Err(PipelineError::ProcessError { exit_code, stdout, stderr });
    }
    match parse_download_mbps(&stdout) {
        Some(d) => Ok(d),
        None => Err(PipelineError::ParseError),
    }
}

} // verus!
