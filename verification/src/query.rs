use vstd::prelude::*;
use crate::errors::PipelineError;
use crate::num::{SignedDecimal, dec_token_ok, dec_value, parse_signed_decimal, signed_body,
    signed_neg};

verus! {

/// The status marker `success` of the metrics store.
pub open spec fn success_marker() -> Seq<u8> {
    seq![115u8, 117, 99, 99, 101, 115, 115]
}

/// `tcp_traffic_scan_tcp_bandwidth_avg_bps{interface="`, the metric selector
/// up to the interface label's opening quote.
pub open spec fn query_text_prefix() -> Seq<u8> {
    seq![116u8, 99, 112, 95, 116, 114, 97, 102, 102, 105, 99, 95, 115, 99, 97, 110, 95, 116, 99,
        112, 95, 98, 97, 110, 100, 119, 105, 100, 116, 104, 95, 97, 118, 103, 95, 98, 112, 115,
        123, 105, 110, 116, 101, 114, 102, 97, 99, 101, 61, 34]
}

/// `"}`, closing the label match and the selector.
pub open spec fn query_text_suffix() -> Seq<u8> {
    seq![34u8, 125]
}

/// `/api/v1/query?query=`, the instantaneous-query endpoint path.
pub open spec fn query_url_prefix() -> Seq<u8> {
    seq![47u8, 97, 112, 105, 47, 118, 49, 47, 113, 117, 101, 114, 121, 63, 113, 117, 101, 114,
        121, 61]
}

/// The query text selecting the bandwidth metric for one interface label.
pub open spec fn query_text(interface: Seq<u8>) -> Seq<u8> {
    query_text_prefix() + interface + query_text_suffix()
}

/// A byte that stands for itself in a percent-encoded string: an ASCII
/// letter, a digit, or one of `-`, `.`, `_`, `~`.
pub open spec fn is_unreserved(b: u8) -> bool {
    (65 <= b && b <= 90) || (97 <= b && b <= 122) || (48 <= b && b <= 57) || b == 45 || b == 46
        || b == 95 || b == 126
}

/// The upper-case hexadecimal digit for `n < 16`.
pub open spec fn hex_digit(n: u8) -> u8 {
    if n < 10 {
        (48 + n) as u8
    } else {
        (55 + n) as u8
    }
}

/// What one byte becomes in a percent-encoded string.
pub open spec fn enc_byte(b: u8) -> Seq<u8> {
    if is_unreserved(b) {
        seq![b]
    } else {
        seq![37u8, hex_digit(b / 16), hex_digit(b % 16)]
    }
}

/// The whole percent-encoded string.
pub open spec fn percent_encoded(s: Seq<u8>) -> Seq<u8>
    decreases s.len(),
{
    if s.len() == 0 {
        Seq::empty()
    } else {
        percent_encoded(s.drop_last()) + enc_byte(s.last())
    }
}

/// Percent-encodes a string so it can stand in a URL query parameter.
pub fn percent_encode(s: &Vec<u8>) -> (r: Vec<u8>)
    ensures
        r@ == percent_encoded(s@),
{
    let mut r: Vec<u8> = Vec::new();
    let mut i: usize = 0;
    while i < s.len()
        invariant
            i <= s.len(),
            r@ == percent_encoded(s@.subrange(0, i as int)),
        decreases s.len() - i,
    {
        let ghost pre = s@.subrange(0, i as int);
        let ghost pre1 = s@.subrange(0, i as int + 1);
        proof {
            assert(pre1.drop_last() =~= pre);
            assert(pre1.last() == s@[i as int]);
        }
        let b = s[i];
        if (65 <= b && b <= 90) || (97 <= b && b <= 122) || (48 <= b && b <= 57) || b == 45 || b
            == 46 || b == 95 || b == 126 {
            r.push(b);
        } else {
            r.push(37);
            let hi = b / 16;
            let lo = b % 16;
            r.push(if hi < 10 { 48 + hi } else { 55 + hi });
            r.push(if lo < 10 { 48 + lo } else { 55 + lo });
        }
        proof {
            assert(r@ =~= percent_encoded(pre1));
        }
        i = i + 1;
    }
    proof {
        assert(s@.subrange(0, i as int) =~= s@);
    }
    r
}

/// Builds the query text for one interface label.
pub fn build_query_text(interface: &Vec<u8>) -> (r: Vec<u8>)
    ensures
        r@ == query_text(interface@),
{
    let mut r: Vec<u8> = Vec::new();
    r.push(116);
    r.push(99);
    r.push(112);
    r.push(95);
    r.push(116);
    r.push(114);
    r.push(97);
    r.push(102);
    r.push(102);
    r.push(105);
    r.push(99);
    r.push(95);
    r.push(115);
    r.push(99);
    r.push(97);
    r.push(110);
    r.push(95);
    r.push(116);
    r.push(99);
    r.push(112);
    r.push(95);
    r.push(98);
    r.push(97);
    r.push(110);
    r.push(100);
    r.push(119);
    r.push(105);
    r.push(100);
    r.push(116);
    r.push(104);
    r.push(95);
    r.push(97);
    r.push(118);
    r.push(103);
    r.push(95);
    r.push(98);
    r.push(112);
    r.push(115);
    r.push(123);
    r.push(105);
    r.push(110);
    r.push(116);
    r.push(101);
    r.push(114);
    r.push(102);
    r.push(97);
    r.push(99);
    r.push(101);
    r.push(61);
    r.push(34);
    proof {
        assert(r@ =~= query_text_prefix());
    }
    let mut k: usize = 0;
    while k < interface.len()
        invariant
            k <= interface.len(),
            r@ == query_text_prefix() + interface@.subrange(0, k as int),
        decreases interface.len() - k,
    {
        r.push(interface[k]);
        proof {
            assert(r@ =~= query_text_prefix() + interface@.subrange(0, k as int + 1));
        }
        k = k + 1;
    }
    r.push(34);
    r.push(125);
    proof {
        assert(interface@.subrange(0, interface@.len() as int) =~= interface@);
        assert(r@ =~= query_text(interface@));
    }
    r
}

/// Builds the full request path of the instantaneous query for one interface
/// label: the endpoint path with the percent-encoded query text as its
/// `query` parameter.
pub fn build_query_url_path(interface: &Vec<u8>) -> (r: Vec<u8>)
    ensures
        r@ == query_url_prefix() + percent_encoded(query_text(interface@)),
{
    let text = build_query_text(interface);
    let mut encoded = percent_encode(&text);
    let mut r: Vec<u8> = Vec::new();
    r.push(47);
    r.push(97);
    r.push(112);
    r.push(105);
    r.push(47);
    r.push(118);
    r.push(49);
    r.push(47);
    r.push(113);
    r.push(117);
    r.push(101);
    r.push(114);
    r.push(121);
    r.push(63);
    r.push(113);
    r.push(117);
    r.push(101);
    r.push(114);
    r.push(121);
    r.push(61);
    proof {
        assert(r@ =~= query_url_prefix());
    }
    r.append(&mut encoded);
    r
}

fn is_success(status: &Vec<u8>) -> (r: bool)
    ensures
        r == (status@ == success_marker()),
{
    if status.len() != 7 {
        return false;
    }
    let ok = status[0] == 115 && status[1] == 117 && status[2] == 99 && status[3] == 99
        && status[4] == 101 && status[5] == 115 && status[6] == 115;
    proof {
        if ok {
            assert(status@ =~= success_marker());
        } else {
            if status@ == success_marker() {
                assert(status@[0] == 115);
                assert(status@[1] == 117);
                assert(status@[2] == 99);
                assert(status@[3] == 99);
                assert(status@[4] == 101);
                assert(status@[5] == 115);
                assert(status@[6] == 115);
            }
        }
    }
    ok
}

/// The judging half of the Metrics Query Client: given the decoded response's
/// status marker and the value strings of its result rows in order, demands
/// the success marker, demands at least one row, and reads row 0's value; the
/// rows after the first never matter.
pub fn select_sample(status: &Vec<u8>, values: &Vec<Vec<u8>>) -> (r: Result<
    SignedDecimal,
    PipelineError,
>)
    ensures
        status@ != success_marker() ==> r == Err::<SignedDecimal, PipelineError>(
            PipelineError::QueryStatusError,
        ),
        status@ == success_marker() && values@.len() == 0 ==> r == Err::<
            SignedDecimal,
            PipelineError,
        >(PipelineError::NoDataError),
        status@ == success_marker() && values@.len() > 0 ==> r == (if dec_token_ok(
            signed_body(values@[0]@),
        ) {
            Ok::<SignedDecimal, PipelineError>(
                SignedDecimal {
                    negative: signed_neg(values@[0]@),
                    magnitude: dec_value(signed_body(values@[0]@)),
                },
            )
        } else {
            Err::<SignedDecimal, PipelineError>(PipelineError::ParseError)
        }),
        r matches Ok(v) ==> v.valid(),
{
    if !is_success(status) {
        return Err(PipelineError::QueryStatusError);
    }
    if values.len() == 0 {
        return Err(PipelineError::NoDataError);
    }
    match parse_signed_decimal(&values[0]) {
        Some(v) => Ok(v),
        None => Err(PipelineError::ParseError),
    }
}

} // verus!
