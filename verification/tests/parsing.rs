use bandwidth_ratio::errors::PipelineError;
use bandwidth_ratio::measure::{evaluate_measurement, parse_download_mbps};
use bandwidth_ratio::num::{parse_decimal_range, parse_signed_decimal, Decimal, SignedDecimal};
use bandwidth_ratio::publish::{build_publish_path, check_publish_status};
use bandwidth_ratio::query::{build_query_text, build_query_url_path, percent_encode,
    select_sample};
use bandwidth_ratio::ratio::{compute_ratio, Ratio};

fn dec(mantissa: u64, scale: u32) -> Decimal {
    Decimal { mantissa, scale }
}

fn pos(mantissa: u64, scale: u32) -> SignedDecimal {
    SignedDecimal { negative: false, magnitude: dec(mantissa, scale) }
}

fn as_f64(d: Decimal) -> f64 {
    d.mantissa as f64 / 10f64.powi(d.scale as i32)
}

#[test]
fn parses_plain_download_line() {
    let out = b"Download speed: 93.45 Mbps".to_vec();
    let d = parse_download_mbps(&out).unwrap();
    assert_eq!(d, dec(9345, 2));
    assert!((as_f64(d) - 93.45).abs() < 1e-9);
}

#[test]
fn parses_download_line_with_extra_whitespace() {
    let out = b"Download   speed:    93.45   Mbps".to_vec();
    assert_eq!(parse_download_mbps(&out), Some(dec(9345, 2)));
}

#[test]
fn parses_bare_download_label() {
    let out = b"   Download: 100.0 Mbps\n".to_vec();
    assert_eq!(parse_download_mbps(&out), Some(dec(1000, 1)));
}

#[test]
fn parses_first_occurrence_only() {
    let out = b"Download: 10 Mbps\nDownload: 20 Mbps\n".to_vec();
    assert_eq!(parse_download_mbps(&out), Some(dec(10, 0)));
}

#[test]
fn tolerates_unrelated_output_lines() {
    let out = b"Server: somewhere\nLatency: 12.01 ms\nDownload: 250.5 Mbps\nUpload: 30 Mbps\n"
        .to_vec();
    assert_eq!(parse_download_mbps(&out), Some(dec(2505, 1)));
}

#[test]
fn rejects_output_without_pattern() {
    let out = b"no data here".to_vec();
    assert_eq!(parse_download_mbps(&out), None);
}

#[test]
fn rejects_download_without_space_after_colon() {
    let out = b"Download:42 Mbps".to_vec();
    assert_eq!(parse_download_mbps(&out), None);
}

#[test]
fn rejects_download_with_malformed_number() {
    let out = b"Download: 1.2.3 Mbps".to_vec();
    assert_eq!(parse_download_mbps(&out), None);
}

#[test]
fn rejects_download_without_unit() {
    let out = b"Download: 93.45".to_vec();
    assert_eq!(parse_download_mbps(&out), None);
}

#[test]
fn rejects_colon_on_next_line() {
    let out = b"Download\nspeed: 93.45 Mbps".to_vec();
    assert_eq!(parse_download_mbps(&out), None);
}

#[test]
fn evaluate_measurement_reports_process_failure() {
    let r = evaluate_measurement(false, Some(1), b"partial".to_vec(), b"boom".to_vec());
    assert_eq!(
        r,
        Err(PipelineError::ProcessError {
            exit_code: Some(1),
            stdout: b"partial".to_vec(),
            stderr: b"boom".to_vec(),
        })
    );
}

#[test]
fn evaluate_measurement_reports_parse_failure() {
    let r = evaluate_measurement(true, Some(0), b"no data here".to_vec(), Vec::new());
    assert_eq!(r, Err(PipelineError::ParseError));
}

#[test]
fn evaluate_measurement_returns_sample() {
    let r = evaluate_measurement(true, Some(0), b"Download: 100.0 Mbps".to_vec(), Vec::new());
    assert_eq!(r, Ok(dec(1000, 1)));
}

#[test]
fn decimal_accepts_integer_and_fraction_forms() {
    let v = b"100".to_vec();
    assert_eq!(parse_decimal_range(&v, 0, 3), Some(dec(100, 0)));
    let v = b"5.".to_vec();
    assert_eq!(parse_decimal_range(&v, 0, 2), Some(dec(5, 0)));
    let v = b".5".to_vec();
    assert_eq!(parse_decimal_range(&v, 0, 2), Some(dec(5, 1)));
}

#[test]
fn decimal_rejects_empty_dot_and_too_long() {
    let v = b".".to_vec();
    assert_eq!(parse_decimal_range(&v, 0, 1), None);
    let v = b"12345678901234567890".to_vec();  // 20 digits
    assert_eq!(parse_decimal_range(&v, 0, 20), None);
    let v = b"0.1234567890123".to_vec();  // 13 fractional digits
    assert_eq!(parse_decimal_range(&v, 0, 15), None);
}

#[test]
fn decimal_accepts_largest_forms() {
    let v = b"9999999999999999999".to_vec();  // 19 digits
    assert_eq!(parse_decimal_range(&v, 0, 19), Some(dec(9_999_999_999_999_999_999, 0)));
    let v = b"0.123456789012".to_vec();  // 12 fractional digits
    assert_eq!(parse_decimal_range(&v, 0, 14), Some(dec(123_456_789_012, 12)));
}

#[test]
fn signed_decimal_reads_signs() {
    assert_eq!(
        parse_signed_decimal(&b"-5".to_vec()),
        Some(SignedDecimal { negative: true, magnitude: dec(5, 0) })
    );
    assert_eq!(parse_signed_decimal(&b"+3.5".to_vec()), Some(pos(35, 1)));
    assert_eq!(parse_signed_decimal(&b"-".to_vec()), None);
    assert_eq!(parse_signed_decimal(&b"inf".to_vec()), None);
    assert_eq!(parse_signed_decimal(&b"NaN".to_vec()), None);
}

#[test]
fn ratio_of_100mbps_and_50mbps_is_two() {
    let r = compute_ratio(&dec(1000, 1), &pos(50_000_000, 0)).unwrap();
    assert_eq!(r, Ratio { num: 1_000_000_000, den: 500_000_000 });
    assert_eq!(r.num as f64 / r.den as f64, 2.0);
}

#[test]
fn ratio_formula_is_exact() {
    // 93.45 Mbps against 12_345_678.9 bps: 93.45e6 / 12_345_678.9
    let r = compute_ratio(&dec(9345, 2), &pos(123_456_789, 1)).unwrap();
    assert_eq!(r.num, 9345 * 10u128.pow(6 + 1));
    assert_eq!(r.den, 123_456_789 * 10u128.pow(2));
    let expect = 93.45f64 * 1_000_000.0 / 12_345_678.9;
    let got = r.num as f64 / r.den as f64;
    assert!(((got - expect) / expect).abs() < 1e-9);
}

#[test]
fn ratio_rejects_zero_denominator() {
    assert_eq!(
        compute_ratio(&dec(1000, 1), &pos(0, 0)),
        Err(PipelineError::DivisionError)
    );
    assert_eq!(
        compute_ratio(&dec(1000, 1), &pos(0, 3)),
        Err(PipelineError::DivisionError)
    );
}

#[test]
fn ratio_rejects_negative_denominator() {
    let neg = SignedDecimal { negative: true, magnitude: dec(5, 0) };
    assert_eq!(compute_ratio(&dec(1000, 1), &neg), Err(PipelineError::DivisionError));
}

#[test]
fn select_sample_demands_success_status() {
    let values = vec![b"50000000".to_vec()];
    assert_eq!(
        select_sample(&b"error".to_vec(), &values),
        Err(PipelineError::QueryStatusError)
    );
}

#[test]
fn select_sample_no_rows_is_no_data_even_on_success() {
    let values: Vec<Vec<u8>> = Vec::new();
    assert_eq!(
        select_sample(&b"success".to_vec(), &values),
        Err(PipelineError::NoDataError)
    );
}

#[test]
fn select_sample_takes_first_row_only() {
    let values = vec![b"42.5".to_vec(), b"99".to_vec(), b"broken".to_vec()];
    assert_eq!(select_sample(&b"success".to_vec(), &values), Ok(pos(425, 1)));
}

#[test]
fn select_sample_rejects_non_numeric_value() {
    let values = vec![b"NaN".to_vec()];
    assert_eq!(
        select_sample(&b"success".to_vec(), &values),
        Err(PipelineError::ParseError)
    );
}

#[test]
fn query_text_names_metric_and_interface() {
    let text = build_query_text(&b"eth0".to_vec());
    assert_eq!(
        text,
        b"tcp_traffic_scan_tcp_bandwidth_avg_bps{interface=\"eth0\"}".to_vec()
    );
}

#[test]
fn query_url_path_is_percent_encoded() {
    let path = build_query_url_path(&b"eth0".to_vec());
    assert_eq!(
        String::from_utf8(path).unwrap(),
        "/api/v1/query?query=tcp_traffic_scan_tcp_bandwidth_avg_bps%7Binterface%3D%22eth0%22%7D"
    );
}

#[test]
fn percent_encode_keeps_unreserved_bytes() {
    assert_eq!(
        percent_encode(&b"AZaz09-._~".to_vec()),
        b"AZaz09-._~".to_vec()
    );
    assert_eq!(percent_encode(&b" /%".to_vec()), b"%20%2F%25".to_vec());
}

#[test]
fn publish_path_carries_value_and_nic() {
    let path = build_publish_path(&b"2".to_vec(), &b"wan0".to_vec());
    assert_eq!(String::from_utf8(path).unwrap(), "/tcpflow?value=2&nic=wan0");
}

#[test]
fn publish_status_accepts_only_2xx() {
    assert_eq!(check_publish_status(200), Ok(()));
    assert_eq!(check_publish_status(204), Ok(()));
    assert_eq!(check_publish_status(299), Ok(()));
    assert_eq!(check_publish_status(199), Err(PipelineError::PublishError { status: 199 }));
    assert_eq!(check_publish_status(300), Err(PipelineError::PublishError { status: 300 }));
    assert_eq!(check_publish_status(500), Err(PipelineError::PublishError { status: 500 }));
}
