use timer::{parse_time, total_seconds, ErrorKind};

fn args(list: &[&str]) -> Vec<String> {
    list.iter().map(|s| s.to_string()).collect()
}

#[test]
fn parses_each_suffix() {
    assert_eq!(parse_time("10s").unwrap(), 10);
    assert_eq!(parse_time("2m").unwrap(), 120);
    assert_eq!(parse_time("1h").unwrap(), 3600);
    assert_eq!(parse_time("1d").unwrap(), 86400);
    assert_eq!(parse_time("0s").unwrap(), 0);
    assert_eq!(parse_time("007m").unwrap(), 420);
}

#[test]
fn sums_tokens() {
    assert_eq!(total_seconds(&args(&["1m", "17s"])).unwrap(), 77);
}

#[test]
fn sum_ignores_order() {
    let a = total_seconds(&args(&["1h", "2m", "3s"])).unwrap();
    let b = total_seconds(&args(&["3s", "1h", "2m"])).unwrap();
    assert_eq!(a, 3723);
    assert_eq!(a, b);
}

#[test]
fn no_tokens_is_zero() {
    assert_eq!(total_seconds(&args(&[])).unwrap(), 0);
    assert_eq!(total_seconds(&args(&["-q", "--suppress-notify"])).unwrap(), 0);
}

#[test]
fn flags_are_skipped() {
    assert_eq!(total_seconds(&args(&["-q", "1m", "-s", "17s"])).unwrap(), 77);
}

#[test]
fn malformed_tokens_are_refused() {
    for t in ["abc", "10x", "s", "", "+5s", " 5s", "5 s", "1.5m", "m5"] {
        let e = parse_time(t).unwrap_err();
        assert_eq!(e.kind, ErrorKind::Malformed, "{}", t);
        assert_eq!(e.token, t);
    }
}

#[test]
fn first_bad_token_is_named() {
    let e = total_seconds(&args(&["1m", "bad", "2x"])).unwrap_err();
    assert_eq!(e.kind, ErrorKind::Malformed);
    assert_eq!(e.token, "bad");
}

#[test]
fn largest_token_fits() {
    assert_eq!(parse_time("18446744073709551615s").unwrap(), u64::MAX);
}

#[test]
fn oversized_tokens_overflow() {
    let e = parse_time("18446744073709551616s").unwrap_err();
    assert_eq!(e.kind, ErrorKind::Overflow);
    let e = parse_time("18446744073709551615m").unwrap_err();
    assert_eq!(e.kind, ErrorKind::Overflow);
    assert_eq!(e.token, "18446744073709551615m");
    let e = parse_time("99999999999999999999999999d").unwrap_err();
    assert_eq!(e.kind, ErrorKind::Overflow);
}

#[test]
fn overflowing_total_names_the_token() {
    let e = total_seconds(&args(&["18446744073709551615s", "-q", "1s"])).unwrap_err();
    assert_eq!(e.kind, ErrorKind::Overflow);
    assert_eq!(e.token, "1s");
}
