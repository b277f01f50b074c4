use rust_hpc_communication_test::report::{push_decimal, reporting_csv, COMMA, NEWLINE};
use rust_hpc_communication_test::test_execution::LatencySample;

fn digits(n: u128) -> String {
    let mut out = Vec::new();
    push_decimal(n, &mut out);
    String::from_utf8(out).unwrap()
}

#[test]
fn separators_are_comma_and_line_feed() {
    assert_eq!(COMMA, b',');
    assert_eq!(NEWLINE, b'\n');
}

#[test]
fn decimal_of_small_and_large_numbers() {
    assert_eq!(digits(0), "0");
    assert_eq!(digits(7), "7");
    assert_eq!(digits(10), "10");
    assert_eq!(digits(1024), "1024");
    assert_eq!(digits(90_000), "90000");
    assert_eq!(digits(u64::MAX as u128), "18446744073709551615");
    assert_eq!(digits(u128::MAX), "340282366920938463463374607431768211455");
}

#[test]
fn decimal_is_appended_to_what_is_there() {
    let mut out = b"n=".to_vec();
    push_decimal(405, &mut out);
    assert_eq!(out, b"n=405");
}

#[test]
fn report_of_no_sample_is_the_header() {
    assert_eq!(reporting_csv(&[]), b"index,elapsed time\n");
}

#[test]
fn report_has_one_row_per_sample() {
    let samples = [
        LatencySample { index: 0, elapsed_ns: 1234 },
        LatencySample { index: 1, elapsed_ns: 0 },
        LatencySample { index: 2, elapsed_ns: 98_765_432_109 },
    ];
    assert_eq!(reporting_csv(&samples), b"index,elapsed time\n0,1234\n1,0\n2,98765432109\n");
}

#[test]
fn report_of_many_samples_is_complete() {
    let samples: Vec<LatencySample> =
        (0..5000u32).map(|i| LatencySample { index: i, elapsed_ns: 1_000_000 + i as u128 }).collect();
    let text = String::from_utf8(reporting_csv(&samples)).unwrap();
    let mut lines = text.lines();
    assert_eq!(lines.next(), Some("index,elapsed time"));
    for i in 0..5000u32 {
        assert_eq!(lines.next().unwrap(), format!("{},{}", i, 1_000_000 + i));
    }
    assert_eq!(lines.next(), None);
    assert!(text.ends_with('\n'));
}
