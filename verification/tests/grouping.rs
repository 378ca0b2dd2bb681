use dcm_converter::grouping::{
    numeric_key, order_by_number, order_keys, order_texts, parse_integer, Precedence,
};
use dcm_converter::metadata::{parse_fields, slice_position};
use std::cmp::Ordering;

fn as_ordering(precedence: Precedence) -> Ordering {
    match precedence {
        Precedence::Before => Ordering::Less,
        Precedence::Same => Ordering::Equal,
        Precedence::After => Ordering::Greater,
    }
}

fn as_precedence(ordering: Ordering) -> Precedence {
    match ordering {
        Ordering::Less => Precedence::Before,
        Ordering::Equal => Precedence::Same,
        Ordering::Greater => Precedence::After,
    }
}

fn read_f64(text: String) -> Option<f64> {
    text.parse::<f64>().ok()
}

#[test]
fn numeric_strings_sort_numerically() {
    let mut keys: Vec<&str> = vec!["10", "2", "1", "20", "3"];
    keys.sort_by(|a, b| as_ordering(order_keys(a, b)));

    assert_eq!(keys, vec!["1", "2", "3", "10", "20"]);
}

#[test]
fn non_numeric_strings_sort_alphabetically() {
    let mut keys: Vec<&str> = vec!["zebra", "apple", "banana"];
    keys.sort_by(|a, b| as_ordering(order_keys(a, b)));

    assert_eq!(keys, vec!["apple", "banana", "zebra"]);
}

#[test]
fn mixed_numeric_and_strings_sort_correctly() {
    let mut keys: Vec<&str> = vec!["10", "alpha", "2", "beta", "1"];
    keys.sort_by(|a, b| as_ordering(order_keys(a, b)));

    assert!(keys[0] == "1" || keys[0] == "10" || keys[0] == "2");
}

#[test]
fn unknown_key_sorts_predictably() {
    let mut keys: Vec<&str> = vec!["1", "unknown", "2"];
    keys.sort_by(|a, b| as_ordering(order_keys(a, b)));

    assert_eq!(keys, vec!["1", "2", "unknown"]);
}

#[test]
fn integers_are_read_as_the_standard_library_reads_them() {
    let samples = [
        "0", "7", "007", "+5", "-5", "-0", "+0", "", "+", "-", "--5", "+-5", "5-", " 5", "5 ",
        "1_000", "12a", "a12", "2147483647", "2147483648", "-2147483648", "-2147483649",
        "+2147483647", "+2147483648", "00000000000000000000002147483647",
        "99999999999999999999999999", "-99999999999999999999999999", "9999999999x",
        "\u{0661}\u{0662}", "1.0", "0x10",
    ];
    for sample in samples {
        assert_eq!(parse_integer(sample), sample.parse::<i32>().ok(), "{sample:?}");
        assert_eq!(numeric_key(sample), sample.parse::<i32>().unwrap_or(0), "{sample:?}");
    }
}

#[test]
fn keys_are_ordered_as_the_comparisons_they_stand_for() {
    let samples = [
        "", "1", "2", "10", "-3", "+3", "03", "a", "ab", "b", "B", "1a", "unknown", "\u{E9}",
        "\u{1F389}", "z",
    ];
    for a in samples {
        for b in samples {
            assert_eq!(order_texts(a, b), as_precedence(a.cmp(b)), "{a:?} {b:?}");
            let expected = match (a.parse::<i32>(), b.parse::<i32>()) {
                (Ok(x), Ok(y)) => x.cmp(&y),
                _ => a.cmp(b),
            };
            assert_eq!(order_keys(a, b), as_precedence(expected), "{a:?} {b:?}");
            let by_number = a
                .parse::<i32>()
                .unwrap_or(0)
                .cmp(&b.parse::<i32>().unwrap_or(0));
            assert_eq!(order_by_number(a, b), as_precedence(by_number), "{a:?} {b:?}");
        }
    }
}

#[test]
fn parse_image_position_patient_z_coordinate() {
    let test_cases = [
        ("0.0\\0.0\\0.0", 0.0),
        ("1.5\\2.5\\3.5", 3.5),
        ("-100.0\\-200.0\\-300.0", -300.0),
        ("50.25\\75.50\\100.75", 100.75),
    ];

    for (position_str, expected_z) in test_cases {
        let coords: Vec<f64> = parse_fields(position_str, read_f64);

        let z = slice_position(&coords).unwrap_or(f64::MAX);
        assert!(
            (z - expected_z).abs() < 0.001,
            "Position '{}' should have Z={}, got {}",
            position_str,
            expected_z,
            z
        );
    }
}

#[test]
fn invalid_position_returns_max() {
    let invalid_cases = ["", "invalid", "1.0\\2.0"]; // Missing Z coordinate

    for position_str in invalid_cases {
        let coords: Vec<f64> = parse_fields(position_str, read_f64);

        let z = slice_position(&coords).unwrap_or(f64::MAX);
        assert_eq!(
            z,
            f64::MAX,
            "Invalid position '{}' should return f64::MAX",
            position_str
        );
    }
}

#[test]
fn position_with_whitespace_parses_correctly() {
    let position_str = " 1.0 \\ 2.0 \\ 3.0 ";
    let coords: Vec<f64> = parse_fields(position_str, read_f64);

    assert_eq!(coords.len(), 3);
    assert!((coords[2] - 3.0).abs() < 0.001);
}

#[test]
fn sorting_by_z_coordinate_works() {
    let mut positions: Vec<(usize, f64)> =
        vec![(0, 100.0), (1, 50.0), (2, 150.0), (3, 25.0), (4, 75.0)];

    positions.sort_by(|a, b| a.1.partial_cmp(&b.1).unwrap_or(std::cmp::Ordering::Equal));

    let sorted_indices: Vec<usize> = positions.iter().map(|(idx, _)| *idx).collect();
    assert_eq!(sorted_indices, vec![3, 1, 4, 0, 2]);
}

#[test]
fn nan_values_handled_gracefully() {
    let mut positions: Vec<(usize, f64)> = vec![(0, 100.0), (1, f64::NAN), (2, 50.0)];

    // NaN comparisons return None, which becomes Equal
    positions.sort_by(|a, b| a.1.partial_cmp(&b.1).unwrap_or(std::cmp::Ordering::Equal));

    // The sort should complete without panicking
    assert_eq!(positions.len(), 3);
}
