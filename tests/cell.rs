use frame_fmt::value::{AnyValue, CELL_WIDTH};

fn cell(v: &AnyValue) -> String {
    let mut out = String::new();
    v.fmt(&mut out);
    out
}

#[test]
fn cells_are_right_aligned_in_fifteen_columns() {
    assert_eq!(CELL_WIDTH, 15);
    assert_eq!(cell(&AnyValue::I32(42)), "             42");
    assert_eq!(cell(&AnyValue::I32(-42)), "            -42");
    assert_eq!(cell(&AnyValue::U32(0)), "              0");
    assert_eq!(cell(&AnyValue::Null), "           null");
    assert_eq!(cell(&AnyValue::Bool(true)), "           true");
    assert_eq!(cell(&AnyValue::Str("abc".to_string())), "            abc");
}

#[test]
fn wide_values_overflow_without_truncation() {
    assert_eq!(cell(&AnyValue::I64(i64::MIN)), "-9223372036854775808");
    let long = "this text is longer than fifteen";
    assert_eq!(cell(&AnyValue::Str(long.to_string())), long);
}

#[test]
fn value_of_exactly_fifteen_chars_has_no_padding() {
    let exact = "123456789012345";
    assert_eq!(cell(&AnyValue::Str(exact.to_string())), exact);
}

#[test]
fn cell_width_is_max_of_fifteen_and_natural_width() {
    let values = vec![
        AnyValue::Null,
        AnyValue::U32(u32::MAX),
        AnyValue::I32(i32::MIN),
        AnyValue::I64(i64::MAX),
        AnyValue::Bool(false),
        AnyValue::Str("é".repeat(20)),
        AnyValue::Str(String::new()),
    ];
    let naturals = ["null", "4294967295", "-2147483648", "9223372036854775807", "false"];
    for (i, v) in values.iter().enumerate() {
        let text = cell(v);
        let natural_width = match i {
            5 => 20,
            6 => 0,
            _ => naturals[i].chars().count(),
        };
        assert_eq!(text.chars().count(), std::cmp::max(15, natural_width));
        if natural_width <= 15 {
            assert!(text.chars().take(15 - natural_width).all(|c| c == ' '));
        }
    }
}

#[test]
fn multibyte_text_is_padded_by_characters() {
    assert_eq!(cell(&AnyValue::Str("日本語".to_string())), "            日本語");
}
