use frame_fmt::series::{fmt_column, Series};

fn int32(values: &[Option<i32>]) -> Series {
    Series::Int32(values.to_vec())
}

#[test]
fn int32_column_renders_each_value_on_a_tab_line() {
    let s = int32(&[Some(1), Some(2), Some(3)]);
    assert_eq!(s.to_text(), "Series: i32 \n[\n\t1\n\t2\n\t3\n]");
}

#[test]
fn text_column_cuts_long_values() {
    let s = Series::Utf8(vec![
        "alphabet".to_string(),
        "hi".to_string(),
        "abcdefghijklmn".to_string(),
    ]);
    assert_eq!(
        s.to_text(),
        "Series: str \n[\n\talphabet\n\thi\n\tabcdefghij\n]"
    );
}

#[test]
fn text_column_cuts_by_characters_not_bytes() {
    let s = Series::Utf8(vec!["ééééééééééèè".to_string(), "日本".to_string()]);
    assert_eq!(s.to_text(), "Series: str \n[\n\téééééééééé\n\t日本\n]");
}

#[test]
fn text_column_keeps_value_of_exactly_limit_chars() {
    let s = Series::Utf8(vec!["0123456789".to_string()]);
    assert_eq!(s.to_text(), "Series: str \n[\n\t0123456789\n]");
}

#[test]
fn twelve_values_show_only_the_first_ten() {
    let values: Vec<Option<i32>> = (1..=12).map(Some).collect();
    let s = Series::Int32(values);
    let expected = "Series: i32 \n[\n\t1\n\t2\n\t3\n\t4\n\t5\n\t6\n\t7\n\t8\n\t9\n\t10\n]";
    assert_eq!(s.to_text(), expected);
}

#[test]
fn full_column_has_ten_tab_lines() {
    let values: Vec<Option<i64>> = (0..25).map(|i| Some(i * -1000)).collect();
    let text = Series::Int64(values).to_text();
    let body = text
        .strip_prefix("Series: i64 \n[\n")
        .unwrap()
        .strip_suffix("]")
        .unwrap();
    let lines: Vec<&str> = body.split_terminator('\n').collect();
    assert_eq!(lines.len(), 10);
    for line in lines {
        assert!(line.starts_with('\t'));
        assert!(!line[1..].contains('\t'));
    }
}

#[test]
fn missing_value_runs_into_next_line() {
    let s = int32(&[Some(7), None, Some(9)]);
    assert_eq!(s.to_text(), "Series: i32 \n[\n\t7\n\tnull\t9\n]");
}

#[test]
fn short_column_has_one_line_per_element() {
    let s = Series::Bool(vec![Some(true), Some(false), None, Some(true)]);
    assert_eq!(s.len(), 4);
    assert_eq!(
        s.to_text(),
        "Series: bool \n[\n\ttrue\n\tfalse\n\tnull\ttrue\n]"
    );
}

#[test]
fn empty_column_renders_frame_only() {
    assert_eq!(int32(&[]).to_text(), "Series: i32 \n[\n]");
    assert_eq!(Series::Utf8(vec![]).to_text(), "Series: str \n[\n]");
}

#[test]
fn extreme_integers_use_default_text() {
    let s = Series::Int64(vec![Some(i64::MIN), Some(i64::MAX), Some(0)]);
    assert_eq!(
        s.to_text(),
        "Series: i64 \n[\n\t-9223372036854775808\n\t9223372036854775807\n\t0\n]"
    );
    let u = Series::UInt32(vec![Some(u32::MAX)]);
    assert_eq!(u.to_text(), "Series: u32 \n[\n\t4294967295\n]");
    let i = int32(&[Some(i32::MIN)]);
    assert_eq!(i.to_text(), "Series: i32 \n[\n\t-2147483648\n]");
}

#[test]
fn type_labels() {
    assert_eq!(int32(&[]).type_label(), "i32");
    assert_eq!(Series::Int64(vec![]).type_label(), "i64");
    assert_eq!(Series::UInt32(vec![]).type_label(), "u32");
    assert_eq!(Series::Bool(vec![]).type_label(), "bool");
    assert_eq!(Series::Utf8(vec![]).type_label(), "str");
}

#[test]
fn repeated_rendering_is_identical() {
    let s = int32(&[Some(5), None, Some(-6)]);
    let first = s.to_text();
    let second = s.to_text();
    assert_eq!(first, second);
}

#[test]
fn rendering_only_appends_to_the_sink() {
    let s = int32(&[Some(1)]);
    let mut out = String::from("before|");
    s.fmt(&mut out);
    assert_eq!(out, "before|Series: i32 \n[\n\t1\n]");
    s.fmt(&mut out);
    assert_eq!(out, "before|Series: i32 \n[\n\t1\n]Series: i32 \n[\n\t1\n]");
}

#[test]
fn column_of_pre_rendered_values() {
    let values = vec![Some("1.5".to_string()), None, Some("-0.25".to_string())];
    let mut out = String::new();
    fmt_column("f64", &values, &mut out);
    assert_eq!(out, "Series: f64 \n[\n\t1.5\n\tnull\t-0.25\n]");
}
