use frame_fmt::frame::{DataFrame, DataType, Field, Schema};
use frame_fmt::value::AnyValue;

fn field(name: &str, data_type: DataType) -> Field {
    Field {
        name: name.to_string(),
        data_type,
    }
}

fn two_column_schema() -> Schema {
    Schema {
        fields: vec![field("a", DataType::Int32), field("b", DataType::Utf8)],
    }
}

fn pad(s: &str) -> String {
    format!("{:>15}", s)
}

#[test]
fn table_without_rows_is_header_block_only() {
    let df = DataFrame::new(two_column_schema(), vec![]).unwrap();
    let text = df.to_text();
    let expected = format!(
        "{}{}\n{}{}\n{}{}\n\n",
        pad("a"),
        pad("b"),
        pad("i32"),
        pad("str"),
        pad("---"),
        pad("---")
    );
    assert_eq!(text, expected);
    let lines: Vec<&str> = text.split('\n').collect();
    assert_eq!(lines[0].len(), 30);
    assert_eq!(lines[1].len(), 30);
    assert_eq!(lines[2].len(), 30);
    assert_eq!(lines[3], "");
}

#[test]
fn twenty_five_rows_show_only_ten() {
    let rows: Vec<Vec<AnyValue>> = (0..25)
        .map(|i| vec![AnyValue::I32(i), AnyValue::Str(format!("r{}", i))])
        .collect();
    let df = DataFrame::new(two_column_schema(), rows).unwrap();
    let text = df.to_text();
    let data: Vec<&str> = text.split_terminator('\n').skip(4).collect();
    assert_eq!(data.len(), 10);
    for (i, line) in data.iter().enumerate() {
        assert_eq!(*line, format!("{}{}", pad(&i.to_string()), pad(&format!("r{}", i))));
    }
}

#[test]
fn rows_follow_the_blank_line() {
    let rows = vec![
        vec![AnyValue::I64(-3), AnyValue::Null],
        vec![AnyValue::U32(7), AnyValue::Bool(false)],
    ];
    let schema = Schema {
        fields: vec![field("x", DataType::Int64), field("flag", DataType::Bool)],
    };
    let df = DataFrame::new(schema, rows).unwrap();
    let expected = format!(
        "{}{}\n{}{}\n{}{}\n\n{}{}\n{}{}\n",
        pad("x"),
        pad("flag"),
        pad("i64"),
        pad("bool"),
        pad("---"),
        pad("---"),
        pad("-3"),
        pad("null"),
        pad("7"),
        pad("false")
    );
    assert_eq!(df.to_text(), expected);
}

#[test]
fn table_without_fields() {
    let df = DataFrame::new(Schema { fields: vec![] }, vec![vec![], vec![]]).unwrap();
    assert_eq!(df.to_text(), "\n\n\n\n\n\n");
}

#[test]
fn long_field_name_overflows_its_column() {
    let schema = Schema {
        fields: vec![field("a_very_long_column_name", DataType::Float64)],
    };
    let df = DataFrame::new(schema, vec![]).unwrap();
    let expected = format!("a_very_long_column_name\n{}\n{}\n\n", pad("f64"), pad("---"));
    assert_eq!(df.to_text(), expected);
}

#[test]
fn all_type_labels() {
    let types = [
        (DataType::Int32, "i32"),
        (DataType::Int64, "i64"),
        (DataType::UInt32, "u32"),
        (DataType::Float32, "f32"),
        (DataType::Float64, "f64"),
        (DataType::Bool, "bool"),
        (DataType::Utf8, "str"),
        (DataType::Null, "null"),
    ];
    for (t, label) in types.iter() {
        assert_eq!(t.to_str(), *label);
    }
}

#[test]
fn row_with_wrong_arity_is_refused() {
    let rows = vec![vec![AnyValue::I32(1), AnyValue::Null], vec![AnyValue::I32(2)]];
    assert!(DataFrame::new(two_column_schema(), rows).is_none());
}

#[test]
fn get_returns_rows_and_none_past_the_end() {
    let rows = vec![vec![AnyValue::I32(1), AnyValue::Str("x".to_string())]];
    let df = DataFrame::new(two_column_schema(), rows).unwrap();
    assert_eq!(df.height(), 1);
    assert_eq!(df.schema().fields.len(), 2);
    assert!(df.get(0).is_some());
    assert!(df.get(1).is_none());
}

#[test]
fn table_rendering_only_appends_to_the_sink() {
    let df = DataFrame::new(two_column_schema(), vec![]).unwrap();
    let mut out = String::from(">>");
    df.fmt(&mut out);
    assert_eq!(out, format!(">>{}", df.to_text()));
}
