//! Rendering of a table: a header block of column names, type names and
//! dashes, a blank line, then a preview of at most `ROW_LIMIT` rows.
//!
//! Every header entry and every cell is right-aligned in a field of
//! `CELL_WIDTH` characters; fields follow one another with no separator.
use vstd::prelude::*;
use crate::text::{append_padded, concat_all, lemma_concat_fixed_width, lemma_concat_step, pad_left};
use crate::value::{AnyValue, CELL_WIDTH};

verus! {

/// Most rows that a table rendering shows.
pub const ROW_LIMIT: usize = 10;

/// The element type of a column.
pub enum DataType {
    Int32,
    Int64,
    UInt32,
    Float32,
    Float64,
    Bool,
    Utf8,
    Null,
}

impl DataType {
    /// The short display name of the type.
    pub open spec fn label(&self) -> Seq<char> {
        match self {
            DataType::Int32 => seq!['i', '3', '2'],
            DataType::Int64 => seq!['i', '6', '4'],
            DataType::UInt32 => seq!['u', '3', '2'],
            DataType::Float32 => seq!['f', '3', '2'],
            DataType::Float64 => seq!['f', '6', '4'],
            DataType::Bool => seq!['b', 'o', 'o', 'l'],
            DataType::Utf8 => seq!['s', 't', 'r'],
            DataType::Null => seq!['n', 'u', 'l', 'l'],
        }
    }

    /// The short display name of the type.
    pub fn to_str(&self) -> (r: &'static str)
        ensures
            r@ == self.label(),
    {
        proof {
            reveal_strlit("i32");
            reveal_strlit("i64");
            reveal_strlit("u32");
            reveal_strlit("f32");
            reveal_strlit("f64");
            reveal_strlit("bool");
            reveal_strlit("str");
            reveal_strlit("null");
        }
        match self {
            DataType::Int32 => "i32",
            DataType::Int64 => "i64",
            DataType::UInt32 => "u32",
            DataType::Float32 => "f32",
            DataType::Float64 => "f64",
            DataType::Bool => "bool",
            DataType::Utf8 => "str",
            DataType::Null => "null",
        }
    }
}

/// A named, typed column of a schema.
pub struct Field {
    pub name: String,
    pub data_type: DataType,
}

/// The columns of a table, in order.
pub struct Schema {
    pub fields: Vec<Field>,
}

/// The three lines of the header block.
pub enum HeaderLine {
    Names,
    Types,
    Dashes,
}

/// The entry of `f` in the given header line, before alignment.
pub open spec fn header_entry(f: Field, line: HeaderLine) -> Seq<char> {
    match line {
        HeaderLine::Names => f.name@,
        HeaderLine::Types => f.data_type.label(),
        HeaderLine::Dashes => seq!['-', '-', '-'],
    }
}

/// The aligned entries of the given header line, one per field.
pub open spec fn header_parts(fields: Seq<Field>, line: HeaderLine) -> Seq<Seq<char>> {
    fields.map_values(|f: Field| pad_left(header_entry(f, line), CELL_WIDTH as nat))
}

/// A header line, without its line break.
pub open spec fn header_line(fields: Seq<Field>, line: HeaderLine) -> Seq<char> {
    concat_all(header_parts(fields, line))
}

/// The rendered cells of a row.
pub open spec fn cell_parts(row: Seq<AnyValue>) -> Seq<Seq<char>> {
    row.map_values(|v: AnyValue| v.cell_text())
}

/// The line of a row: its cells one after another, then a line break.
pub open spec fn row_line(row: Seq<AnyValue>) -> Seq<char> {
    concat_all(cell_parts(row)) + seq!['\n']
}

/// How many of `n` rows a rendering shows.
pub open spec fn shown_rows(n: nat) -> nat {
    if n < ROW_LIMIT {
        n
    } else {
        ROW_LIMIT as nat
    }
}

/// The lines of the rows that a rendering shows.
pub open spec fn row_lines(rows: Seq<Vec<AnyValue>>) -> Seq<Seq<char>> {
    rows.map_values(|r: Vec<AnyValue>| row_line(r@)).take(shown_rows(rows.len()) as int)
}

/// The header block: names, type names and dashes, each line ended by a line
/// break, then a blank line.
pub open spec fn header_block(fields: Seq<Field>) -> Seq<char> {
    header_line(fields, HeaderLine::Names) + seq!['\n'] + header_line(fields, HeaderLine::Types)
        + seq!['\n'] + header_line(fields, HeaderLine::Dashes) + seq!['\n'] + seq!['\n']
}

/// The rendering of a table with the given fields and rows.
pub open spec fn table_text(fields: Seq<Field>, rows: Seq<Vec<AnyValue>>) -> Seq<char> {
    header_block(fields) + concat_all(row_lines(rows))
}

/// Appends the entry of `f` in the given header line, aligned.
fn append_header_entry(out: &mut String, f: &Field, line: &HeaderLine)
    ensures
        final(out)@ == old(out)@ + pad_left(header_entry(*f, *line), CELL_WIDTH as nat),
{
    match line {
        HeaderLine::Names => append_padded(out, f.name.as_str(), CELL_WIDTH),
        HeaderLine::Types => append_padded(out, f.data_type.to_str(), CELL_WIDTH),
        HeaderLine::Dashes => {
            proof {
                reveal_strlit("---");
            }
            append_padded(out, "---", CELL_WIDTH);
        },
    }
}

/// Appends a header line, without its line break.
fn append_header_line(out: &mut String, fields: &Vec<Field>, line: HeaderLine)
    ensures
        final(out)@ == old(out)@ + header_line(fields@, line),
{
    let ghost parts = header_parts(fields@, line);
    let mut i: usize = 0;
    assert(parts.take(0) =~= Seq::<Seq<char>>::empty());
    while i < fields.len()
        invariant
            i <= fields@.len(),
            parts == header_parts(fields@, line),
            out@ == old(out)@ + concat_all(parts.take(i as int)),
        decreases fields@.len() - i,
    {
        append_header_entry(out, &fields[i], &line);
        proof {
            lemma_concat_step(parts, i as int);
        }
        i = i + 1;
    }
    assert(parts.take(fields@.len() as int) =~= parts);
}

/// Appends the line of a row: its cells, then a line break.
fn append_row(out: &mut String, row: &Vec<AnyValue>)
    ensures
        final(out)@ == old(out)@ + row_line(row@),
{
    let ghost parts = cell_parts(row@);
    let mut i: usize = 0;
    assert(parts.take(0) =~= Seq::<Seq<char>>::empty());
    while i < row.len()
        invariant
            i <= row@.len(),
            parts == cell_parts(row@),
            out@ == old(out)@ + concat_all(parts.take(i as int)),
        decreases row@.len() - i,
    {
        row[i].fmt(out);
        proof {
            lemma_concat_step(parts, i as int);
        }
        i = i + 1;
    }
    assert(parts.take(row@.len() as int) =~= parts);
    out.append("\n");
    proof {
        reveal_strlit("\n");
    }
}

/// A table: a schema and rows of cells, each row with one cell per field.
pub struct DataFrame {
    schema: Schema,
    rows: Vec<Vec<AnyValue>>,
}

impl DataFrame {
    /// The fields of the table's schema, in order.
    pub closed spec fn fields(&self) -> Seq<Field> {
        self.schema.fields@
    }

    /// The rows of the table, in order.
    pub closed spec fn rows(&self) -> Seq<Vec<AnyValue>> {
        self.rows@
    }

    /// Every row has one cell per field.
    pub open spec fn wf(&self) -> bool {
        forall|k: int| 0 <= k < self.rows().len() ==> (#[trigger] self.rows()[k])@.len() == self.fields().len()
    }

    /// The rendering of the table.
    pub open spec fn text(&self) -> Seq<char> {
        table_text(self.fields(), self.rows())
    }

    /// A table of `schema` and `rows`; `None` when some row does not have
    /// exactly one cell per field.
    pub fn new(schema: Schema, rows: Vec<Vec<AnyValue>>) -> (r: Option<DataFrame>)
        ensures
            r is Some <==> (forall|k: int|
                0 <= k < rows@.len() ==> (#[trigger] rows@[k])@.len() == schema.fields@.len()),
            r matches Some(df) ==> df.fields() == schema.fields@ && df.rows() == rows@ && df.wf(),
    {
        let width = schema.fields.len();
        let mut i: usize = 0;
        while i < rows.len()
            invariant
                i <= rows@.len(),
                width == schema.fields@.len(),
                forall|k: int| 0 <= k < i ==> (#[trigger] rows@[k])@.len() == width,
            decreases rows@.len() - i,
        {
            if rows[i].len() != width {
                return None;
            }
            i = i + 1;
        }
        Some(DataFrame { schema, rows })
    }

    /// The schema of the table.
    pub fn schema(&self) -> (r: &Schema)
        ensures
            r.fields@ == self.fields(),
    {
        &self.schema
    }

    /// The number of rows.
    pub fn height(&self) -> (r: usize)
        ensures
            r == self.rows().len(),
    {
        self.rows.len()
    }

    /// The row at `index`, or `None` past the last row.
    pub fn get(&self, index: usize) -> (r: Option<&Vec<AnyValue>>)
        ensures
            r is Some <==> index < self.rows().len(),
            r matches Some(row) ==> *row == self.rows()[index as int],
    {
        if index < self.rows.len() {
            Some(&self.rows[index])
        } else {
            None
        }
    }

    /// Appends the rendering of the table to `out`, and nothing else.
    pub fn fmt(&self, out: &mut String)
        ensures
            final(out)@ == old(out)@ + self.text(),
    {
        let fields = &self.schema.fields;
        append_header_line(out, fields, HeaderLine::Names);
        out.append("\n");
        append_header_line(out, fields, HeaderLine::Types);
        out.append("\n");
        append_header_line(out, fields, HeaderLine::Dashes);
        out.append("\n\n");
        proof {
            reveal_strlit("\n");
            reveal_strlit("\n\n");
        }
        assert(out@ =~= old(out)@ + header_block(self.fields()));
        let ghost head = out@;
        let ghost lines = self.rows@.map_values(|r: Vec<AnyValue>| row_line(r@));
        let mut i: usize = 0;
        assert(lines.take(0) =~= Seq::<Seq<char>>::empty());
        while i < ROW_LIMIT
            invariant
                i <= ROW_LIMIT,
                lines == self.rows@.map_values(|r: Vec<AnyValue>| row_line(r@)),
                out@ == head + concat_all(
                    lines.take(if i < self.rows@.len() { i as int } else { self.rows@.len() as int }),
                ),
            decreases ROW_LIMIT - i,
        {
            if let Some(row) = self.get(i) {
                append_row(out, row);
                proof {
                    lemma_concat_step(lines, i as int);
                }
            }
            i = i + 1;
        }
    }

    /// The rendering of the table as a new string.
    pub fn to_text(&self) -> (r: String)
        ensures
            r@ == self.text(),
    {
        let mut out = String::new();
        self.fmt(&mut out);
        assert(out@ =~= self.text());
        out
    }
}

/// `t` holds no line break.
pub open spec fn no_line_break(t: Seq<char>) -> bool {
    forall|j: int| 0 <= j < t.len() ==> #[trigger] t[j] != '\n'
}

proof fn lemma_header_line_shape(fields: Seq<Field>, line: HeaderLine)
    requires
        forall|k: int|
            0 <= k < fields.len() ==> (#[trigger] header_entry(fields[k], line)).len() <= CELL_WIDTH
                && no_line_break(header_entry(fields[k], line)),
    ensures
        header_line(fields, line).len() == CELL_WIDTH * fields.len(),
        no_line_break(header_line(fields, line)),
{
    let parts = header_parts(fields, line);
    assert forall|k: int| 0 <= k < parts.len() implies (#[trigger] parts[k]).len() == CELL_WIDTH
        as nat by {
        assert(parts[k] == pad_left(header_entry(fields[k], line), CELL_WIDTH as nat));
    }
    assert forall|k: int, j: int|
        0 <= k < parts.len() && 0 <= j < parts[k].len() implies #[trigger] parts[k][j] != '\n' by {
        let e = header_entry(fields[k], line);
        assert(parts[k] == pad_left(e, CELL_WIDTH as nat));
        if e.len() < CELL_WIDTH {
            let pad = (CELL_WIDTH - e.len()) as nat;
            if j >= pad {
                assert(parts[k][j] == e[j - pad]);
            }
        }
    }
    lemma_concat_fixed_width(parts, CELL_WIDTH as nat);
}

/// When every field name fits in `CELL_WIDTH` characters and holds no line
/// break, a table renders as three lines of exactly `CELL_WIDTH` characters per
/// field (names, type names, dashes), then a blank line, then the row lines.
pub proof fn lemma_header_block(df: DataFrame)
    requires
        forall|k: int|
            0 <= k < df.fields().len() ==> (#[trigger] df.fields()[k]).name@.len() <= CELL_WIDTH
                && no_line_break(df.fields()[k].name@),
    ensures
        df.text() == header_line(df.fields(), HeaderLine::Names) + seq!['\n'] + header_line(
            df.fields(),
            HeaderLine::Types,
        ) + seq!['\n'] + header_line(df.fields(), HeaderLine::Dashes) + seq!['\n'] + seq!['\n']
            + concat_all(row_lines(df.rows())),
        header_line(df.fields(), HeaderLine::Names).len() == CELL_WIDTH * df.fields().len(),
        header_line(df.fields(), HeaderLine::Types).len() == CELL_WIDTH * df.fields().len(),
        header_line(df.fields(), HeaderLine::Dashes).len() == CELL_WIDTH * df.fields().len(),
        no_line_break(header_line(df.fields(), HeaderLine::Names)),
        no_line_break(header_line(df.fields(), HeaderLine::Types)),
        no_line_break(header_line(df.fields(), HeaderLine::Dashes)),
{
    let fields = df.fields();
    assert forall|k: int| 0 <= k < fields.len() implies (#[trigger] header_entry(
        fields[k],
        HeaderLine::Names,
    )).len() <= CELL_WIDTH && no_line_break(header_entry(fields[k], HeaderLine::Names)) by {}
    lemma_header_line_shape(fields, HeaderLine::Names);
    assert forall|k: int| 0 <= k < fields.len() implies (#[trigger] header_entry(
        fields[k],
        HeaderLine::Types,
    )).len() <= CELL_WIDTH && no_line_break(header_entry(fields[k], HeaderLine::Types)) by {
        let t = header_entry(fields[k], HeaderLine::Types);
        assert(t.len() <= 4);
        assert forall|j: int| 0 <= j < t.len() implies #[trigger] t[j] != '\n' by {
            match fields[k].data_type {
                DataType::Int32 => {},
                DataType::Int64 => {},
                DataType::UInt32 => {},
                DataType::Float32 => {},
                DataType::Float64 => {},
                DataType::Bool => {},
                DataType::Utf8 => {},
                DataType::Null => {},
            }
        }
    }
    lemma_header_line_shape(fields, HeaderLine::Types);
    assert forall|k: int| 0 <= k < fields.len() implies (#[trigger] header_entry(
        fields[k],
        HeaderLine::Dashes,
    )).len() <= CELL_WIDTH && no_line_break(header_entry(fields[k], HeaderLine::Dashes)) by {}
    lemma_header_line_shape(fields, HeaderLine::Dashes);
}

/// A table renders as its header block and then one line for each of its
/// first rows, at most `ROW_LIMIT` of them, in order, each ended by a line
/// break.
pub proof fn lemma_row_preview(df: DataFrame)
    ensures
        df.text() == header_block(df.fields()) + concat_all(row_lines(df.rows())),
        row_lines(df.rows()).len() <= ROW_LIMIT,
        row_lines(df.rows()).len() == shown_rows(df.rows().len()),
        forall|k: int|
            0 <= k < row_lines(df.rows()).len() ==> #[trigger] row_lines(df.rows())[k] == row_line(
                df.rows()[k]@,
            ),
        forall|k: int|
            0 <= k < row_lines(df.rows()).len() ==> #[trigger] row_lines(df.rows())[k].last()
                == '\n',
{
}

} // verus!
