//! One table cell: a tagged scalar rendered in a fixed-width field.
use vstd::prelude::*;
use crate::text::{append_bool, append_int, append_padded, bool_text, int_text, pad_left, spaces};

verus! {

/// Width of every table column, in characters: cells and the header block of
/// a table are right-aligned in fields of this width.
pub const CELL_WIDTH: usize = 15;

/// A scalar cell of a table row.
pub enum AnyValue {
    Null,
    U32(u32),
    I32(i32),
    I64(i64),
    Bool(bool),
    Str(String),
}

impl AnyValue {
    /// The value's own textual form, before alignment; `null` for `Null`.
    pub open spec fn natural_text(&self) -> Seq<char> {
        match self {
            AnyValue::Null => seq!['n', 'u', 'l', 'l'],
            AnyValue::U32(v) => int_text(*v as int),
            AnyValue::I32(v) => int_text(*v as int),
            AnyValue::I64(v) => int_text(*v as int),
            AnyValue::Bool(b) => bool_text(*b),
            AnyValue::Str(s) => s@,
        }
    }

    /// The cell as rendered: its natural text right-aligned in a field of
    /// `CELL_WIDTH` characters, never truncated.
    pub open spec fn cell_text(&self) -> Seq<char> {
        pad_left(self.natural_text(), CELL_WIDTH as nat)
    }

    /// Appends the cell's rendering to `out`, and nothing else.
    pub fn fmt(&self, out: &mut String)
        ensures
            final(out)@ == old(out)@ + self.cell_text(),
    {
        let mut natural = String::new();
        match self {
            AnyValue::Null => {
                natural.append("null");
                proof {
                    reveal_strlit("null");
                }
            },
            AnyValue::U32(v) => append_int(&mut natural, *v as i64),
            AnyValue::I32(v) => append_int(&mut natural, *v as i64),
            AnyValue::I64(v) => append_int(&mut natural, *v),
            AnyValue::Bool(b) => append_bool(&mut natural, *b),
            AnyValue::Str(s) => natural.append(s.as_str()),
        }
        assert(natural@ =~= self.natural_text());
        append_padded(out, natural.as_str(), CELL_WIDTH);
    }
}

/// A rendered cell is as wide as the larger of the field width and the
/// value's natural width; a value that fits is right-aligned, with spaces on
/// its left.
pub proof fn lemma_cell_width(v: AnyValue)
    ensures
        v.cell_text().len() == if v.natural_text().len() > CELL_WIDTH {
            v.natural_text().len()
        } else {
            CELL_WIDTH as nat
        },
        v.natural_text().len() <= CELL_WIDTH ==> v.cell_text() == spaces(
            (CELL_WIDTH - v.natural_text().len()) as nat,
        ) + v.natural_text(),
{
    if v.natural_text().len() == CELL_WIDTH {
        assert(spaces(0) + v.natural_text() =~= v.natural_text());
    }
}

} // verus!
