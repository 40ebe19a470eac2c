//! Rendering of a typed column.
//!
//! ```text
//! Series: <type name> 
//! [
//! <tab><element 0>
//! <tab><element 1>
//! ...
//! ]
//! ```
//!
//! At most `LIMIT` elements are shown and the rest are left out without a
//! marker. A missing element is shown as a tab and `null` with no line break
//! after it, so that it runs into the next line; this long-standing layout is
//! kept on purpose, as output that existing logs and tests depend on.
use vstd::prelude::*;
use crate::text::{
    append_bool, append_int, append_prefix, bool_text, concat_all, int_text, prefix_chars,
    lemma_int_text_shape,
};

verus! {

/// Most elements of a column that a rendering shows; also the number of
/// characters kept of each text element.
pub const LIMIT: usize = 10;

/// A scalar type whose elements a column can hold, with its default text.
pub trait ElementText {
    /// The default textual form of the element.
    spec fn text(&self) -> Seq<char>;

    /// Appends the default textual form of the element, and nothing else.
    fn append_text(&self, out: &mut String)
        ensures
            final(out)@ == old(out)@ + self.text(),
    ;
}

impl ElementText for i32 {
    open spec fn text(&self) -> Seq<char> {
        int_text(*self as int)
    }

    fn append_text(&self, out: &mut String) {
        append_int(out, *self as i64);
    }
}

impl ElementText for i64 {
    open spec fn text(&self) -> Seq<char> {
        int_text(*self as int)
    }

    fn append_text(&self, out: &mut String) {
        append_int(out, *self);
    }
}

impl ElementText for u32 {
    open spec fn text(&self) -> Seq<char> {
        int_text(*self as int)
    }

    fn append_text(&self, out: &mut String) {
        append_int(out, *self as i64);
    }
}

impl ElementText for bool {
    open spec fn text(&self) -> Seq<char> {
        bool_text(*self)
    }

    fn append_text(&self, out: &mut String) {
        append_bool(out, *self);
    }
}

impl ElementText for String {
    open spec fn text(&self) -> Seq<char> {
        self@
    }

    fn append_text(&self, out: &mut String) {
        out.append(self.as_str());
    }
}

/// `Series: <name> ` and a line holding `[`.
pub open spec fn header(name: Seq<char>) -> Seq<char> {
    seq!['S', 'e', 'r', 'i', 'e', 's', ':', ' '] + name + seq![' ', '\n', '[', '\n']
}

/// The line of one element: a tab, the text and a line break; for a missing
/// element a tab and `null`, with no line break.
pub open spec fn element_line(e: Option<Seq<char>>) -> Seq<char> {
    match e {
        Some(t) => seq!['\t'] + t + seq!['\n'],
        None => seq!['\t', 'n', 'u', 'l', 'l'],
    }
}

/// How many of `n` elements a rendering shows.
pub open spec fn shown(n: nat) -> nat {
    if n < LIMIT {
        n
    } else {
        LIMIT as nat
    }
}

/// The lines of the first `i` elements.
pub open spec fn lines_upto(elems: Seq<Option<Seq<char>>>, i: int) -> Seq<Seq<char>> {
    elems.take(i).map_values(|e: Option<Seq<char>>| element_line(e))
}

/// The lines of the elements that a rendering shows.
pub open spec fn element_lines(elems: Seq<Option<Seq<char>>>) -> Seq<Seq<char>> {
    lines_upto(elems, shown(elems.len()) as int)
}

/// The rendering of a column named `name` whose elements have the given
/// texts (`None` for a missing element).
pub open spec fn column_text(name: Seq<char>, elems: Seq<Option<Seq<char>>>) -> Seq<char> {
    header(name) + concat_all(element_lines(elems)) + seq![']']
}

/// The texts of optional elements.
pub open spec fn optional_texts<T: ElementText>(values: Seq<Option<T>>) -> Seq<Option<Seq<char>>> {
    values.map_values(
        |o: Option<T>|
            match o {
                Some(v) => Some(v.text()),
                None => None,
            },
    )
}

/// The texts of a text column: each element cut to its first `LIMIT`
/// characters.
pub open spec fn prefix_texts(values: Seq<String>) -> Seq<Option<Seq<char>>> {
    values.map_values(|s: String| Some(prefix_chars(s@, LIMIT as nat)))
}

proof fn lemma_lines_step(elems: Seq<Option<Seq<char>>>, i: int)
    requires
        0 <= i < elems.len(),
    ensures
        concat_all(lines_upto(elems, i + 1)) == concat_all(lines_upto(elems, i)) + element_line(
            elems[i],
        ),
{
    assert(lines_upto(elems, i + 1).drop_last() =~= lines_upto(elems, i));
}

/// Appends the rendering of a column named `label` holding `values`,
/// and nothing else.
pub fn fmt_column<T: ElementText>(label: &str, values: &Vec<Option<T>>, out: &mut String)
    ensures
        final(out)@ == old(out)@ + column_text(label@, optional_texts(values@)),
{
    let ghost elems = optional_texts(values@);
    out.append("Series: ");
    out.append(label);
    out.append(" \n[\n");
    proof {
        reveal_strlit("Series: ");
        reveal_strlit(" \n[\n");
    }
    let n: usize = if values.len() < LIMIT {
        values.len()
    } else {
        LIMIT
    };
    let mut i: usize = 0;
    assert(out@ =~= old(out)@ + header(label@) + concat_all(lines_upto(elems, 0)));
    while i < n
        invariant
            i <= n,
            n == shown(values@.len()),
            elems == optional_texts(values@),
            out@ == old(out)@ + header(label@) + concat_all(lines_upto(elems, i as int)),
        decreases n - i,
    {
        let ghost before = out@;
        match &values[i] {
            Some(v) => {
                out.append("\t");
                v.append_text(out);
                out.append("\n");
                proof {
                    reveal_strlit("\t");
                    reveal_strlit("\n");
                }
            },
            None => {
                out.append("\tnull");
                proof {
                    reveal_strlit("\tnull");
                }
            },
        }
        assert(out@ =~= before + element_line(elems[i as int]));
        proof {
            lemma_lines_step(elems, i as int);
        }
        i = i + 1;
    }
    out.append("]");
    proof {
        reveal_strlit("]");
    }
    assert(final(out)@ =~= old(out)@ + column_text(label@, elems));
}

/// Appends the rendering of a text column holding `values`, each element cut
/// to its first `LIMIT` characters, and nothing else.
fn fmt_text_column(values: &Vec<String>, out: &mut String)
    ensures
        final(out)@ == old(out)@ + column_text(seq!['s', 't', 'r'], prefix_texts(values@)),
{
    let ghost elems = prefix_texts(values@);
    out.append("Series: str \n[\n");
    proof {
        reveal_strlit("Series: str \n[\n");
    }
    let n: usize = if values.len() < LIMIT {
        values.len()
    } else {
        LIMIT
    };
    let mut i: usize = 0;
    assert(out@ =~= old(out)@ + header(seq!['s', 't', 'r']) + concat_all(lines_upto(elems, 0)));
    while i < n
        invariant
            i <= n,
            n == shown(values@.len()),
            elems == prefix_texts(values@),
            out@ == old(out)@ + header(seq!['s', 't', 'r']) + concat_all(
                lines_upto(elems, i as int),
            ),
        decreases n - i,
    {
        let ghost before = out@;
        out.append("\t");
        append_prefix(out, values[i].as_str(), LIMIT);
        out.append("\n");
        proof {
            reveal_strlit("\t");
            reveal_strlit("\n");
        }
        assert(out@ =~= before + element_line(elems[i as int]));
        proof {
            lemma_lines_step(elems, i as int);
        }
        i = i + 1;
    }
    out.append("]");
    proof {
        reveal_strlit("]");
    }
    assert(final(out)@ =~= old(out)@ + column_text(seq!['s', 't', 'r'], elems));
}

/// A typed column: each element is present (`Some`) or missing (`None`);
/// every element of a text column is present. Every variant has its own
/// rendering, so no column falls back to placeholder output.
pub enum Series {
    Int32(Vec<Option<i32>>),
    Int64(Vec<Option<i64>>),
    UInt32(Vec<Option<u32>>),
    Bool(Vec<Option<bool>>),
    Utf8(Vec<String>),
}

impl Series {
    /// The short name of the element type.
    pub open spec fn name_text(&self) -> Seq<char> {
        match self {
            Series::Int32(_) => seq!['i', '3', '2'],
            Series::Int64(_) => seq!['i', '6', '4'],
            Series::UInt32(_) => seq!['u', '3', '2'],
            Series::Bool(_) => seq!['b', 'o', 'o', 'l'],
            Series::Utf8(_) => seq!['s', 't', 'r'],
        }
    }

    /// The texts of the elements, in order, as a rendering shows them:
    /// `None` for a missing element.
    pub open spec fn elements(&self) -> Seq<Option<Seq<char>>> {
        match self {
            Series::Int32(v) => optional_texts(v@),
            Series::Int64(v) => optional_texts(v@),
            Series::UInt32(v) => optional_texts(v@),
            Series::Bool(v) => optional_texts(v@),
            Series::Utf8(v) => prefix_texts(v@),
        }
    }

    /// The rendering of the column.
    pub open spec fn text(&self) -> Seq<char> {
        column_text(self.name_text(), self.elements())
    }

    /// The short name of the element type.
    pub fn type_label(&self) -> (r: &'static str)
        ensures
            r@ == self.name_text(),
    {
        proof {
            reveal_strlit("i32");
            reveal_strlit("i64");
            reveal_strlit("u32");
            reveal_strlit("bool");
            reveal_strlit("str");
        }
        match self {
            Series::Int32(_) => "i32",
            Series::Int64(_) => "i64",
            Series::UInt32(_) => "u32",
            Series::Bool(_) => "bool",
            Series::Utf8(_) => "str",
        }
    }

    /// The number of elements.
    pub fn len(&self) -> (r: usize)
        ensures
            r == self.elements().len(),
    {
        match self {
            Series::Int32(v) => v.len(),
            Series::Int64(v) => v.len(),
            Series::UInt32(v) => v.len(),
            Series::Bool(v) => v.len(),
            Series::Utf8(v) => v.len(),
        }
    }

    /// Appends the rendering of the column to `out`, and nothing else.
    pub fn fmt(&self, out: &mut String)
        ensures
            final(out)@ == old(out)@ + self.text(),
    {
        let label = self.type_label();
        match self {
            Series::Int32(v) => fmt_column(label, v, out),
            Series::Int64(v) => fmt_column(label, v, out),
            Series::UInt32(v) => fmt_column(label, v, out),
            Series::Bool(v) => fmt_column(label, v, out),
            Series::Utf8(v) => fmt_text_column(v, out),
        }
    }

    /// The rendering of the column as a new string.
    pub fn to_text(&self) -> (r: String)
        ensures
            r@ == self.text(),
    {
        let mut out = String::new();
        self.fmt(&mut out);
        assert(out@ =~= self.text());
        out
    }
}

/// `t` holds neither a tab nor a line break.
pub open spec fn is_plain(t: Seq<char>) -> bool {
    forall|j: int| 0 <= j < t.len() ==> #[trigger] t[j] != '\t' && t[j] != '\n'
}

/// `l` is one value line: a single tab, a non-empty text with neither tab nor
/// line break, and a line break.
pub open spec fn is_value_line(l: Seq<char>) -> bool {
    &&& l.len() >= 3
    &&& l[0] == '\t'
    &&& l[l.len() - 1] == '\n'
    &&& forall|j: int| 1 <= j < l.len() - 1 ==> #[trigger] l[j] != '\t' && l[j] != '\n'
}

proof fn lemma_value_line(t: Seq<char>)
    requires
        t.len() >= 1,
        is_plain(t),
    ensures
        is_value_line(element_line(Some(t))),
{
    let l = element_line(Some(t));
    assert forall|j: int| 1 <= j < l.len() - 1 implies #[trigger] l[j] != '\t' && l[j] != '\n' by {
        assert(l[j] == t[j - 1]);
    }
}

proof fn lemma_present_number_line(s: Series, k: int)
    requires
        !(s is Utf8),
        0 <= k < s.elements().len(),
        s.elements()[k] is Some,
    ensures
        is_value_line(element_line(s.elements()[k])),
{
    let t = s.elements()[k]->0;
    match s {
        Series::Int32(v) => lemma_int_text_shape(v@[k]->0 as int),
        Series::Int64(v) => lemma_int_text_shape(v@[k]->0 as int),
        Series::UInt32(v) => lemma_int_text_shape(v@[k]->0 as int),
        Series::Bool(v) => {
            assert(bool_text(true) =~= seq!['t', 'r', 'u', 'e']);
            assert(bool_text(false) =~= seq!['f', 'a', 'l', 's', 'e']);
        },
        Series::Utf8(_) => {},
    }
    lemma_value_line(t);
}

/// A column of numbers or booleans whose first `LIMIT` elements are all
/// present renders as its header, then exactly `LIMIT` value lines, each a
/// single tab, the value and a line break, then the closing `]`.
pub proof fn lemma_full_column(s: Series)
    requires
        !(s is Utf8),
        s.elements().len() >= LIMIT,
        forall|k: int| 0 <= k < LIMIT ==> (#[trigger] s.elements()[k]) is Some,
    ensures
        s.text() == header(s.name_text()) + concat_all(element_lines(s.elements())) + seq![']'],
        element_lines(s.elements()).len() == LIMIT,
        forall|k: int| 0 <= k < LIMIT ==> is_value_line(#[trigger] element_lines(s.elements())[k]),
{
    assert forall|k: int| 0 <= k < LIMIT implies is_value_line(
        #[trigger] element_lines(s.elements())[k],
    ) by {
        lemma_present_number_line(s, k);
    }
}

/// A column of fewer than `LIMIT` elements renders one line for each of its
/// elements, in order.
pub proof fn lemma_short_column(s: Series)
    requires
        s.elements().len() < LIMIT,
    ensures
        s.text() == header(s.name_text()) + concat_all(element_lines(s.elements())) + seq![']'],
        element_lines(s.elements()).len() == s.elements().len(),
        forall|k: int|
            0 <= k < s.elements().len() ==> #[trigger] element_lines(s.elements())[k]
                == element_line(s.elements()[k]),
{
}

/// Rendering depends on the column alone: equal columns render to the same
/// text, however often and into whatever sink.
pub proof fn lemma_render_repeatable(a: Series, b: Series)
    requires
        a == b,
    ensures
        a.text() == b.text(),
{
}

} // verus!
