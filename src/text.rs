//! Character-level building blocks: decimal text of integers, left padding,
//! and character-safe prefixes.
use vstd::prelude::*;

verus! {

/// The character of a decimal digit `d < 10`.
pub open spec fn digit_char(d: nat) -> char {
    if d == 0 {
        '0'
    } else if d == 1 {
        '1'
    } else if d == 2 {
        '2'
    } else if d == 3 {
        '3'
    } else if d == 4 {
        '4'
    } else if d == 5 {
        '5'
    } else if d == 6 {
        '6'
    } else if d == 7 {
        '7'
    } else if d == 8 {
        '8'
    } else {
        '9'
    }
}

/// The decimal digits of `n`, most significant first, without leading zeros.
pub open spec fn digits_of(n: nat) -> Seq<char>
    decreases n,
{
    if n < 10 {
        seq![digit_char(n)]
    } else {
        digits_of(n / 10).push(digit_char(n % 10))
    }
}

/// The default textual form of an integer: a minus sign for negative values,
/// then the decimal digits of its magnitude.
pub open spec fn int_text(i: int) -> Seq<char> {
    if i < 0 {
        seq!['-'] + digits_of((-i) as nat)
    } else {
        digits_of(i as nat)
    }
}

/// The default textual form of a boolean.
pub open spec fn bool_text(b: bool) -> Seq<char> {
    if b {
        seq!['t', 'r', 'u', 'e']
    } else {
        seq!['f', 'a', 'l', 's', 'e']
    }
}

/// `n` space characters.
pub open spec fn spaces(n: nat) -> Seq<char> {
    Seq::new(n, |i: int| ' ')
}

/// `s` right-aligned in a field of `width` characters: spaces on the left fill
/// the field; text wider than the field is kept whole.
pub open spec fn pad_left(s: Seq<char>, width: nat) -> Seq<char> {
    if s.len() < width {
        spaces((width - s.len()) as nat) + s
    } else {
        s
    }
}

/// The first `n` characters of `s`, or all of `s` when it is shorter.
pub open spec fn prefix_chars(s: Seq<char>, n: nat) -> Seq<char> {
    if s.len() <= n {
        s
    } else {
        s.take(n as int)
    }
}

/// The parts written one after another.
pub open spec fn concat_all(parts: Seq<Seq<char>>) -> Seq<char>
    decreases parts.len(),
{
    if parts.len() == 0 {
        Seq::empty()
    } else {
        concat_all(parts.drop_last()) + parts.last()
    }
}

/// Adding the next part to the parts written so far.
pub proof fn lemma_concat_step(parts: Seq<Seq<char>>, i: int)
    requires
        0 <= i < parts.len(),
    ensures
        concat_all(parts.take(i + 1)) == concat_all(parts.take(i)) + parts[i],
{
    assert(parts.take(i + 1).drop_last() =~= parts.take(i));
}

/// Parts of `width` characters each, none holding a line break, make a text
/// of `width` characters per part without a line break.
pub proof fn lemma_concat_fixed_width(parts: Seq<Seq<char>>, width: nat)
    requires
        forall|k: int| 0 <= k < parts.len() ==> (#[trigger] parts[k]).len() == width,
        forall|k: int, j: int|
            0 <= k < parts.len() && 0 <= j < parts[k].len() ==> #[trigger] parts[k][j] != '\n',
    ensures
        concat_all(parts).len() == width * parts.len(),
        forall|j: int| 0 <= j < concat_all(parts).len() ==> #[trigger] concat_all(parts)[j] != '\n',
    decreases parts.len(),
{
    if parts.len() > 0 {
        let init = parts.drop_last();
        assert forall|k: int, j: int|
            0 <= k < init.len() && 0 <= j < init[k].len() implies #[trigger] init[k][j] != '\n' by {
            assert(init[k] == parts[k]);
        }
        lemma_concat_fixed_width(init, width);
        let whole = concat_all(parts);
        assert(whole == concat_all(init) + parts.last());
        assert(width * (parts.len() - 1) + width == width * parts.len()) by (nonlinear_arith);
        assert forall|j: int| 0 <= j < whole.len() implies #[trigger] whole[j] != '\n' by {
            if j >= concat_all(init).len() {
                assert(whole[j] == parts.last()[j - concat_all(init).len()]);
            } else {
                assert(whole[j] == concat_all(init)[j]);
            }
        }
    }
}

/// Every character of `s` is a decimal digit.
pub open spec fn all_digits(s: Seq<char>) -> bool {
    forall|k: int| 0 <= k < s.len() ==> '0' <= #[trigger] s[k] <= '9'
}

pub proof fn lemma_digits_of_shape(n: nat)
    ensures
        digits_of(n).len() >= 1,
        all_digits(digits_of(n)),
    decreases n,
{
    if n >= 10 {
        lemma_digits_of_shape(n / 10);
    }
}

/// The text of an integer is a non-empty run of digits, after an optional
/// leading minus sign; it holds neither a tab nor a line break.
pub proof fn lemma_int_text_shape(i: int)
    ensures
        int_text(i).len() >= 1,
        int_text(i)[0] == '-' || ('0' <= int_text(i)[0] <= '9'),
        forall|k: int|
            0 <= k < int_text(i).len() ==> #[trigger] int_text(i)[k] != '\t' && int_text(i)[k]
                != '\n',
{
    if i < 0 {
        lemma_digits_of_shape((-i) as nat);
        assert(int_text(i)[0] == '-');
        assert forall|k: int| 0 <= k < int_text(i).len() implies #[trigger] int_text(i)[k] != '\t'
            && int_text(i)[k] != '\n' by {
            if k > 0 {
                assert(int_text(i)[k] == digits_of((-i) as nat)[k - 1]);
            }
        }
    } else {
        lemma_digits_of_shape(i as nat);
        assert forall|k: int| 0 <= k < int_text(i).len() implies #[trigger] int_text(i)[k] != '\t'
            && int_text(i)[k] != '\n' by {
            assert('0' <= int_text(i)[k] <= '9');
        }
    }
}

/// The literal holding the one digit `d`.
fn digit_str(d: u64) -> (r: &'static str)
    requires
        d < 10,
    ensures
        r@ == seq![digit_char(d as nat)],
{
    proof {
        reveal_strlit("0");
        reveal_strlit("1");
        reveal_strlit("2");
        reveal_strlit("3");
        reveal_strlit("4");
        reveal_strlit("5");
        reveal_strlit("6");
        reveal_strlit("7");
        reveal_strlit("8");
        reveal_strlit("9");
    }
    if d == 0 {
        "0"
    } else if d == 1 {
        "1"
    } else if d == 2 {
        "2"
    } else if d == 3 {
        "3"
    } else if d == 4 {
        "4"
    } else if d == 5 {
        "5"
    } else if d == 6 {
        "6"
    } else if d == 7 {
        "7"
    } else if d == 8 {
        "8"
    } else {
        "9"
    }
}

/// Appends the decimal digits of `n`.
pub fn append_digits(out: &mut String, n: u64)
    ensures
        final(out)@ == old(out)@ + digits_of(n as nat),
    decreases n,
{
    if n >= 10 {
        append_digits(out, n / 10);
    }
    out.append(digit_str(n % 10));
    assert(final(out)@ =~= old(out)@ + digits_of(n as nat));
}

/// Appends the default textual form of `i`.
pub fn append_int(out: &mut String, i: i64)
    ensures
        final(out)@ == old(out)@ + int_text(i as int),
{
    if i < 0 {
        out.append("-");
        let magnitude: u64 = (0i128 - i as i128) as u64;
        append_digits(out, magnitude);
        proof {
            reveal_strlit("-");
        }
        assert(final(out)@ =~= old(out)@ + int_text(i as int));
    } else {
        append_digits(out, i as u64);
    }
}

/// Appends the default textual form of `b`.
pub fn append_bool(out: &mut String, b: bool)
    ensures
        final(out)@ == old(out)@ + bool_text(b),
{
    proof {
        reveal_strlit("true");
        reveal_strlit("false");
    }
    if b {
        out.append("true");
    } else {
        out.append("false");
    }
}

/// Appends `n` spaces.
pub fn append_spaces(out: &mut String, n: usize)
    ensures
        final(out)@ == old(out)@ + spaces(n as nat),
{
    let mut k: usize = 0;
    while k < n
        invariant
            k <= n,
            out@ == old(out)@ + spaces(k as nat),
        decreases n - k,
    {
        out.append(" ");
        proof {
            reveal_strlit(" ");
        }
        k = k + 1;
        assert(out@ =~= old(out)@ + spaces(k as nat));
    }
}

/// Appends `s` right-aligned in a field of `width` characters.
pub fn append_padded(out: &mut String, s: &str, width: usize)
    ensures
        final(out)@ == old(out)@ + pad_left(s@, width as nat),
{
    let len = s.unicode_len();
    if len < width {
        append_spaces(out, width - len);
    }
    out.append(s);
    assert(final(out)@ =~= old(out)@ + pad_left(s@, width as nat));
}

/// Appends the first `n` characters of `s`, or all of `s` when it is shorter;
/// a character is never split.
pub fn append_prefix(out: &mut String, s: &str, n: usize)
    ensures
        final(out)@ == old(out)@ + prefix_chars(s@, n as nat),
{
    let len = s.unicode_len();
    if len <= n {
        out.append(s);
    } else {
        out.append(s.substring_char(0, n));
    }
}

} // verus!
