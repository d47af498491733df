//! Building the pieces of text that rows and the summary line are made of.

use vstd::prelude::*;
use vstd::string::*;
use unicode_segmentation::UnicodeSegmentation;
use unicode_width::UnicodeWidthStr;

verus! {

/// The character of a decimal digit.
pub open spec fn digit_char(d: nat) -> char {
    if d == 0 {
        '0'
    } else if d == 1 {
        '1'
    } else if d == 2 {
        '2'
    } else if d == 3 {
        '3'
    } else if d == 4 {
        '4'
    } else if d == 5 {
        '5'
    } else if d == 6 {
        '6'
    } else if d == 7 {
        '7'
    } else if d == 8 {
        '8'
    } else {
        '9'
    }
}

/// A number in decimal notation, without leading zeros.
pub open spec fn decimal(n: nat) -> Seq<char>
    decreases n,
{
    if n < 10 {
        seq![digit_char(n)]
    } else {
        decimal(n / 10).push(digit_char(n % 10))
    }
}

/// A run of `n` blanks.
pub open spec fn blanks(n: nat) -> Seq<char> {
    Seq::new(n, |i: int| ' ')
}

/// `text` moved to the right edge of a field of `width` characters. Text that
/// is wider than the field is left as it is.
pub open spec fn right_aligned(text: Seq<char>, width: nat) -> Seq<char> {
    if text.len() >= width {
        text
    } else {
        blanks((width - text.len()) as nat) + text
    }
}

/// Whether the text consists of printable ASCII characters only, blank to
/// tilde. Each of them is one symbol that takes one cell of a terminal.
pub open spec fn is_plain(text: Seq<char>) -> bool {
    forall|i: int| 0 <= i < text.len() ==> 32 <= (#[trigger] text[i]) as u32 <= 126
}

/// The symbols that a terminal shows a text as: its extended grapheme
/// clusters, in their order.
pub uninterp spec fn text_symbols(text: Seq<char>) -> Seq<Seq<char>>;

/// The number of cells that a symbol takes on a terminal.
pub uninterp spec fn symbol_width(symbol: Seq<char>) -> nat;

/// The texts as plain values.
pub open spec fn strings_view(texts: Seq<String>) -> Seq<Seq<char>> {
    Seq::new(texts.len(), |i: int| texts[i]@)
}

/// Whether every symbol of the text takes at least one cell.
pub open spec fn has_no_empty_symbol(text: Seq<char>) -> bool {
    forall|k: int|
        0 <= k < text_symbols(text).len() ==> symbol_width(#[trigger] text_symbols(text)[k]) > 0
}

/// Whether every symbol of the text takes exactly one cell.
pub open spec fn is_narrow(text: Seq<char>) -> bool {
    forall|k: int|
        0 <= k < text_symbols(text).len() ==> symbol_width(#[trigger] text_symbols(text)[k]) == 1
}

/// Splits a text into its symbols with `UnicodeSegmentation::graphemes`, in
/// the extended form.
#[verifier::external_body]
pub(crate) fn symbols_of(text: &str) -> (symbols: Vec<String>)
    ensures
        strings_view(symbols@) == text_symbols(text@),
{
    UnicodeSegmentation::graphemes(text, true).map(|symbol| symbol.to_string()).collect()
}

/// Measures the cells that a symbol takes with `UnicodeWidthStr::width`.
#[verifier::external_body]
pub(crate) fn width_of(symbol: &str) -> (width: usize)
    ensures
        width == symbol_width(symbol@),
{
    UnicodeWidthStr::width(symbol)
}

/// The text without the white space at its two ends.
pub uninterp spec fn trimmed(text: Seq<char>) -> Seq<char>;

/// Whether `cut` is a piece of `text` that neither starts nor ends with a
/// blank.
pub open spec fn is_trimming(text: Seq<char>, cut: Seq<char>) -> bool {
    &&& exists|from: int, to: int|
        0 <= from <= to <= text.len() && cut == #[trigger] text.subrange(from, to)
    &&& cut.len() > 0 ==> cut[0] != ' ' && cut.last() != ' '
}

/// Cuts the white space off both ends of the text with `str::trim`. What is
/// left is a piece of the text, and since a blank is white space it has none
/// at either end.
#[verifier::external_body]
pub(crate) fn trim<'a>(text: &'a str) -> (cut: &'a str)
    ensures
        cut@ == trimmed(text@),
        is_trimming(text@, cut@),
{
    text.trim()
}

/// The text of one decimal digit.
fn digit_text(d: u64) -> (s: &'static str)
    requires
        d < 10,
    ensures
        s@ == seq![digit_char(d as nat)],
{
    proof {
        reveal_strlit("0");
        reveal_strlit("1");
        reveal_strlit("2");
        reveal_strlit("3");
        reveal_strlit("4");
        reveal_strlit("5");
        reveal_strlit("6");
        reveal_strlit("7");
        reveal_strlit("8");
        reveal_strlit("9");
    }
    let s = if d == 0 {
        "0"
    } else if d == 1 {
        "1"
    } else if d == 2 {
        "2"
    } else if d == 3 {
        "3"
    } else if d == 4 {
        "4"
    } else if d == 5 {
        "5"
    } else if d == 6 {
        "6"
    } else if d == 7 {
        "7"
    } else if d == 8 {
        "8"
    } else {
        "9"
    };
    assert(s@ =~= seq![digit_char(d as nat)]);
    s
}

/// Appends the decimal notation of `n` to `out`.
pub fn push_decimal(out: &mut String, n: u128)
    ensures
        final(out)@ == old(out)@ + decimal(n as nat),
    decreases n,
{
    if n >= 10 {
        push_decimal(out, n / 10);
    }
    let d: u64 = (n % 10) as u64;
    out.append(digit_text(d));
    proof {
        if n >= 10 {
            assert(out@ =~= old(out)@ + decimal((n / 10) as nat).push(digit_char((n % 10) as nat)));
        } else {
            assert(out@ =~= old(out)@ + seq![digit_char(n as nat)]);
        }
    }
}

/// Appends `n` blanks to `out`.
pub fn push_blanks(out: &mut String, n: usize)
    ensures
        final(out)@ == old(out)@ + blanks(n as nat),
{
    proof {
        reveal_strlit(" ");
    }
    let mut i: usize = 0;
    assert(out@ =~= old(out)@ + blanks(0));
    while i < n
        invariant
            i <= n,
            out@ == old(out)@ + blanks(i as nat),
            " "@ == seq![' '],
        decreases n - i,
    {
        out.append(" ");
        i = i + 1;
        assert(out@ =~= old(out)@ + blanks(i as nat));
    }
}

/// Appends `text` to `out`, moved to the right edge of a field of `width`
/// characters.
pub fn push_right_aligned(out: &mut String, text: &str, width: usize)
    ensures
        final(out)@ == old(out)@ + right_aligned(text@, width as nat),
{
    let len = text.unicode_len();
    if len < width {
        push_blanks(out, width - len);
    }
    out.append(text);
    assert(out@ =~= old(out)@ + right_aligned(text@, width as nat));
}

/// Tells whether the text consists of printable ASCII characters only.
pub fn is_plain_text(text: &str) -> (plain: bool)
    ensures
        plain == is_plain(text@),
{
    let len = text.unicode_len();
    let mut i: usize = 0;
    while i < len
        invariant
            i <= len,
            len == text@.len(),
            forall|k: int| 0 <= k < i ==> 32 <= (#[trigger] text@[k]) as u32 <= 126,
        decreases len - i,
    {
        let c = text.get_char(i);
        if (c as u32) < 32 || (c as u32) > 126 {
            return false;
        }
        i = i + 1;
    }
    true
}

/// Tells whether every symbol of the text takes at least one cell.
pub fn has_no_empty_symbols(text: &str) -> (none: bool)
    ensures
        none == has_no_empty_symbol(text@),
{
    let symbols = symbols_of(text);
    let mut k: usize = 0;
    while k < symbols.len()
        invariant
            k <= symbols.len(),
            strings_view(symbols@) == text_symbols(text@),
            forall|j: int|
                0 <= j < k ==> symbol_width(#[trigger] text_symbols(text@)[j]) > 0,
        decreases symbols.len() - k,
    {
        assert(strings_view(symbols@)[k as int] == symbols@[k as int]@);
        if width_of(symbols[k].as_str()) == 0 {
            return false;
        }
        k = k + 1;
    }
    true
}

/// A piece cut out of printable ASCII is printable ASCII.
pub proof fn plain_stays_plain(text: Seq<char>, cut: Seq<char>)
    requires
        is_plain(text),
        is_trimming(text, cut),
    ensures
        is_plain(cut),
{
    let (from, to) = choose|from: int, to: int|
        0 <= from <= to <= text.len() && cut == #[trigger] text.subrange(from, to);
    assert forall|i: int| 0 <= i < cut.len() implies 32 <= (#[trigger] cut[i]) as u32 <= 126 by {
        assert(cut[i] == text[from + i]);
    }
}

/// Decimal notation is printable ASCII.
pub proof fn decimal_is_plain(n: nat)
    ensures
        is_plain(decimal(n)),
    decreases n,
{
    if n >= 10 {
        decimal_is_plain(n / 10);
    }
}

} // verus!
