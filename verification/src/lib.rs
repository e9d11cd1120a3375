//! Display bytes as printable ASCII with escape sequences as needed.
//!
//! A [`Printer`] renders an arbitrary byte sequence as printable ASCII:
//! graphic characters pass through unchanged, a backslash and the active
//! quote character are backslash-escaped, and every other byte becomes a
//! `\xHH` hex escape with two lowercase digits. A [`QuoteStyle`] chooses
//! whether the output is wrapped in quotes and which quote character is
//! escaped.

use vstd::prelude::*;

verus! {

/// Indicates how, if at all, the printer should quote the byte string.
///
/// A printer's quoting style is chosen by passing a `QuoteStyle` to
/// `Printer::new`. The choice of quoting style affects which characters
/// are escaped.
#[derive(Copy, Clone, Eq, PartialEq, Ord, PartialOrd, Hash, Debug, Structural)]
pub enum QuoteStyle {
    /// Indicates that the printer shouldn't quote its output.
    NoQuotes,
    /// Indicates that the printer should wrap its output in single quotes,
    /// and escape any single quotes within the output.
    Single,
    /// Indicates that the printer should wrap its output in double quotes,
    /// and escape any double quotes within the output.
    Double,
}

/// Maintains an internal state describing how to display a byte array.
///
/// It can append the rendering to a `String` with `Printer::write_to`,
/// or return it as a fresh `String` with `Printer::into_string`.
#[derive(Copy, Clone, Eq, PartialEq, Ord, PartialOrd, Hash, Debug, Structural)]
pub struct Printer {
    quote_style: QuoteStyle,
}

impl Printer {
    /// The quoting style this printer was constructed with.
    pub closed spec fn style(&self) -> QuoteStyle {
        self.quote_style
    }

    /// Returns a new Printer with the chosen quoting style.
    pub fn new(quote_style: QuoteStyle) -> (p: Self)
        ensures
            p.style() == quote_style,
    {
        Self { quote_style }
    }
}

/// True of the bytes that render as themselves: the ASCII graphic range,
/// printable and excluding the space character.
pub open spec fn is_graphic(b: u8) -> bool {
    0x21 <= b && b <= 0x7e
}

/// The lowercase hexadecimal digit for a value below sixteen.
pub open spec fn hex_digit(n: u8) -> char
    recommends
        n < 16,
{
    if n == 0 {
        '0'
    } else if n == 1 {
        '1'
    } else if n == 2 {
        '2'
    } else if n == 3 {
        '3'
    } else if n == 4 {
        '4'
    } else if n == 5 {
        '5'
    } else if n == 6 {
        '6'
    } else if n == 7 {
        '7'
    } else if n == 8 {
        '8'
    } else if n == 9 {
        '9'
    } else if n == 10 {
        'a'
    } else if n == 11 {
        'b'
    } else if n == 12 {
        'c'
    } else if n == 13 {
        'd'
    } else if n == 14 {
        'e'
    } else {
        'f'
    }
}

/// The characters a single byte renders as under the given quoting style:
/// the active quote character and the backslash are backslash-escaped,
/// graphic bytes pass through, and everything else becomes a four-character
/// hex escape.
pub open spec fn escape_byte(style: QuoteStyle, b: u8) -> Seq<char> {
    if style is Single && b == 0x27 {
        seq!['\\', '\'']
    } else if style is Double && b == 0x22 {
        seq!['\\', '"']
    } else if b == 0x5c {
        seq!['\\', '\\']
    } else if is_graphic(b) {
        seq![b as char]
    } else {
        seq!['\\', 'x', hex_digit(b / 16), hex_digit(b % 16)]
    }
}

/// The rendering of a byte sequence, without the surrounding quotes:
/// each byte's escape in input order.
pub open spec fn rendered_bytes(style: QuoteStyle, s: Seq<u8>) -> Seq<char>
    decreases s.len(),
{
    if s.len() == 0 {
        Seq::empty()
    } else {
        escape_byte(style, s[0]) + rendered_bytes(style, s.drop_first())
    }
}

/// The quote character a style wraps its output in: empty for no quoting.
pub open spec fn bracket(style: QuoteStyle) -> Seq<char> {
    match style {
        QuoteStyle::NoQuotes => Seq::empty(),
        QuoteStyle::Single => seq!['\''],
        QuoteStyle::Double => seq!['"'],
    }
}

/// The complete rendering of a byte sequence under a quoting style:
/// the escaped bytes, wrapped in the style's quote character if any.
pub open spec fn rendered(style: QuoteStyle, s: Seq<u8>) -> Seq<char> {
    bracket(style) + rendered_bytes(style, s) + bracket(style)
}

/// Extending the input by one byte extends the rendering by that byte's
/// escape.
proof fn lemma_rendered_bytes_push(style: QuoteStyle, s: Seq<u8>, b: u8)
    ensures
        rendered_bytes(style, s.push(b)) == rendered_bytes(style, s) + escape_byte(style, b),
    decreases s.len(),
{
    if s.len() == 0 {
        assert(s.push(b)[0] == b);
        assert(s.push(b).drop_first() =~= Seq::<u8>::empty());
        assert(rendered_bytes(style, s.push(b)) == escape_byte(style, s.push(b)[0])
            + rendered_bytes(style, s.push(b).drop_first()));
        assert(rendered_bytes(style, s.push(b).drop_first()) =~= Seq::<char>::empty());
        assert(rendered_bytes(style, s) =~= Seq::<char>::empty());
        assert(rendered_bytes(style, s.push(b)) =~= rendered_bytes(style, s) + escape_byte(
            style,
            b,
        ));
    } else {
        assert(s.push(b)[0] == s[0]);
        assert(s.push(b).drop_first() =~= s.drop_first().push(b));
        lemma_rendered_bytes_push(style, s.drop_first(), b);
        assert(rendered_bytes(style, s.push(b)) =~= rendered_bytes(style, s) + escape_byte(
            style,
            b,
        ));
    }
}

/// Relies on String::push: appends exactly the given character to the end
/// of the string.
#[verifier::external_body]
fn push_char(s: &mut String, c: char)
    ensures
        final(s)@ == old(s)@ + seq![c],
{
    s.push(c);
}

/// The lowercase hexadecimal digit for a value below sixteen.
fn hex_digit_char(n: u8) -> (c: char)
    requires
        n < 16,
    ensures
        c == hex_digit(n),
{
    if n == 0 {
        '0'
    } else if n == 1 {
        '1'
    } else if n == 2 {
        '2'
    } else if n == 3 {
        '3'
    } else if n == 4 {
        '4'
    } else if n == 5 {
        '5'
    } else if n == 6 {
        '6'
    } else if n == 7 {
        '7'
    } else if n == 8 {
        '8'
    } else if n == 9 {
        '9'
    } else if n == 10 {
        'a'
    } else if n == 11 {
        'b'
    } else if n == 12 {
        'c'
    } else if n == 13 {
        'd'
    } else if n == 14 {
        'e'
    } else {
        'f'
    }
}

/// Appends one byte's escape to the writer.
fn push_escaped(writer: &mut String, style: QuoteStyle, b: u8)
    ensures
        final(writer)@ == old(writer)@ + escape_byte(style, b),
{
    let quote_escape: bool = match style {
        QuoteStyle::NoQuotes => false,
        QuoteStyle::Single => b == 0x27,
        QuoteStyle::Double => b == 0x22,
    };
    if quote_escape {
        push_char(writer, '\\');
        let q: char = match style {
            QuoteStyle::Single => '\'',
            _ => '"',
        };
        push_char(writer, q);
        assert(writer@ =~= old(writer)@ + escape_byte(style, b));
    } else if b == 0x5c {
        push_char(writer, '\\');
        push_char(writer, '\\');
        assert(writer@ =~= old(writer)@ + escape_byte(style, b));
    } else if 0x21 <= b && b <= 0x7e {
        push_char(writer, b as char);
        assert(writer@ =~= old(writer)@ + escape_byte(style, b));
    } else {
        push_char(writer, '\\');
        push_char(writer, 'x');
        push_char(writer, hex_digit_char(b / 16));
        push_char(writer, hex_digit_char(b % 16));
        assert(writer@ =~= old(writer)@ + escape_byte(style, b));
    }
}

impl Printer {
    /// Appends the formatted bytes to a `String` writer.
    ///
    /// This method iterates through the byte slice once, in input order,
    /// appending each byte's escape. A `String` accepts every character,
    /// so unlike a write into an arbitrary sink this cannot fail. The
    /// helper method `Printer::into_string` is a thin wrapper around this
    /// method, calling `write_to` with a fresh `String` as its writer.
    pub fn write_to(&self, bytes: &[u8], writer: &mut String)
        ensures
            final(writer)@ == old(writer)@ + rendered(self.style(), bytes@),
    {
        match self.quote_style {
            QuoteStyle::NoQuotes => {},
            QuoteStyle::Single => push_char(writer, '\''),
            QuoteStyle::Double => push_char(writer, '"'),
        }
        assert(writer@ =~= old(writer)@ + bracket(self.style()));
        let mut i: usize = 0;
        while i < bytes.len()
            invariant
                i <= bytes.len(),
                writer@ == old(writer)@ + bracket(self.style()) + rendered_bytes(
                    self.style(),
                    bytes@.subrange(0, i as int),
                ),
            decreases bytes.len() - i,
        {
            let b = bytes[i];
            push_escaped(writer, self.quote_style, b);
            proof {
                lemma_rendered_bytes_push(
                    self.style(),
                    bytes@.subrange(0, i as int),
                    bytes@[i as int],
                );
                assert(bytes@.subrange(0, i + 1) =~= bytes@.subrange(0, i as int).push(
                    bytes@[i as int],
                ));
                assert(writer@ =~= old(writer)@ + bracket(self.style()) + rendered_bytes(
                    self.style(),
                    bytes@.subrange(0, i + 1),
                ));
            }
            i = i + 1;
        }
        assert(bytes@.subrange(0, bytes@.len() as int) =~= bytes@);
        match self.quote_style {
            QuoteStyle::NoQuotes => {},
            QuoteStyle::Single => push_char(writer, '\''),
            QuoteStyle::Double => push_char(writer, '"'),
        }
        assert(writer@ =~= old(writer)@ + rendered(self.style(), bytes@));
    }

    /// Returns a string displaying the bytes.
    pub fn into_string(&self, bytes: &[u8]) -> (r: String)
        ensures
            r@ == rendered(self.style(), bytes@),
    {
        let mut output = String::new();
        self.write_to(bytes, &mut output);
        proof {
            assert(output@ =~= rendered(self.style(), bytes@));
        }
        output
    }
}

/// A helper function to show bytes without explicitly creating a Printer
/// struct.
///
/// `show_bytes(bytes)` is equivalent to
/// `Printer::new(QuoteStyle::Double).into_string(bytes)`.
pub fn show_bytes(bytes: &[u8]) -> (r: String)
    ensures
        r@ == rendered(QuoteStyle::Double, bytes@),
{
    Printer::new(QuoteStyle::Double).into_string(bytes)
}

/// A graphic byte other than the backslash and the active quote character
/// renders as exactly that one character, unchanged.
pub proof fn lemma_graphic_unescaped(style: QuoteStyle, b: u8)
    requires
        is_graphic(b),
        b != 0x5c,
        !(style is Single && b == 0x27),
        !(style is Double && b == 0x22),
    ensures
        escape_byte(style, b) == seq![b as char],
{
}

/// True of the sixteen lowercase hexadecimal digit characters.
pub open spec fn is_lower_hex_digit(c: char) -> bool {
    ('0' <= c && c <= '9') || ('a' <= c && c <= 'f')
}

/// The value of a lowercase hexadecimal digit character.
pub open spec fn hex_value(c: char) -> int
    recommends
        is_lower_hex_digit(c),
{
    if '0' <= c && c <= '9' {
        c as int - '0' as int
    } else {
        c as int - 'a' as int + 10
    }
}

/// A byte outside the graphic range renders, under every quoting style, as
/// `\x` followed by exactly two lowercase hexadecimal digits whose value is
/// the byte's value.
pub proof fn lemma_non_graphic_hex(style: QuoteStyle, b: u8)
    requires
        !is_graphic(b),
    ensures
        escape_byte(style, b) == seq!['\\', 'x', hex_digit(b / 16), hex_digit(b % 16)],
        is_lower_hex_digit(hex_digit(b / 16)),
        is_lower_hex_digit(hex_digit(b % 16)),
        16 * hex_value(hex_digit(b / 16)) + hex_value(hex_digit(b % 16)) == b,
{
}

/// The given character sequence with each `"` replaced by the two
/// characters `\` `"`, all other characters kept as they are.
pub open spec fn escape_double_quotes(t: Seq<char>) -> Seq<char>
    decreases t.len(),
{
    if t.len() == 0 {
        Seq::empty()
    } else if t[0] == '"' {
        seq!['\\', '"'] + escape_double_quotes(t.drop_first())
    } else {
        seq![t[0]] + escape_double_quotes(t.drop_first())
    }
}

/// Escaping double quotes distributes over concatenation.
proof fn lemma_escape_double_quotes_concat(a: Seq<char>, c: Seq<char>)
    ensures
        escape_double_quotes(a + c) == escape_double_quotes(a) + escape_double_quotes(c),
    decreases a.len(),
{
    if a.len() == 0 {
        assert(a + c =~= c);
        assert(escape_double_quotes(a) =~= Seq::<char>::empty());
        assert(escape_double_quotes(a) + escape_double_quotes(c) =~= escape_double_quotes(c));
    } else {
        assert((a + c)[0] == a[0]);
        assert((a + c).drop_first() =~= a.drop_first() + c);
        lemma_escape_double_quotes_concat(a.drop_first(), c);
        assert(escape_double_quotes(a + c) =~= escape_double_quotes(a) + escape_double_quotes(c));
    }
}

/// A single byte's double-quoted escape is its unquoted escape with double
/// quotes escaped: the only `"` an unquoted escape can hold comes from the
/// byte 0x22 itself.
proof fn lemma_escape_byte_double_of_plain(b: u8)
    ensures
        escape_double_quotes(escape_byte(QuoteStyle::NoQuotes, b)) == escape_byte(
            QuoteStyle::Double,
            b,
        ),
{
    reveal_with_fuel(escape_double_quotes, 6);
    assert(hex_digit(b / 16) != '"');
    assert(hex_digit(b % 16) != '"');
    assert(escape_double_quotes(escape_byte(QuoteStyle::NoQuotes, b)) =~= escape_byte(
        QuoteStyle::Double,
        b,
    ));
}

/// The double-quoted rendering of a byte sequence, quotes aside, is its
/// unquoted rendering with each `"` escaped.
proof fn lemma_rendered_bytes_double_of_plain(s: Seq<u8>)
    ensures
        rendered_bytes(QuoteStyle::Double, s) == escape_double_quotes(
            rendered_bytes(QuoteStyle::NoQuotes, s),
        ),
    decreases s.len(),
{
    if s.len() == 0 {
        assert(escape_double_quotes(rendered_bytes(QuoteStyle::NoQuotes, s))
            =~= rendered_bytes(QuoteStyle::Double, s));
    } else {
        lemma_escape_byte_double_of_plain(s[0]);
        lemma_escape_double_quotes_concat(
            escape_byte(QuoteStyle::NoQuotes, s[0]),
            rendered_bytes(QuoteStyle::NoQuotes, s.drop_first()),
        );
        lemma_rendered_bytes_double_of_plain(s.drop_first());
        assert(escape_double_quotes(rendered_bytes(QuoteStyle::NoQuotes, s))
            =~= rendered_bytes(QuoteStyle::Double, s));
    }
}

/// Quote insertion is a pure wrapping transform: the double-quoted
/// rendering of any byte sequence is its unquoted rendering with each `"`
/// escaped as `\"`, with one `"` prepended and one `"` appended.
pub proof fn lemma_double_wraps_unquoted(bytes: Seq<u8>)
    ensures
        rendered(QuoteStyle::Double, bytes) == seq!['"'] + escape_double_quotes(
            rendered(QuoteStyle::NoQuotes, bytes),
        ) + seq!['"'],
{
    assert(rendered(QuoteStyle::NoQuotes, bytes) =~= rendered_bytes(QuoteStyle::NoQuotes, bytes));
    lemma_rendered_bytes_double_of_plain(bytes);
    assert(rendered(QuoteStyle::Double, bytes) =~= seq!['"'] + escape_double_quotes(
        rendered(QuoteStyle::NoQuotes, bytes),
    ) + seq!['"']);
}

/// Two printers constructed with the same style produce identical output
/// for identical input: rendering is a pure function of the style and the
/// bytes, with no state of the printer's own.
pub proof fn lemma_same_style_same_output(p1: Printer, p2: Printer, bytes: Seq<u8>)
    requires
        p1.style() == p2.style(),
    ensures
        rendered(p1.style(), bytes) == rendered(p2.style(), bytes),
{
}

/// Returns `QuoteStyle::NoQuotes`.
impl Default for QuoteStyle {
    fn default() -> (r: Self)
        ensures
            r == QuoteStyle::NoQuotes,
    {
        Self::NoQuotes
    }
}

/// Returns a printer that doesn't quote its output.
///
/// This is equivalent to `Printer::new(QuoteStyle::NoQuotes)`.
impl Default for Printer {
    fn default() -> (r: Self)
        ensures
            r.style() == QuoteStyle::NoQuotes,
    {
        Self { quote_style: QuoteStyle::NoQuotes }
    }
}

} // verus!

