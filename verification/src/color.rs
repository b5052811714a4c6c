//! Thread colours and their six-digit hexadecimal notation.
//!
//! A colour is written as `#rrggbb`: a hash sign and two lower-case
//! hexadecimal digits per channel. Reading accepts either case and an
//! optional leading hash sign.

use vstd::prelude::*;
use vstd::string::*;
use vstd::utf8::*;

verus! {

/// Why a piece of text is not a colour.
#[non_exhaustive]
#[derive(Debug)]
pub enum RgbError {
    /// The text, without its leading hash sign, is not six bytes long.
    /// Holds that text.
    InvalidInput(String),
    /// The text is six bytes long but not six hexadecimal digits.
    /// Holds a description of the failure.
    Conversion(String),
}

/// A colour of three eight-bit channels.
#[derive(Clone, Copy, Debug, PartialEq, Eq, Structural)]
pub struct Rgb {
    pub r: u8,
    pub g: u8,
    pub b: u8,
}

/// The lower-case hexadecimal digit for a value below sixteen.
pub open spec fn hex_digit(n: u8) -> char {
    if n < 10 {
        (n + 48) as u8 as char
    } else {
        (n + 87) as u8 as char
    }
}

/// The value of a hexadecimal digit of either case, if `c` is one.
pub open spec fn hex_value(c: char) -> Option<u8> {
    if '0' <= c <= '9' {
        Some((c as u8 - 48) as u8)
    } else if 'a' <= c <= 'f' {
        Some((c as u8 - 87) as u8)
    } else if 'A' <= c <= 'F' {
        Some((c as u8 - 55) as u8)
    } else {
        None
    }
}

/// A channel in decimal notation, without leading zeros.
pub open spec fn decimal(v: u8) -> Seq<char> {
    if v >= 100 {
        seq![hex_digit(v / 100), hex_digit((v / 10) % 10), hex_digit(v % 10)]
    } else if v >= 10 {
        seq![hex_digit(v / 10), hex_digit(v % 10)]
    } else {
        seq![hex_digit(v)]
    }
}

/// The two digits that write one channel.
pub open spec fn hex_pair(v: u8) -> Seq<char> {
    seq![hex_digit(v / 16), hex_digit(v % 16)]
}

/// `s` without one leading hash sign, if it has one.
pub open spec fn strip_hash(s: Seq<char>) -> Seq<char> {
    if s.len() > 0 && s[0] == '#' {
        s.subrange(1, s.len() as int)
    } else {
        s
    }
}

/// Whether `s` is exactly six hexadecimal digits.
pub open spec fn is_hex6(s: Seq<char>) -> bool {
    &&& s.len() == 6
    &&& forall|i: int| 0 <= i < 6 ==> (#[trigger] hex_value(s[i])) is Some
}

/// The channel written by the digits at `at` and `at + 1` of `s`.
pub open spec fn channel_at(s: Seq<char>, at: int) -> u8 {
    (hex_value(s[at]).unwrap() * 16 + hex_value(s[at + 1]).unwrap()) as u8
}

/// The text that [`RgbError::Conversion`] carries.
pub open spec fn conversion_message() -> Seq<char> {
    "invalid digit found in string"@
}

impl RgbError {
    /// Whether this is the error that the text `hex` is refused with: which
    /// of the two it is, and the text it holds.
    pub open spec fn refuses(self, hex: Seq<char>) -> bool {
        match self {
            RgbError::InvalidInput(text) => {
                &&& encode_utf8(strip_hash(hex)).len() != 6
                &&& text@ == strip_hash(hex)
            },
            RgbError::Conversion(text) => {
                &&& encode_utf8(strip_hash(hex)).len() == 6
                &&& !is_hex6(strip_hash(hex))
                &&& text@ == conversion_message()
            },
        }
    }

    /// What the error says of itself.
    pub open spec fn message_spec(self) -> Seq<char> {
        match self {
            RgbError::InvalidInput(_) => "invalid input"@,
            RgbError::Conversion(_) => "string to u32 conversion"@,
        }
    }

    /// A short description of the error, without the text it holds.
    pub fn message(&self) -> (text: String)
        ensures
            text@ == self.message_spec(),
    {
        match self {
            RgbError::InvalidInput(_) => String::from_str("invalid input"),
            RgbError::Conversion(_) => String::from_str("string to u32 conversion"),
        }
    }
}

impl Rgb {
    /// The notation of this colour: `#rrggbb` in lower case.
    pub open spec fn hex_spec(self) -> Seq<char> {
        seq!['#'] + hex_pair(self.r) + hex_pair(self.g) + hex_pair(self.b)
    }

    /// The colour that `s` writes, if it writes one: six hexadecimal digits
    /// after an optional hash sign.
    pub open spec fn parse_hex(s: Seq<char>) -> Option<Rgb> {
        let digits = strip_hash(s);
        if is_hex6(digits) {
            Some(
                Rgb {
                    r: channel_at(digits, 0),
                    g: channel_at(digits, 2),
                    b: channel_at(digits, 4),
                },
            )
        } else {
            None
        }
    }

    /// The three channels in decimal notation, with a blank between them.
    pub open spec fn text(self) -> Seq<char> {
        decimal(self.r) + seq![' '] + decimal(self.g) + seq![' '] + decimal(self.b)
    }

    /// Writes the three channels in decimal notation, with a blank between
    /// them.
    pub fn to_string(&self) -> (text: String)
        ensures
            text@ == self.text(),
    {
        let mut text = String::new();
        append_decimal(&mut text, self.r);
        text.append(" ");
        append_decimal(&mut text, self.g);
        text.append(" ");
        append_decimal(&mut text, self.b);
        proof {
            reveal_strlit(" ");
            assert(" "@ =~= seq![' ']);
            assert(text@ =~= self.text());
        }
        text
    }

    /// Writes the colour as `#rrggbb`, in lower case.
    pub fn as_hex(self) -> (text: String)
        ensures
            text@ == self.hex_spec(),
    {
        let mut text = String::from_str("#");
        proof {
            reveal_strlit("#");
            assert(text@ =~= seq!['#']);
        }
        text.append(digit_str(self.r / 16));
        text.append(digit_str(self.r % 16));
        text.append(digit_str(self.g / 16));
        text.append(digit_str(self.g % 16));
        text.append(digit_str(self.b / 16));
        text.append(digit_str(self.b % 16));
        assert(text@ =~= self.hex_spec());
        text
    }

    /// Reads a colour from six hexadecimal digits of either case, with or
    /// without one leading hash sign.
    ///
    /// Text that is not six bytes long once the hash sign is gone is
    /// [`RgbError::InvalidInput`]; six bytes that are not all hexadecimal
    /// digits are [`RgbError::Conversion`].
    pub fn from_hex(hex: String) -> (result: Result<Rgb, RgbError>)
        ensures
            match result {
                Ok(color) => Rgb::parse_hex(hex@) == Some(color),
                Err(error) => Rgb::parse_hex(hex@) is None && error.refuses(hex@),
            },
    {
        let whole = hex.as_str();
        let count = whole.unicode_len();
        let digits = if count > 0 && whole.get_char(0) == '#' {
            whole.substring_char(1, count)
        } else {
            whole
        };
        assert(digits@ == strip_hash(hex@));
        proof {
            lemma_hex6_is_six_bytes(digits@);
        }
        if digits.as_bytes().len() != 6 {
            return Err(RgbError::InvalidInput(digits.to_owned()));
        }
        if !digits.is_ascii() {
            assert(!is_hex6(digits@));
            return Err(RgbError::Conversion(String::from_str("invalid digit found in string")));
        }
        proof {
            is_ascii_spec_bytes(digits);
        }
        assert(digits@.len() == 6);
        let mut values: [u8; 6] = [0, 0, 0, 0, 0, 0];
        let mut i: usize = 0;
        while i < 6
            invariant
                i <= 6,
                digits.is_ascii(),
                digits@.len() == 6,
                digits@ == strip_hash(hex@),
                encode_utf8(digits@).len() == 6,
                forall|j: int| 0 <= j < i ==> hex_value(digits@[j]) == Some(#[trigger] values[j]),
            decreases 6 - i,
        {
            match digit_value(digits.get_ascii(i)) {
                Some(v) => {
                    values[i] = v;
                },
                None => {
                    assert(hex_value(digits@[i as int]) is None);
                    assert(!is_hex6(digits@));
                    return Err(
                        RgbError::Conversion(String::from_str("invalid digit found in string")),
                    );
                },
            }
            i += 1;
        }
        assert(is_hex6(digits@)) by {
            assert forall|j: int| 0 <= j < 6 implies (#[trigger] hex_value(digits@[j])) is Some by {
                assert(hex_value(digits@[j]) == Some(values[j]));
            }
        }
        assert(forall|j: int| 0 <= j < 6 ==> (#[trigger] values[j]) < 16);
        Ok(
            Rgb {
                r: values[0] * 16 + values[1],
                g: values[2] * 16 + values[3],
                b: values[4] * 16 + values[5],
            },
        )
    }
}

/// The value of the hexadecimal digit with the ASCII code `byte`.
fn digit_value(byte: u8) -> (value: Option<u8>)
    ensures
        value == hex_value(byte as char),
        value matches Some(v) ==> v < 16,
{
    if 48 <= byte && byte <= 57 {
        Some(byte - 48)
    } else if 97 <= byte && byte <= 102 {
        Some(byte - 87)
    } else if 65 <= byte && byte <= 70 {
        Some(byte - 55)
    } else {
        None
    }
}

/// Appends a channel in decimal notation.
fn append_decimal(text: &mut String, v: u8)
    ensures
        final(text)@ == old(text)@ + decimal(v),
{
    if v >= 100 {
        text.append(digit_str(v / 100));
    }
    if v >= 10 {
        text.append(digit_str((v / 10) % 10));
    }
    text.append(digit_str(v % 10));
    assert(text@ =~= old(text)@ + decimal(v));
}

/// The one-character text of a lower-case hexadecimal digit.
fn digit_str(n: u8) -> (text: &'static str)
    requires
        n < 16,
    ensures
        text@ == seq![hex_digit(n)],
{
    proof {
        reveal_strlit("0");
        reveal_strlit("1");
        reveal_strlit("2");
        reveal_strlit("3");
        reveal_strlit("4");
        reveal_strlit("5");
        reveal_strlit("6");
        reveal_strlit("7");
        reveal_strlit("8");
        reveal_strlit("9");
        reveal_strlit("a");
        reveal_strlit("b");
        reveal_strlit("c");
        reveal_strlit("d");
        reveal_strlit("e");
        reveal_strlit("f");
    }
    let text = if n == 0 {
        "0"
    } else if n == 1 {
        "1"
    } else if n == 2 {
        "2"
    } else if n == 3 {
        "3"
    } else if n == 4 {
        "4"
    } else if n == 5 {
        "5"
    } else if n == 6 {
        "6"
    } else if n == 7 {
        "7"
    } else if n == 8 {
        "8"
    } else if n == 9 {
        "9"
    } else if n == 10 {
        "a"
    } else if n == 11 {
        "b"
    } else if n == 12 {
        "c"
    } else if n == 13 {
        "d"
    } else if n == 14 {
        "e"
    } else {
        "f"
    };
    assert(text@ =~= seq![hex_digit(n)]);
    text
}

/// Six hexadecimal digits are ASCII, so they take six bytes.
pub proof fn lemma_hex6_is_six_bytes(s: Seq<char>)
    ensures
        is_hex6(s) ==> is_ascii_chars(s) && encode_utf8(s).len() == 6,
{
    if is_hex6(s) {
        assert forall|i: int| 0 <= i < s.len() implies '\0' <= #[trigger] s[i] <= '\u{7f}' by {
            assert(hex_value(s[i]) is Some);
        }
        is_ascii_chars_encode_utf8(s);
    }
}

/// Reading what [`Rgb::as_hex`] writes gives the colour back.
pub proof fn lemma_hex_round_trip(color: Rgb)
    ensures
        Rgb::parse_hex(color.hex_spec()) == Some(color),
{
    let text = color.hex_spec();
    let digits = strip_hash(text);
    assert(digits =~= hex_pair(color.r) + hex_pair(color.g) + hex_pair(color.b));
    lemma_hex_digit_value(color.r / 16);
    lemma_hex_digit_value(color.r % 16);
    lemma_hex_digit_value(color.g / 16);
    lemma_hex_digit_value(color.g % 16);
    lemma_hex_digit_value(color.b / 16);
    lemma_hex_digit_value(color.b % 16);
    assert(is_hex6(digits));
}

/// A written digit reads as the value it was written from.
pub proof fn lemma_hex_digit_value(n: u8)
    requires
        n < 16,
    ensures
        hex_value(hex_digit(n)) == Some(n),
{
}

} // verus!
