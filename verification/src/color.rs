//! Colors written as hex text: `#RRGGBB`, or `#RRGGBBAA` when not opaque.
use vstd::prelude::*;
use vstd::string::StringExecFns;
use vstd::string::StringSliceAdditionalSpecFns;

verus! {

/// Why a hex color text is refused.
#[derive(Clone, Copy, Debug, PartialEq, Eq)]
pub enum HexColorError {
    /// After the leading `#` marks, the text is neither 6 nor 8 bytes long.
    Length,
    /// A two-byte group is not a hexadecimal number.
    Digit,
}

/// The value of a hexadecimal digit byte.
pub open spec fn hex_value(b: u8) -> Option<u8> {
    if 48 <= b <= 57 {
        Some((b - 48) as u8)
    } else if 65 <= b <= 70 {
        Some((b - 55) as u8)
    } else if 97 <= b <= 102 {
        Some((b - 87) as u8)
    } else {
        None
    }
}

/// The value of a two-byte hexadecimal group; a leading `+` sign is allowed.
pub open spec fn group_value(a: u8, b: u8) -> Option<u8> {
    if a == 43 {
        hex_value(b)
    } else {
        match (hex_value(a), hex_value(b)) {
            (Some(x), Some(y)) => Some((16 * x + y) as u8),
            _ => None,
        }
    }
}

/// The bytes after all leading `#` marks.
pub open spec fn strip_marks(bs: Seq<u8>) -> Seq<u8>
    decreases bs.len(),
{
    if bs.len() > 0 && bs[0] == 35 {
        strip_marks(bs.drop_first())
    } else {
        bs
    }
}

/// The color that hex text (as bytes) describes: red, green, blue, alpha.
pub open spec fn spec_parse_hex(bs: Seq<u8>) -> Result<(u8, u8, u8, u8), HexColorError> {
    let h = strip_marks(bs);
    if h.len() != 6 && h.len() != 8 {
        Err(HexColorError::Length)
    } else {
        match (group_value(h[0], h[1]), group_value(h[2], h[3]), group_value(h[4], h[5])) {
            (Some(r), Some(g), Some(b)) => if h.len() == 6 {
                Ok((r, g, b, 255u8))
            } else {
                match group_value(h[6], h[7]) {
                    Some(a) => Ok((r, g, b, a)),
                    None => Err(HexColorError::Digit),
                }
            },
            _ => Err(HexColorError::Digit),
        }
    }
}

fn hex_digit(b: u8) -> (r: Option<u8>)
    ensures
        r == hex_value(b),
{
    if 48 <= b && b <= 57 {
        Some(b - 48)
    } else if 65 <= b && b <= 70 {
        Some(b - 55)
    } else if 97 <= b && b <= 102 {
        Some(b - 87)
    } else {
        None
    }
}

fn group(a: u8, b: u8) -> (r: Option<u8>)
    ensures
        r == group_value(a, b),
{
    if a == 43 {
        return hex_digit(b);
    }
    match (hex_digit(a), hex_digit(b)) {
        (Some(x), Some(y)) => Some(16 * x + y),
        _ => None,
    }
}

/// Reads a color from hex text such as `#7FBBB3` or `#7FBBB330`: any number of leading `#`
/// marks, then three or four two-digit hexadecimal groups. Text with any non-ASCII
/// character is refused.
pub fn parse_hex_color(text: &str) -> (r: Result<(u8, u8, u8, u8), HexColorError>)
    ensures
        text.is_ascii() ==> r == spec_parse_hex(text.spec_bytes()),
        !text.is_ascii() ==> r is Err,
{
    if !text.is_ascii() {
        return Err(HexColorError::Digit);
    }
    let bytes = text.as_bytes();
    let ghost bs = bytes@;
    let mut k: usize = 0;
    proof {
        assert(bs.skip(0) =~= bs);
    }
    while k < bytes.len() && bytes[k] == 35
        invariant
            bs == bytes@,
            k <= bs.len(),
            strip_marks(bs) == strip_marks(bs.skip(k as int)),
        decreases bs.len() - k,
    {
        proof {
            assert(bs.skip(k as int).drop_first() =~= bs.skip(k as int + 1));
        }
        k += 1;
    }
    proof {
        if k < bs.len() {
            assert(bs.skip(k as int)[0] == bs[k as int]);
        }
    }
    let ghost h = bs.skip(k as int);
    assert(strip_marks(bs) == h);
    let n = bytes.len() - k;
    if n != 6 && n != 8 {
        return Err(HexColorError::Length);
    }
    let r = group(bytes[k], bytes[k + 1]);
    let g = group(bytes[k + 2], bytes[k + 3]);
    let b = group(bytes[k + 4], bytes[k + 5]);
    match (r, g, b) {
        (Some(r), Some(g), Some(b)) => {
            if n == 6 {
                Ok((r, g, b, 255))
            } else {
                match group(bytes[k + 6], bytes[k + 7]) {
                    Some(a) => Ok((r, g, b, a)),
                    None => Err(HexColorError::Digit),
                }
            }
        },
        _ => Err(HexColorError::Digit),
    }
}

/// The character of hexadecimal digit `d` (upper case).
pub open spec fn hex_digit_char(d: nat) -> char {
    if d == 0 {
        '0'
    } else if d == 1 {
        '1'
    } else if d == 2 {
        '2'
    } else if d == 3 {
        '3'
    } else if d == 4 {
        '4'
    } else if d == 5 {
        '5'
    } else if d == 6 {
        '6'
    } else if d == 7 {
        '7'
    } else if d == 8 {
        '8'
    } else if d == 9 {
        '9'
    } else if d == 10 {
        'A'
    } else if d == 11 {
        'B'
    } else if d == 12 {
        'C'
    } else if d == 13 {
        'D'
    } else if d == 14 {
        'E'
    } else if d == 15 {
        'F'
    } else {
        '?'
    }
}

pub open spec fn hex_pair(x: u8) -> Seq<char> {
    seq![hex_digit_char((x / 16) as nat), hex_digit_char((x % 16) as nat)]
}

/// The hex text of a color: `#RRGGBB`, with `AA` added when alpha is not 255.
pub open spec fn spec_hex_text(r: u8, g: u8, b: u8, a: u8) -> Seq<char> {
    seq!['#'] + hex_pair(r) + hex_pair(g) + hex_pair(b) + if a == 255 {
        Seq::empty()
    } else {
        hex_pair(a)
    }
}

fn digit_text(d: u8) -> (r: &'static str)
    requires
        d < 16,
    ensures
        r@ == seq![hex_digit_char(d as nat)],
{
    match d {
        0 => {
            proof {
                reveal_strlit("0");
            }
            "0"
        },
        1 => {
            proof {
                reveal_strlit("1");
            }
            "1"
        },
        2 => {
            proof {
                reveal_strlit("2");
            }
            "2"
        },
        3 => {
            proof {
                reveal_strlit("3");
            }
            "3"
        },
        4 => {
            proof {
                reveal_strlit("4");
            }
            "4"
        },
        5 => {
            proof {
                reveal_strlit("5");
            }
            "5"
        },
        6 => {
            proof {
                reveal_strlit("6");
            }
            "6"
        },
        7 => {
            proof {
                reveal_strlit("7");
            }
            "7"
        },
        8 => {
            proof {
                reveal_strlit("8");
            }
            "8"
        },
        9 => {
            proof {
                reveal_strlit("9");
            }
            "9"
        },
        10 => {
            proof {
                reveal_strlit("A");
            }
            "A"
        },
        11 => {
            proof {
                reveal_strlit("B");
            }
            "B"
        },
        12 => {
            proof {
                reveal_strlit("C");
            }
            "C"
        },
        13 => {
            proof {
                reveal_strlit("D");
            }
            "D"
        },
        14 => {
            proof {
                reveal_strlit("E");
            }
            "E"
        },
        15 => {
            proof {
                reveal_strlit("F");
            }
            "F"
        },
        _ => {
            proof {
                reveal_strlit("?");
            }
            "?"
        },
    }
}

fn push_pair(text: &mut String, x: u8)
    ensures
        final(text)@ == old(text)@ + hex_pair(x),
{
    text.append(digit_text(x / 16));
    text.append(digit_text(x % 16));
    proof {
        assert(final(text)@ =~= old(text)@ + hex_pair(x));
    }
}

/// Writes a color as upper-case hex text: `#RRGGBB` when opaque, else `#RRGGBBAA`.
pub fn format_hex_color(r: u8, g: u8, b: u8, a: u8) -> (t: String)
    ensures
        t@ == spec_hex_text(r, g, b, a),
{
    let mut text = String::new();
    proof {
        reveal_strlit("#");
    }
    text.append("#");
    push_pair(&mut text, r);
    push_pair(&mut text, g);
    push_pair(&mut text, b);
    if a != 255 {
        push_pair(&mut text, a);
    }
    proof {
        assert(text@ =~= spec_hex_text(r, g, b, a));
    }
    text
}


/// The bytes of text made of ASCII characters.
pub open spec fn ascii_bytes(s: Seq<char>) -> Seq<u8> {
    Seq::new(s.len(), |i: int| s[i] as u8)
}

proof fn lemma_digit_byte(d: nat)
    requires
        d < 16,
    ensures
        hex_value(hex_digit_char(d) as u8) == Some(d as u8),
        hex_digit_char(d) as u8 != 43,
        hex_digit_char(d) as u8 != 35,
{
}

proof fn lemma_pair_value(x: u8)
    ensures
        group_value(hex_digit_char((x / 16) as nat) as u8, hex_digit_char((x % 16) as nat) as u8) == Some(x),
{
    lemma_digit_byte((x / 16) as nat);
    lemma_digit_byte((x % 16) as nat);
}

/// A color written as hex text reads back as the same color.
pub proof fn law_hex_round_trip(r: u8, g: u8, b: u8, a: u8)
    ensures
        spec_parse_hex(ascii_bytes(spec_hex_text(r, g, b, a))) == Ok::<(u8, u8, u8, u8), HexColorError>((r, g, b, a)),
{
    let t = spec_hex_text(r, g, b, a);
    let bs = ascii_bytes(t);
    lemma_digit_byte((r / 16) as nat);
    assert(bs[0] == 35u8);
    assert(bs.drop_first()[0] == hex_digit_char((r / 16) as nat) as u8);
    assert(strip_marks(bs.drop_first()) == bs.drop_first());
    assert(strip_marks(bs) == bs.drop_first());
    let h = bs.drop_first();
    lemma_pair_value(r);
    lemma_pair_value(g);
    lemma_pair_value(b);
    lemma_pair_value(a);
    assert(h[0] == hex_digit_char((r / 16) as nat) as u8);
    assert(h[1] == hex_digit_char((r % 16) as nat) as u8);
    assert(h[2] == hex_digit_char((g / 16) as nat) as u8);
    assert(h[3] == hex_digit_char((g % 16) as nat) as u8);
    assert(h[4] == hex_digit_char((b / 16) as nat) as u8);
    assert(h[5] == hex_digit_char((b % 16) as nat) as u8);
    if a != 255 {
        assert(h[6] == hex_digit_char((a / 16) as nat) as u8);
        assert(h[7] == hex_digit_char((a % 16) as nat) as u8);
    }
}

} // verus!
