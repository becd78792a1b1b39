//! Agent colours as written in agent type files: a list of three numbers or
//! a `#RRGGBB` hex string.
use vstd::prelude::*;
use vstd::utf8::{encode_utf8, is_char_boundary};

verus! {

/// The `color` entry of an agent type as read from the file.
#[derive(Debug, Clone)]
pub enum ColorValue {
    /// A list; each element is its value when it is a non-negative integer.
    Sequence(Vec<Option<u64>>),
    /// A string.
    Text(String),
    /// Anything else, or no entry.
    Other,
}

/// The colour used when the entry gives none.
pub open spec fn white() -> (u8, u8, u8) {
    (255, 255, 255)
}

/// The value of an ASCII hex digit, if the byte is one.
pub open spec fn hex_digit(b: u8) -> Option<u8> {
    if 48 <= b <= 57 {
        Some((b - 48) as u8)
    } else if 65 <= b <= 70 {
        Some((b - 55) as u8)
    } else if 97 <= b <= 102 {
        Some((b - 87) as u8)
    } else {
        None
    }
}

/// A colour component written as two bytes of hex: an optional `+` and hex
/// digits, as `u8::from_str_radix` reads them in base 16; 255 when the
/// bytes are no such number.
pub open spec fn hex_component(b0: u8, b1: u8) -> u8 {
    if b0 == 43 && hex_digit(b1) is Some {
        hex_digit(b1)->0
    } else if hex_digit(b0) is Some && hex_digit(b1) is Some {
        (16 * hex_digit(b0)->0 + hex_digit(b1)->0) as u8
    } else {
        255
    }
}

/// The lowercase hex character of a value below 16.
pub open spec fn lower_hex_char(d: nat) -> u8 {
    if d < 10 {
        (48 + d) as u8
    } else {
        (87 + d) as u8
    }
}

/// The uppercase hex character of a value below 16.
pub open spec fn upper_hex_char(d: nat) -> u8 {
    if d < 10 {
        (48 + d) as u8
    } else {
        (55 + d) as u8
    }
}

/// Two hex characters read back as the number written: the pair for `hi`
/// and `lo` (each below 16, in either case) is `16 * hi + lo`.
pub proof fn lemma_hex_component_reads_back(hi: nat, lo: nat)
    requires
        hi < 16,
        lo < 16,
    ensures
        hex_component(lower_hex_char(hi), lower_hex_char(lo)) == 16 * hi + lo,
        hex_component(upper_hex_char(hi), upper_hex_char(lo)) == 16 * hi + lo,
        hex_component(upper_hex_char(hi), lower_hex_char(lo)) == 16 * hi + lo,
        hex_component(lower_hex_char(hi), upper_hex_char(lo)) == 16 * hi + lo,
{
}

/// The colour a `#RRGGBB` text stands for, given its bytes.
pub open spec fn text_color(bytes: Seq<u8>) -> (u8, u8, u8) {
    if bytes.len() == 7 && bytes[0] == 35 {
        (
            hex_component(bytes[1], bytes[2]),
            hex_component(bytes[3], bytes[4]),
            hex_component(bytes[5], bytes[6]),
        )
    } else {
        white()
    }
}

/// A number of a colour list as a component: missing numbers are 255 and
/// larger numbers keep their low eight bits.
pub open spec fn list_component(v: Option<u64>) -> u8 {
    match v {
        Some(n) => (n % 256) as u8,
        None => 255,
    }
}

/// The colour an entry stands for.
pub open spec fn color_of(v: ColorValue) -> (u8, u8, u8) {
    match v {
        ColorValue::Sequence(items) => if items@.len() == 3 {
            (list_component(items@[0]), list_component(items@[1]), list_component(items@[2]))
        } else {
            white()
        },
        ColorValue::Text(s) => text_color(encode_utf8(s@)),
        ColorValue::Other => white(),
    }
}

/// A `#RRGGBB` text is read two bytes at a time, which needs each pair to
/// be whole characters; every other entry can be read.
pub open spec fn color_readable(v: ColorValue) -> bool {
    match v {
        ColorValue::Text(s) => {
            let b = encode_utf8(s@);
            b.len() == 7 && b[0] == 35 ==> is_char_boundary(b, 3) && is_char_boundary(b, 5)
        },
        _ => true,
    }
}

fn hex_digit_value(b: u8) -> (r: Option<u8>)
    ensures
        r == hex_digit(b),
{
    if 48 <= b && b <= 57 {
        Some(b - 48)
    } else if 65 <= b && b <= 70 {
        Some(b - 55)
    } else if 97 <= b && b <= 102 {
        Some(b - 87)
    } else {
        None
    }
}

/// Reads one colour component from two bytes of hex.
pub fn hex_pair(b0: u8, b1: u8) -> (c: u8)
    ensures
        c == hex_component(b0, b1),
{
    let lo = hex_digit_value(b1);
    if b0 == 43 {
        if let Some(v) = lo {
            return v;
        }
    }
    match (hex_digit_value(b0), lo) {
        (Some(hi), Some(lo)) => 16 * hi + lo,
        _ => 255,
    }
}

fn list_value(v: Option<u64>) -> (c: u8)
    ensures
        c == list_component(v),
{
    match v {
        Some(n) => (n % 256) as u8,
        None => 255,
    }
}

/// A `#RRGGBB` entry written from three components (lowercase hex) reads
/// back as those components.
pub proof fn lemma_hex_color_reads_back(r: u8, g: u8, b: u8)
    ensures
        text_color(
            seq![
                35u8,
                lower_hex_char((r / 16) as nat),
                lower_hex_char((r % 16) as nat),
                lower_hex_char((g / 16) as nat),
                lower_hex_char((g % 16) as nat),
                lower_hex_char((b / 16) as nat),
                lower_hex_char((b % 16) as nat),
            ],
        ) == (r, g, b),
{
    lemma_hex_component_reads_back((r / 16) as nat, (r % 16) as nat);
    lemma_hex_component_reads_back((g / 16) as nat, (g % 16) as nat);
    lemma_hex_component_reads_back((b / 16) as nat, (b % 16) as nat);
}

/// The colour of an agent type's `color` entry: a list of exactly three
/// numbers (missing ones 255, larger ones cut to their low eight bits), or
/// a `#RRGGBB` hex string (unreadable pairs 255); white otherwise.
pub fn parse_agent_color(v: &ColorValue) -> (c: (u8, u8, u8))
    requires
        color_readable(*v),
    ensures
        c == color_of(*v),
{
    match v {
        ColorValue::Sequence(items) => {
            if items.len() == 3 {
                (list_value(items[0]), list_value(items[1]), list_value(items[2]))
            } else {
                (255, 255, 255)
            }
        },
        ColorValue::Text(s) => {
            let b = s.as_str().as_bytes();
            if b.len() == 7 && b[0] == 35 {
                (hex_pair(b[1], b[2]), hex_pair(b[3], b[4]), hex_pair(b[5], b[6]))
            } else {
                (255, 255, 255)
            }
        },
        ColorValue::Other => (255, 255, 255),
    }
}

} // verus!
