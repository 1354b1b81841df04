//! The color model: eight standard colors, their bright variants, 24-bit
//! truecolor, the mapping to SGR parameters, and name-based lookup.

use vstd::prelude::*;

use crate::sgr::{
    all_digit_or_semi, dec_seq, digit_or_semi, is_code_seg, append_decimal,
    lemma_all_digit_or_semi_concat, lemma_dec_seq_digits,
};

verus! {

/// A terminal color: a named palette color, its bright variant, or a direct
/// 24-bit RGB value.
#[derive(Clone, Copy, Debug, PartialEq, Eq, Structural)]
pub enum Color {
    Black,
    Red,
    Green,
    Yellow,
    Blue,
    Magenta,
    Cyan,
    White,
    BrightBlack,
    BrightRed,
    BrightGreen,
    BrightYellow,
    BrightBlue,
    BrightMagenta,
    BrightCyan,
    BrightWhite,
    TrueColor { r: u8, g: u8, b: u8 },
}

/// The failure of a name-based color lookup: the name matches no known color.
#[derive(Clone, Copy, Debug, PartialEq, Eq, Structural)]
pub struct InvalidColorName;

/// The SGR parameter characters that select `c` as the foreground color.
pub open spec fn fg_code(c: Color) -> Seq<char> {
    match c {
        Color::Black => seq!['3', '0'],
        Color::Red => seq!['3', '1'],
        Color::Green => seq!['3', '2'],
        Color::Yellow => seq!['3', '3'],
        Color::Blue => seq!['3', '4'],
        Color::Magenta => seq!['3', '5'],
        Color::Cyan => seq!['3', '6'],
        Color::White => seq!['3', '7'],
        Color::BrightBlack => seq!['9', '0'],
        Color::BrightRed => seq!['9', '1'],
        Color::BrightGreen => seq!['9', '2'],
        Color::BrightYellow => seq!['9', '3'],
        Color::BrightBlue => seq!['9', '4'],
        Color::BrightMagenta => seq!['9', '5'],
        Color::BrightCyan => seq!['9', '6'],
        Color::BrightWhite => seq!['9', '7'],
        Color::TrueColor { r, g, b } => seq!['3', '8', ';', '2', ';'] + dec_seq(r as int) + seq![
            ';',
        ] + dec_seq(g as int) + seq![';'] + dec_seq(b as int),
    }
}

/// The SGR parameter characters that select `c` as the background color.
pub open spec fn bg_code(c: Color) -> Seq<char> {
    match c {
        Color::Black => seq!['4', '0'],
        Color::Red => seq!['4', '1'],
        Color::Green => seq!['4', '2'],
        Color::Yellow => seq!['4', '3'],
        Color::Blue => seq!['4', '4'],
        Color::Magenta => seq!['4', '5'],
        Color::Cyan => seq!['4', '6'],
        Color::White => seq!['4', '7'],
        Color::BrightBlack => seq!['1', '0', '0'],
        Color::BrightRed => seq!['1', '0', '1'],
        Color::BrightGreen => seq!['1', '0', '2'],
        Color::BrightYellow => seq!['1', '0', '3'],
        Color::BrightBlue => seq!['1', '0', '4'],
        Color::BrightMagenta => seq!['1', '0', '5'],
        Color::BrightCyan => seq!['1', '0', '6'],
        Color::BrightWhite => seq!['1', '0', '7'],
        Color::TrueColor { r, g, b } => seq!['4', '8', ';', '2', ';'] + dec_seq(r as int) + seq![
            ';',
        ] + dec_seq(g as int) + seq![';'] + dec_seq(b as int),
    }
}

/// The trailing `;2;r;g;b` parameters shared by both truecolor forms.
fn append_truecolor_tail(s: &mut String, r: u8, g: u8, b: u8)
    ensures
        final(s)@ == old(s)@ + seq![';', '2', ';'] + dec_seq(r as int) + seq![';'] + dec_seq(
            g as int,
        ) + seq![';'] + dec_seq(b as int),
{
    proof {
        reveal_strlit(";2;");
        reveal_strlit(";");
    }
    s.append(";2;");
    append_decimal(s, r);
    s.append(";");
    append_decimal(s, g);
    s.append(";");
    append_decimal(s, b);
    proof {
        assert(final(s)@ =~= old(s)@ + seq![';', '2', ';'] + dec_seq(r as int) + seq![';']
            + dec_seq(g as int) + seq![';'] + dec_seq(b as int));
    }
}

impl Color {
    /// The SGR parameter string that selects this color as the foreground.
    pub fn to_fg_str(&self) -> (s: String)
        ensures
            s@ == fg_code(*self),
    {
        proof {
            reveal_strlit("30");
            reveal_strlit("31");
            reveal_strlit("32");
            reveal_strlit("33");
            reveal_strlit("34");
            reveal_strlit("35");
            reveal_strlit("36");
            reveal_strlit("37");
            reveal_strlit("90");
            reveal_strlit("91");
            reveal_strlit("92");
            reveal_strlit("93");
            reveal_strlit("94");
            reveal_strlit("95");
            reveal_strlit("96");
            reveal_strlit("97");
            reveal_strlit("38");
        }
        match self {
            Color::Black => "30".to_owned(),
            Color::Red => "31".to_owned(),
            Color::Green => "32".to_owned(),
            Color::Yellow => "33".to_owned(),
            Color::Blue => "34".to_owned(),
            Color::Magenta => "35".to_owned(),
            Color::Cyan => "36".to_owned(),
            Color::White => "37".to_owned(),
            Color::BrightBlack => "90".to_owned(),
            Color::BrightRed => "91".to_owned(),
            Color::BrightGreen => "92".to_owned(),
            Color::BrightYellow => "93".to_owned(),
            Color::BrightBlue => "94".to_owned(),
            Color::BrightMagenta => "95".to_owned(),
            Color::BrightCyan => "96".to_owned(),
            Color::BrightWhite => "97".to_owned(),
            Color::TrueColor { r, g, b } => {
                let mut s = "38".to_owned();
                append_truecolor_tail(&mut s, *r, *g, *b);
                proof {
                    assert(s@ =~= fg_code(*self));
                }
                s
            },
        }
    }

    /// The SGR parameter string that selects this color as the background.
    pub fn to_bg_str(&self) -> (s: String)
        ensures
            s@ == bg_code(*self),
    {
        proof {
            reveal_strlit("40");
            reveal_strlit("41");
            reveal_strlit("42");
            reveal_strlit("43");
            reveal_strlit("44");
            reveal_strlit("45");
            reveal_strlit("46");
            reveal_strlit("47");
            reveal_strlit("100");
            reveal_strlit("101");
            reveal_strlit("102");
            reveal_strlit("103");
            reveal_strlit("104");
            reveal_strlit("105");
            reveal_strlit("106");
            reveal_strlit("107");
            reveal_strlit("48");
        }
        match self {
            Color::Black => "40".to_owned(),
            Color::Red => "41".to_owned(),
            Color::Green => "42".to_owned(),
            Color::Yellow => "43".to_owned(),
            Color::Blue => "44".to_owned(),
            Color::Magenta => "45".to_owned(),
            Color::Cyan => "46".to_owned(),
            Color::White => "47".to_owned(),
            Color::BrightBlack => "100".to_owned(),
            Color::BrightRed => "101".to_owned(),
            Color::BrightGreen => "102".to_owned(),
            Color::BrightYellow => "103".to_owned(),
            Color::BrightBlue => "104".to_owned(),
            Color::BrightMagenta => "105".to_owned(),
            Color::BrightCyan => "106".to_owned(),
            Color::BrightWhite => "107".to_owned(),
            Color::TrueColor { r, g, b } => {
                let mut s = "48".to_owned();
                append_truecolor_tail(&mut s, *r, *g, *b);
                proof {
                    assert(s@ =~= bg_code(*self));
                }
                s
            },
        }
    }
}

/// `c` with an upper-case ASCII letter folded to its lower-case form.
pub open spec fn lower_char(c: char) -> char {
    if 65 <= c as u32 && c as u32 <= 90 {
        (((c as u32) + 32) as u8) as char
    } else {
        c
    }
}

/// `s` with every upper-case ASCII letter folded to lower case.
pub open spec fn lower_seq(s: Seq<char>) -> Seq<char> {
    s.map_values(|c: char| lower_char(c))
}

/// The color a name designates, if any. Matching folds upper-case ASCII
/// letters, so "Blue", "BLUE" and "blue" all designate the same color;
/// "purple" is an accepted alias for magenta, and the bright variants are
/// named "bright " followed by the standard name.
pub open spec fn parse_name(s: Seq<char>) -> Option<Color> {
    let t = lower_seq(s);
    if t == "black"@ {
        Some(Color::Black)
    } else if t == "red"@ {
        Some(Color::Red)
    } else if t == "green"@ {
        Some(Color::Green)
    } else if t == "yellow"@ {
        Some(Color::Yellow)
    } else if t == "blue"@ {
        Some(Color::Blue)
    } else if t == "magenta"@ || t == "purple"@ {
        Some(Color::Magenta)
    } else if t == "cyan"@ {
        Some(Color::Cyan)
    } else if t == "white"@ {
        Some(Color::White)
    } else if t == "bright black"@ {
        Some(Color::BrightBlack)
    } else if t == "bright red"@ {
        Some(Color::BrightRed)
    } else if t == "bright green"@ {
        Some(Color::BrightGreen)
    } else if t == "bright yellow"@ {
        Some(Color::BrightYellow)
    } else if t == "bright blue"@ {
        Some(Color::BrightBlue)
    } else if t == "bright magenta"@ {
        Some(Color::BrightMagenta)
    } else if t == "bright cyan"@ {
        Some(Color::BrightCyan)
    } else if t == "bright white"@ {
        Some(Color::BrightWhite)
    } else {
        None
    }
}

/// The color a name designates, falling back to white for an unknown name.
pub open spec fn parse_or_white(s: Seq<char>) -> Color {
    match parse_name(s) {
        Some(c) => c,
        None => Color::White,
    }
}

/// The executable fold of one upper-case ASCII letter.
fn lower_char_exec(c: char) -> (r: char)
    ensures
        r == lower_char(c),
{
    let u = c as u32;
    if 65 <= u && u <= 90 {
        ((u + 32) as u8) as char
    } else {
        c
    }
}

/// Whether `s`, folded to lower case, equals `name` exactly.
fn eq_lower(s: &str, name: &str) -> (r: bool)
    ensures
        r == (lower_seq(s@) == name@),
{
    let n = s.unicode_len();
    if n != name.unicode_len() {
        proof {
            assert(lower_seq(s@).len() == s@.len());
        }
        return false;
    }
    let mut i: usize = 0;
    while i < n
        invariant
            n == s@.len() == name@.len(),
            i <= n,
            forall|j: int| 0 <= j < i ==> lower_char(s@[j]) == name@[j],
        decreases n - i,
    {
        if lower_char_exec(s.get_char(i)) != name.get_char(i) {
            proof {
                assert(lower_seq(s@)[i as int] != name@[i as int]);
            }
            return false;
        }
        i += 1;
    }
    proof {
        assert(lower_seq(s@) =~= name@);
    }
    true
}

impl Color {
    /// Looks a color up by name, folding upper-case ASCII letters; an unknown
    /// name is rejected with [`InvalidColorName`].
    pub fn from_name(s: &str) -> (r: Result<Color, InvalidColorName>)
        ensures
            (match parse_name(s@) {
                Some(c) => r == Ok::<Color, InvalidColorName>(c),
                None => r == Err::<Color, InvalidColorName>(InvalidColorName),
            }),
    {
        if eq_lower(s, "black") {
            Ok(Color::Black)
        } else if eq_lower(s, "red") {
            Ok(Color::Red)
        } else if eq_lower(s, "green") {
            Ok(Color::Green)
        } else if eq_lower(s, "yellow") {
            Ok(Color::Yellow)
        } else if eq_lower(s, "blue") {
            Ok(Color::Blue)
        } else if eq_lower(s, "magenta") {
            Ok(Color::Magenta)
        } else if eq_lower(s, "purple") {
            Ok(Color::Magenta)
        } else if eq_lower(s, "cyan") {
            Ok(Color::Cyan)
        } else if eq_lower(s, "white") {
            Ok(Color::White)
        } else if eq_lower(s, "bright black") {
            Ok(Color::BrightBlack)
        } else if eq_lower(s, "bright red") {
            Ok(Color::BrightRed)
        } else if eq_lower(s, "bright green") {
            Ok(Color::BrightGreen)
        } else if eq_lower(s, "bright yellow") {
            Ok(Color::BrightYellow)
        } else if eq_lower(s, "bright blue") {
            Ok(Color::BrightBlue)
        } else if eq_lower(s, "bright magenta") {
            Ok(Color::BrightMagenta)
        } else if eq_lower(s, "bright cyan") {
            Ok(Color::BrightCyan)
        } else if eq_lower(s, "bright white") {
            Ok(Color::BrightWhite)
        } else {
            Err(InvalidColorName)
        }
    }

    /// Looks a color up by name, falling back to white when the name is
    /// unknown.
    pub fn from_name_or_white(s: &str) -> (r: Color)
        ensures
            r == parse_or_white(s@),
    {
        match Color::from_name(s) {
            Ok(c) => c,
            Err(_) => Color::White,
        }
    }
}

/// Both parameter strings are well-formed SGR segments.
pub proof fn lemma_color_codes_are_segs(c: Color)
    ensures
        is_code_seg(fg_code(c)),
        is_code_seg(bg_code(c)),
{
    match c {
        Color::TrueColor { r, g, b } => {
            lemma_dec_seq_digits(r as int);
            lemma_dec_seq_digits(g as int);
            lemma_dec_seq_digits(b as int);
            lemma_all_digit_or_semi_concat(seq!['3', '8', ';', '2', ';'], dec_seq(r as int));
            lemma_all_digit_or_semi_concat(
                seq!['3', '8', ';', '2', ';'] + dec_seq(r as int),
                seq![';'],
            );
            lemma_all_digit_or_semi_concat(
                seq!['3', '8', ';', '2', ';'] + dec_seq(r as int) + seq![';'],
                dec_seq(g as int),
            );
            lemma_all_digit_or_semi_concat(
                seq!['3', '8', ';', '2', ';'] + dec_seq(r as int) + seq![';'] + dec_seq(g as int),
                seq![';'],
            );
            lemma_all_digit_or_semi_concat(
                seq!['3', '8', ';', '2', ';'] + dec_seq(r as int) + seq![';'] + dec_seq(g as int)
                    + seq![';'],
                dec_seq(b as int),
            );
            lemma_all_digit_or_semi_concat(seq!['4', '8', ';', '2', ';'], dec_seq(r as int));
            lemma_all_digit_or_semi_concat(
                seq!['4', '8', ';', '2', ';'] + dec_seq(r as int),
                seq![';'],
            );
            lemma_all_digit_or_semi_concat(
                seq!['4', '8', ';', '2', ';'] + dec_seq(r as int) + seq![';'],
                dec_seq(g as int),
            );
            lemma_all_digit_or_semi_concat(
                seq!['4', '8', ';', '2', ';'] + dec_seq(r as int) + seq![';'] + dec_seq(g as int),
                seq![';'],
            );
            lemma_all_digit_or_semi_concat(
                seq!['4', '8', ';', '2', ';'] + dec_seq(r as int) + seq![';'] + dec_seq(g as int)
                    + seq![';'],
                dec_seq(b as int),
            );
        },
        _ => {},
    }
}

/// For every color the foreground and background parameter strings are
/// non-empty and differ from each other: they disagree on their first
/// character.
pub proof fn lemma_fg_bg_codes_differ(c: Color)
    ensures
        fg_code(c).len() > 0,
        bg_code(c).len() > 0,
        fg_code(c) != bg_code(c),
{
    assert(fg_code(c)[0] != bg_code(c)[0]) by {
        match c {
            Color::TrueColor { r, g, b } => {
                assert(fg_code(c)[0] == '3');
                assert(bg_code(c)[0] == '4');
            },
            _ => {},
        }
    }
}

} // verus!
