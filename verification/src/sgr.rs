//! Building blocks for SGR parameter strings: decimal rendering of small
//! numbers, semicolon-joined parameter lists, and the facts about their
//! character content that the rendering proofs need.

use vstd::prelude::*;

verus! {

/// The character for a single decimal digit.
pub open spec fn digit_char(d: int) -> char
    recommends
        0 <= d < 10,
{
    if d == 0 {
        '0'
    } else if d == 1 {
        '1'
    } else if d == 2 {
        '2'
    } else if d == 3 {
        '3'
    } else if d == 4 {
        '4'
    } else if d == 5 {
        '5'
    } else if d == 6 {
        '6'
    } else if d == 7 {
        '7'
    } else if d == 8 {
        '8'
    } else {
        '9'
    }
}

/// The decimal digit characters of `n`, most significant first.
pub open spec fn dec_seq(n: int) -> Seq<char>
    recommends
        n >= 0,
    decreases n,
{
    if n < 10 {
        seq![digit_char(n)]
    } else {
        dec_seq(n / 10).push(digit_char(n % 10))
    }
}

/// Whether `c` is a decimal digit character.
pub open spec fn is_digit_char(c: char) -> bool {
    c == '0' || c == '1' || c == '2' || c == '3' || c == '4' || c == '5' || c == '6' || c == '7'
        || c == '8' || c == '9'
}

/// Whether `c` may appear in an SGR parameter list: a digit or a semicolon.
pub open spec fn digit_or_semi(c: char) -> bool {
    is_digit_char(c) || c == ';'
}

/// Whether every character of `s` may appear in an SGR parameter list.
pub open spec fn all_digit_or_semi(s: Seq<char>) -> bool {
    forall|i: int| 0 <= i < s.len() ==> digit_or_semi(#[trigger] s[i])
}

/// Whether `s` is a well-formed SGR parameter segment: non-empty, made of
/// digits and semicolons, and starting with a non-zero digit (so that no
/// segment can begin the universal reset parameter `0`).
pub open spec fn is_code_seg(s: Seq<char>) -> bool {
    &&& s.len() > 0
    &&& is_digit_char(s[0])
    &&& s[0] != '0'
    &&& all_digit_or_semi(s)
}

/// The given parameter segments joined with `;` between them.
pub open spec fn join_semi(parts: Seq<Seq<char>>) -> Seq<char>
    decreases parts.len(),
{
    if parts.len() == 0 {
        Seq::empty()
    } else if parts.len() == 1 {
        parts[0]
    } else {
        parts[0] + seq![';'] + join_semi(parts.drop_first())
    }
}

/// Appending one more segment extends the joined list by a `;` separator,
/// or is the list itself when nothing was joined yet.
pub proof fn lemma_join_semi_push(parts: Seq<Seq<char>>, p: Seq<char>)
    ensures
        join_semi(parts.push(p)) == if parts.len() == 0 {
            p
        } else {
            join_semi(parts) + seq![';'] + p
        },
    decreases parts.len(),
{
    if parts.len() == 0 {
        assert(parts.push(p).len() == 1);
        assert(parts.push(p)[0] == p);
    } else if parts.len() == 1 {
        assert(parts.push(p)[0] == parts[0]);
        assert(parts.push(p).drop_first() =~= seq![p]);
        assert(join_semi(seq![p]) == p);
        assert(join_semi(parts.push(p)) =~= parts[0] + seq![';'] + p);
    } else {
        assert(parts.push(p)[0] == parts[0]);
        assert(parts.push(p).drop_first() =~= parts.drop_first().push(p));
        lemma_join_semi_push(parts.drop_first(), p);
        assert(join_semi(parts.push(p)) =~= join_semi(parts) + seq![';'] + p);
    }
}

/// The digits of a non-negative number: at least one, all digit characters,
/// and without a leading zero unless the number is zero itself.
pub proof fn lemma_dec_seq_digits(n: int)
    requires
        n >= 0,
    ensures
        dec_seq(n).len() >= 1,
        all_digit_or_semi(dec_seq(n)),
        forall|i: int| 0 <= i < dec_seq(n).len() ==> is_digit_char(#[trigger] dec_seq(n)[i]),
        n >= 1 ==> dec_seq(n)[0] != '0',
    decreases n,
{
    if n < 10 {
        assert(dec_seq(n) =~= seq![digit_char(n)]);
    } else {
        lemma_dec_seq_digits(n / 10);
        assert(dec_seq(n) == dec_seq(n / 10).push(digit_char(n % 10)));
        assert(n / 10 >= 1);
        assert forall|i: int| 0 <= i < dec_seq(n).len() implies is_digit_char(
            #[trigger] dec_seq(n)[i],
        ) by {
            if i < dec_seq(n / 10).len() {
                assert(dec_seq(n)[i] == dec_seq(n / 10)[i]);
            } else {
                assert(dec_seq(n)[i] == digit_char(n % 10));
            }
        }
    }
}

/// Character content of concatenations is the content of the parts.
pub proof fn lemma_all_digit_or_semi_concat(a: Seq<char>, b: Seq<char>)
    requires
        all_digit_or_semi(a),
        all_digit_or_semi(b),
    ensures
        all_digit_or_semi(a + b),
{
    assert forall|i: int| 0 <= i < (a + b).len() implies digit_or_semi(#[trigger] (a + b)[i]) by {
        if i < a.len() {
            assert((a + b)[i] == a[i]);
        } else {
            assert((a + b)[i] == b[i - a.len()]);
        }
    }
}

/// A joined list of well-formed segments holds only digits and semicolons,
/// and begins with the first segment's first character.
pub proof fn lemma_join_semi_code_segs(parts: Seq<Seq<char>>)
    requires
        forall|k: int| 0 <= k < parts.len() ==> is_code_seg(#[trigger] parts[k]),
    ensures
        all_digit_or_semi(join_semi(parts)),
        parts.len() > 0 ==> join_semi(parts).len() > 0 && join_semi(parts)[0] == parts[0][0],
    decreases parts.len(),
{
    if parts.len() == 0 {
    } else if parts.len() == 1 {
        assert(is_code_seg(parts[0]));
    } else {
        assert(forall|k: int|
            0 <= k < parts.drop_first().len() ==> is_code_seg(#[trigger] parts.drop_first()[k]));
        lemma_join_semi_code_segs(parts.drop_first());
        assert(is_code_seg(parts[0]));
        lemma_all_digit_or_semi_concat(parts[0], seq![';']);
        lemma_all_digit_or_semi_concat(parts[0] + seq![';'], join_semi(parts.drop_first()));
        assert(join_semi(parts)[0] == parts[0][0]);
    }
}

/// Whether every element is a well-formed SGR parameter segment.
pub open spec fn all_code_segs(parts: Seq<Seq<char>>) -> bool {
    forall|k: int| 0 <= k < parts.len() ==> is_code_seg(#[trigger] parts[k])
}

/// Segment well-formedness is preserved by concatenation.
pub proof fn lemma_all_code_segs_concat(a: Seq<Seq<char>>, b: Seq<Seq<char>>)
    requires
        all_code_segs(a),
        all_code_segs(b),
    ensures
        all_code_segs(a + b),
{
    assert forall|k: int| 0 <= k < (a + b).len() implies is_code_seg(#[trigger] (a + b)[k]) by {
        if k < a.len() {
            assert((a + b)[k] == a[k]);
        } else {
            assert((a + b)[k] == b[k - a.len()]);
        }
    }
}

/// The character for one decimal digit, as a borrowed one-character string.
pub(crate) fn digit_lit(d: u8) -> (r: &'static str)
    requires
        d < 10,
    ensures
        r@ == seq![digit_char(d as int)],
{
    proof {
        reveal_strlit("0");
        reveal_strlit("1");
        reveal_strlit("2");
        reveal_strlit("3");
        reveal_strlit("4");
        reveal_strlit("5");
        reveal_strlit("6");
        reveal_strlit("7");
        reveal_strlit("8");
        reveal_strlit("9");
    }
    match d {
        0 => "0",
        1 => "1",
        2 => "2",
        3 => "3",
        4 => "4",
        5 => "5",
        6 => "6",
        7 => "7",
        8 => "8",
        _ => "9",
    }
}

/// Appends the decimal digits of `n` to `s`.
pub(crate) fn append_decimal(s: &mut String, n: u8)
    ensures
        final(s)@ == old(s)@ + dec_seq(n as int),
{
    let d0: u8 = n % 10;
    let d1: u8 = (n / 10) % 10;
    let d2: u8 = n / 100;
    if n >= 100 {
        s.append(digit_lit(d2));
    }
    if n >= 10 {
        s.append(digit_lit(d1));
    }
    s.append(digit_lit(d0));
    proof {
        let ni = n as int;
        if ni < 10 {
            assert(dec_seq(ni) =~= seq![digit_char(ni)]);
            assert(final(s)@ =~= old(s)@ + dec_seq(ni));
        } else if ni < 100 {
            assert(dec_seq(ni / 10) =~= seq![digit_char(ni / 10)]);
            assert(dec_seq(ni) =~= seq![digit_char(ni / 10), digit_char(ni % 10)]);
            assert(d1 as int == ni / 10);
            assert(final(s)@ =~= old(s)@ + dec_seq(ni));
        } else {
            assert(ni / 10 >= 10);
            assert(ni / 10 < 100);
            assert(dec_seq(ni / 10 / 10) =~= seq![digit_char(ni / 10 / 10)]);
            assert(dec_seq(ni / 10) =~= seq![digit_char(ni / 10 / 10), digit_char(ni / 10 % 10)]);
            assert(dec_seq(ni) =~= seq![
                digit_char(ni / 10 / 10),
                digit_char(ni / 10 % 10),
                digit_char(ni % 10),
            ]);
            assert(d2 as int == ni / 10 / 10);
            assert(d1 as int == ni / 10 % 10);
            assert(final(s)@ =~= old(s)@ + dec_seq(ni));
        }
    }
}

} // verus!
