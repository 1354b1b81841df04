//! The reset-escaping algorithm: every occurrence of the universal reset
//! sequence inside a styled value's text is followed by a fresh copy of the
//! value's own escape prefix, so that an inner styled substring cannot cancel
//! the outer styling for the rest of the text. Matches are found left to
//! right and the inserted prefix is never rescanned.

use vstd::prelude::*;
use vstd::string::StrSliceExecFns;

verus! {

/// The universal reset sequence `ESC[0m`.
pub open spec fn reset_seq() -> Seq<char> {
    seq!['\u{1B}', '[', '0', 'm']
}

/// Whether the four characters of `t` starting at `i` are the reset sequence.
pub open spec fn has_reset_at(t: Seq<char>, i: int) -> bool {
    &&& 0 <= i
    &&& i + 4 <= t.len()
    &&& t[i] == '\u{1B}'
    &&& t[i + 1] == '['
    &&& t[i + 2] == '0'
    &&& t[i + 3] == 'm'
}

/// Whether `t` starts with the reset sequence.
pub open spec fn begins_with_reset(t: Seq<char>) -> bool {
    has_reset_at(t, 0)
}

/// Whether the reset sequence occurs nowhere in `t`.
pub open spec fn no_reset(t: Seq<char>) -> bool {
    forall|i: int| !#[trigger] has_reset_at(t, i)
}

/// `t` with `style` inserted after every occurrence of the reset sequence,
/// scanning left to right without rescanning inserted text.
pub open spec fn escape_seq(t: Seq<char>, style: Seq<char>) -> Seq<char>
    decreases t.len(),
{
    if t.len() == 0 {
        Seq::empty()
    } else if begins_with_reset(t) {
        reset_seq() + style + escape_seq(t.skip(4), style)
    } else {
        seq![t[0]] + escape_seq(t.skip(1), style)
    }
}

/// Dropping the head of a reset-free text leaves it reset-free.
proof fn lemma_no_reset_skip1(t: Seq<char>)
    requires
        no_reset(t),
        t.len() >= 1,
    ensures
        no_reset(t.skip(1)),
{
    assert forall|i: int| !#[trigger] has_reset_at(t.skip(1), i) by {
        if has_reset_at(t.skip(1), i) {
            assert(t.skip(1)[i] == t[i + 1]);
            assert(t.skip(1)[i + 1] == t[i + 2]);
            assert(t.skip(1)[i + 2] == t[i + 3]);
            assert(t.skip(1)[i + 3] == t[i + 4]);
            assert(has_reset_at(t, i + 1));
        }
    }
}

/// Escaping a text in which the reset sequence never occurs changes nothing.
pub proof fn lemma_escape_no_reset(t: Seq<char>, style: Seq<char>)
    requires
        no_reset(t),
    ensures
        escape_seq(t, style) == t,
    decreases t.len(),
{
    if t.len() == 0 {
        assert(escape_seq(t, style) =~= t);
    } else {
        assert(!has_reset_at(t, 0));
        lemma_no_reset_skip1(t);
        lemma_escape_no_reset(t.skip(1), style);
        assert(seq![t[0]] + t.skip(1) =~= t);
    }
}

/// Escaping restores the style after a reset: when `a` holds no reset, the
/// first reset of `a ++ reset ++ b` is the explicit one, and the style is
/// inserted exactly there before the scan goes on in `b`.
pub proof fn lemma_escape_restores(a: Seq<char>, b: Seq<char>, style: Seq<char>)
    requires
        no_reset(a),
    ensures
        escape_seq(a + reset_seq() + b, style) == a + reset_seq() + style + escape_seq(b, style),
    decreases a.len(),
{
    let t = a + reset_seq() + b;
    if a.len() == 0 {
        assert(t[0] == reset_seq()[0]);
        assert(t[1] == reset_seq()[1]);
        assert(t[2] == reset_seq()[2]);
        assert(t[3] == reset_seq()[3]);
        assert(begins_with_reset(t));
        assert(t.skip(4) =~= b);
        assert(reset_seq() + style + escape_seq(b, style) =~= a + reset_seq() + style + escape_seq(
            b,
            style,
        ));
    } else {
        assert(!begins_with_reset(t)) by {
            if begins_with_reset(t) {
                if a.len() >= 4 {
                    assert(t[0] == a[0]);
                    assert(t[1] == a[1]);
                    assert(t[2] == a[2]);
                    assert(t[3] == a[3]);
                    assert(has_reset_at(a, 0));
                } else {
                    let j = a.len() as int;
                    assert(t[j] == reset_seq()[0]);
                    if j == 1 {
                        assert(t[1] == '[');
                    } else if j == 2 {
                        assert(t[2] == '0');
                    } else {
                        assert(t[3] == 'm');
                    }
                }
            }
        }
        assert(t[0] == a[0]);
        lemma_no_reset_skip1(a);
        assert(t.skip(1) =~= a.skip(1) + reset_seq() + b);
        lemma_escape_restores(a.skip(1), b, style);
        assert(seq![a[0]] + (a.skip(1) + reset_seq() + style + escape_seq(b, style)) =~= a
            + reset_seq() + style + escape_seq(b, style));
    }
}

/// A reset-free text followed by one whose first character is the escape
/// character is reset-free as a whole.
pub proof fn lemma_no_reset_concat_esc(x: Seq<char>, y: Seq<char>)
    requires
        no_reset(x),
        no_reset(y),
        y.len() > 0 ==> y[0] == '\u{1B}',
    ensures
        no_reset(x + y),
{
    assert forall|i: int| !#[trigger] has_reset_at(x + y, i) by {
        if has_reset_at(x + y, i) {
            if i + 4 <= x.len() {
                assert((x + y)[i] == x[i]);
                assert((x + y)[i + 1] == x[i + 1]);
                assert((x + y)[i + 2] == x[i + 2]);
                assert((x + y)[i + 3] == x[i + 3]);
                assert(has_reset_at(x, i));
            } else if i >= x.len() {
                let k = i - x.len();
                assert((x + y)[i] == y[k]);
                assert((x + y)[i + 1] == y[k + 1]);
                assert((x + y)[i + 2] == y[k + 2]);
                assert((x + y)[i + 3] == y[k + 3]);
                assert(has_reset_at(y, k));
            } else {
                let j = x.len() - i;
                assert((x + y)[x.len() as int] == y[0]);
                if j == 1 {
                    assert((x + y)[i + 1] == '[');
                } else if j == 2 {
                    assert((x + y)[i + 2] == '0');
                } else {
                    assert((x + y)[i + 3] == 'm');
                }
            }
        }
    }
}

/// A reset-free text ending in `m` followed by a reset-free text is
/// reset-free as a whole.
pub proof fn lemma_no_reset_concat_m(x: Seq<char>, y: Seq<char>)
    requires
        no_reset(x),
        no_reset(y),
        x.len() > 0,
        x[x.len() - 1] == 'm',
    ensures
        no_reset(x + y),
{
    assert forall|i: int| !#[trigger] has_reset_at(x + y, i) by {
        if has_reset_at(x + y, i) {
            if i + 4 <= x.len() {
                assert((x + y)[i] == x[i]);
                assert((x + y)[i + 1] == x[i + 1]);
                assert((x + y)[i + 2] == x[i + 2]);
                assert((x + y)[i + 3] == x[i + 3]);
                assert(has_reset_at(x, i));
            } else if i >= x.len() {
                let k = i - x.len();
                assert((x + y)[i] == y[k]);
                assert((x + y)[i + 1] == y[k + 1]);
                assert((x + y)[i + 2] == y[k + 2]);
                assert((x + y)[i + 3] == y[k + 3]);
                assert(has_reset_at(y, k));
            } else {
                let j = x.len() - 1 - i;
                assert((x + y)[x.len() - 1] == x[x.len() - 1]);
                if j == 0 {
                    assert((x + y)[i] == '\u{1B}');
                } else if j == 1 {
                    assert((x + y)[i + 1] == '[');
                } else {
                    assert((x + y)[i + 2] == '0');
                }
            }
        }
    }
}

/// The shape of a non-empty escape prefix `ESC [ params m` whose parameter
/// list does not begin with `0`: such a prefix cannot contain a reset and
/// cannot begin one when followed by other text.
pub open spec fn is_clean_prefix(p: Seq<char>) -> bool {
    &&& p.len() >= 3
    &&& p[0] == '\u{1B}'
    &&& p[1] == '['
    &&& p[2] != '0'
    &&& p[p.len() - 1] == 'm'
    &&& forall|j: int| 1 <= j < p.len() ==> p[j] != '\u{1B}'
}

/// A clean prefix holds no reset sequence.
pub proof fn lemma_clean_prefix_no_reset(p: Seq<char>)
    requires
        is_clean_prefix(p),
    ensures
        no_reset(p),
{
    assert forall|i: int| !#[trigger] has_reset_at(p, i) by {
        if has_reset_at(p, i) {
            if i == 0 {
                assert(p[2] == '0');
            } else {
                assert(p[i] == '\u{1B}');
            }
        }
    }
}

/// `text` with `style` inserted after every occurrence of the reset
/// sequence, scanning left to right.
pub(crate) fn escape_text(text: &str, style: &str) -> (out: String)
    ensures
        out@ == escape_seq(text@, style@),
{
    proof {
        reveal_strlit("\u{1B}[0m");
    }
    let n = text.unicode_len();
    let mut out = String::new();
    let mut i: usize = 0;
    proof {
        assert(text@.skip(0) =~= text@);
    }
    while i < n
        invariant
            n == text@.len(),
            i <= n,
            escape_seq(text@, style@) == out@ + escape_seq(text@.skip(i as int), style@),
        decreases n - i,
    {
        let ghost t = text@.skip(i as int);
        if n - i >= 4 && text.get_char(i) == '\u{1B}' && text.get_char(i + 1) == '[' && text.get_char(
            i + 2,
        ) == '0' && text.get_char(i + 3) == 'm' {
            proof {
                assert(t[0] == text@[i as int]);
                assert(t[1] == text@[i as int + 1]);
                assert(t[2] == text@[i as int + 2]);
                assert(t[3] == text@[i as int + 3]);
                assert(begins_with_reset(t));
            }
            let ghost out_pre = out@;
            out.append("\u{1B}[0m");
            out.append(style);
            proof {
                reveal_strlit("\u{1B}[0m");
                assert("\u{1B}[0m"@ =~= reset_seq());
                assert(t.skip(4) =~= text@.skip(i as int + 4));
                assert(escape_seq(t, style@) == reset_seq() + style@ + escape_seq(
                    text@.skip(i as int + 4),
                    style@,
                ));
                assert(out@ + escape_seq(text@.skip(i as int + 4), style@) =~= out_pre
                    + escape_seq(t, style@));
            }
            i += 4;
        } else {
            proof {
                assert(!begins_with_reset(t)) by {
                    if begins_with_reset(t) {
                        assert(text@[i as int] == t[0]);
                        assert(text@[i as int + 1] == t[1]);
                        assert(text@[i as int + 2] == t[2]);
                        assert(text@[i as int + 3] == t[3]);
                    }
                }
            }
            let ghost out_pre = out@;
            let piece = text.substring_char(i, i + 1);
            out.append(piece);
            proof {
                assert(piece@ =~= seq![t[0]]);
                assert(t.skip(1) =~= text@.skip(i as int + 1));
                assert(escape_seq(t, style@) == seq![t[0]] + escape_seq(
                    text@.skip(i as int + 1),
                    style@,
                ));
                assert(out@ + escape_seq(text@.skip(i as int + 1), style@) =~= out_pre
                    + escape_seq(t, style@));
            }
            i += 1;
        }
    }
    proof {
        assert(text@.skip(n as int) =~= Seq::<char>::empty());
        assert(escape_seq(text@.skip(n as int), style@) == Seq::<char>::empty());
        assert(out@ =~= escape_seq(text@, style@));
    }
    out
}

} // verus!
