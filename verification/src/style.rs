//! The style model: a set of eight independent text attributes with
//! union / difference composition and a fixed-order mapping to SGR codes.

use vstd::prelude::*;

use crate::sgr::{all_code_segs, is_code_seg, lemma_all_code_segs_concat};

verus! {

/// One of the eight text attributes a [`Style`] can carry.
#[derive(Clone, Copy, Debug, PartialEq, Eq, Structural)]
pub enum Styles {
    Bold,
    Dimmed,
    Italic,
    Underline,
    Blink,
    Reversed,
    Hidden,
    Strikethrough,
}

/// A set of text attributes. The empty set is the canonical "no style" value.
#[derive(Clone, Copy, Debug, PartialEq, Eq, Structural)]
pub struct Style {
    pub bold: bool,
    pub dimmed: bool,
    pub italic: bool,
    pub underline: bool,
    pub blink: bool,
    pub reversed: bool,
    pub hidden: bool,
    pub strikethrough: bool,
}

impl Style {
    /// Whether the given attribute is a member of this set.
    pub open spec fn spec_contains(self, flag: Styles) -> bool {
        match flag {
            Styles::Bold => self.bold,
            Styles::Dimmed => self.dimmed,
            Styles::Italic => self.italic,
            Styles::Underline => self.underline,
            Styles::Blink => self.blink,
            Styles::Reversed => self.reversed,
            Styles::Hidden => self.hidden,
            Styles::Strikethrough => self.strikethrough,
        }
    }

    /// Whether no attribute is set.
    pub open spec fn spec_is_empty(self) -> bool {
        !self.bold && !self.dimmed && !self.italic && !self.underline && !self.blink
            && !self.reversed && !self.hidden && !self.strikethrough
    }

    /// The set holding the attributes of `self` together with those of `other`.
    pub open spec fn spec_union(self, other: Style) -> Style {
        Style {
            bold: self.bold || other.bold,
            dimmed: self.dimmed || other.dimmed,
            italic: self.italic || other.italic,
            underline: self.underline || other.underline,
            blink: self.blink || other.blink,
            reversed: self.reversed || other.reversed,
            hidden: self.hidden || other.hidden,
            strikethrough: self.strikethrough || other.strikethrough,
        }
    }

    /// The set holding the attributes of `self` that are not in `other`.
    pub open spec fn spec_difference(self, other: Style) -> Style {
        Style {
            bold: self.bold && !other.bold,
            dimmed: self.dimmed && !other.dimmed,
            italic: self.italic && !other.italic,
            underline: self.underline && !other.underline,
            blink: self.blink && !other.blink,
            reversed: self.reversed && !other.reversed,
            hidden: self.hidden && !other.hidden,
            strikethrough: self.strikethrough && !other.strikethrough,
        }
    }

    /// The set with the single attribute `flag`.
    pub open spec fn spec_only(flag: Styles) -> Style {
        Style {
            bold: flag is Bold,
            dimmed: flag is Dimmed,
            italic: flag is Italic,
            underline: flag is Underline,
            blink: flag is Blink,
            reversed: flag is Reversed,
            hidden: flag is Hidden,
            strikethrough: flag is Strikethrough,
        }
    }

    /// The empty attribute set.
    pub fn empty() -> (s: Style)
        ensures
            s.spec_is_empty(),
            s == Style::spec_empty(),
    {
        Style {
            bold: false,
            dimmed: false,
            italic: false,
            underline: false,
            blink: false,
            reversed: false,
            hidden: false,
            strikethrough: false,
        }
    }

    /// The empty attribute set, at the specification level.
    pub open spec fn spec_empty() -> Style {
        Style {
            bold: false,
            dimmed: false,
            italic: false,
            underline: false,
            blink: false,
            reversed: false,
            hidden: false,
            strikethrough: false,
        }
    }

    /// The set with the single attribute `flag`.
    pub fn only(flag: Styles) -> (s: Style)
        ensures
            s == Style::spec_only(flag),
    {
        let mut s = Style::empty();
        match flag {
            Styles::Bold => {
                s.bold = true;
            },
            Styles::Dimmed => {
                s.dimmed = true;
            },
            Styles::Italic => {
                s.italic = true;
            },
            Styles::Underline => {
                s.underline = true;
            },
            Styles::Blink => {
                s.blink = true;
            },
            Styles::Reversed => {
                s.reversed = true;
            },
            Styles::Hidden => {
                s.hidden = true;
            },
            Styles::Strikethrough => {
                s.strikethrough = true;
            },
        }
        s
    }

    /// Reports whether this set holds the given attribute.
    pub fn contains(&self, flag: Styles) -> (r: bool)
        ensures
            r == self.spec_contains(flag),
    {
        match flag {
            Styles::Bold => self.bold,
            Styles::Dimmed => self.dimmed,
            Styles::Italic => self.italic,
            Styles::Underline => self.underline,
            Styles::Blink => self.blink,
            Styles::Reversed => self.reversed,
            Styles::Hidden => self.hidden,
            Styles::Strikethrough => self.strikethrough,
        }
    }

    /// Reports whether no attribute is set.
    pub fn is_empty(&self) -> (r: bool)
        ensures
            r == self.spec_is_empty(),
    {
        !self.bold && !self.dimmed && !self.italic && !self.underline && !self.blink
            && !self.reversed && !self.hidden && !self.strikethrough
    }

    /// The union of the two attribute sets.
    pub fn union(self, other: Style) -> (r: Style)
        ensures
            r == self.spec_union(other),
    {
        Style {
            bold: self.bold || other.bold,
            dimmed: self.dimmed || other.dimmed,
            italic: self.italic || other.italic,
            underline: self.underline || other.underline,
            blink: self.blink || other.blink,
            reversed: self.reversed || other.reversed,
            hidden: self.hidden || other.hidden,
            strikethrough: self.strikethrough || other.strikethrough,
        }
    }

    /// The attributes of `self` without those of `other`. Removing an
    /// attribute that is not present is a no-op.
    pub fn difference(self, other: Style) -> (r: Style)
        ensures
            r == self.spec_difference(other),
    {
        Style {
            bold: self.bold && !other.bold,
            dimmed: self.dimmed && !other.dimmed,
            italic: self.italic && !other.italic,
            underline: self.underline && !other.underline,
            blink: self.blink && !other.blink,
            reversed: self.reversed && !other.reversed,
            hidden: self.hidden && !other.hidden,
            strikethrough: self.strikethrough && !other.strikethrough,
        }
    }
}

impl Style {
    /// The SGR codes of the set attributes, one segment per attribute, in
    /// ascending numeric order: bold `1`, dimmed `2`, italic `3`, underline
    /// `4`, blink `5`, reversed `7`, hidden `8`, strikethrough `9`.
    pub open spec fn spec_codes(self) -> Seq<Seq<char>> {
        let v0 = Seq::<Seq<char>>::empty();
        let v1 = if self.bold {
            v0.push(seq!['1'])
        } else {
            v0
        };
        let v2 = if self.dimmed {
            v1.push(seq!['2'])
        } else {
            v1
        };
        let v3 = if self.italic {
            v2.push(seq!['3'])
        } else {
            v2
        };
        let v4 = if self.underline {
            v3.push(seq!['4'])
        } else {
            v3
        };
        let v5 = if self.blink {
            v4.push(seq!['5'])
        } else {
            v4
        };
        let v6 = if self.reversed {
            v5.push(seq!['7'])
        } else {
            v5
        };
        let v7 = if self.hidden {
            v6.push(seq!['8'])
        } else {
            v6
        };
        let v8 = if self.strikethrough {
            v7.push(seq!['9'])
        } else {
            v7
        };
        v8
    }

    /// The SGR codes of the set attributes, in ascending numeric order.
    pub fn sgr_codes(&self) -> (v: Vec<String>)
        ensures
            v.deep_view() == self.spec_codes(),
    {
        proof {
            reveal_strlit("1");
            reveal_strlit("2");
            reveal_strlit("3");
            reveal_strlit("4");
            reveal_strlit("5");
            reveal_strlit("7");
            reveal_strlit("8");
            reveal_strlit("9");
        }
        let ghost mut acc = Seq::<Seq<char>>::empty();
        let mut v: Vec<String> = Vec::new();
        proof {
            assert(v.deep_view() =~~= acc);
        }
        if self.bold {
            v.push("1".to_owned());
            proof {
                acc = acc.push(seq!['1']);
                assert(v.deep_view() =~~= acc);
            }
        }
        if self.dimmed {
            v.push("2".to_owned());
            proof {
                acc = acc.push(seq!['2']);
                assert(v.deep_view() =~~= acc);
            }
        }
        if self.italic {
            v.push("3".to_owned());
            proof {
                acc = acc.push(seq!['3']);
                assert(v.deep_view() =~~= acc);
            }
        }
        if self.underline {
            v.push("4".to_owned());
            proof {
                acc = acc.push(seq!['4']);
                assert(v.deep_view() =~~= acc);
            }
        }
        if self.blink {
            v.push("5".to_owned());
            proof {
                acc = acc.push(seq!['5']);
                assert(v.deep_view() =~~= acc);
            }
        }
        if self.reversed {
            v.push("7".to_owned());
            proof {
                acc = acc.push(seq!['7']);
                assert(v.deep_view() =~~= acc);
            }
        }
        if self.hidden {
            v.push("8".to_owned());
            proof {
                acc = acc.push(seq!['8']);
                assert(v.deep_view() =~~= acc);
            }
        }
        if self.strikethrough {
            v.push("9".to_owned());
            proof {
                acc = acc.push(seq!['9']);
                assert(v.deep_view() =~~= acc);
            }
        }
        proof {
            assert(acc == self.spec_codes());
        }
        v
    }
}

/// Adding a well-formed segment keeps the list well-formed.
pub proof fn lemma_all_code_segs_push(parts: Seq<Seq<char>>, p: Seq<char>)
    requires
        all_code_segs(parts),
        is_code_seg(p),
    ensures
        all_code_segs(parts.push(p)),
{
    assert forall|k: int| 0 <= k < parts.push(p).len() implies is_code_seg(
        #[trigger] parts.push(p)[k],
    ) by {
        if k < parts.len() {
            assert(parts.push(p)[k] == parts[k]);
        } else {
            assert(parts.push(p)[k] == p);
        }
    }
}

/// Every attribute code is a well-formed SGR parameter segment.
pub proof fn lemma_style_codes_are_segs(st: Style)
    ensures
        all_code_segs(st.spec_codes()),
{
    let v0 = Seq::<Seq<char>>::empty();
    let v1 = if st.bold { v0.push(seq!['1']) } else { v0 };
    let v2 = if st.dimmed { v1.push(seq!['2']) } else { v1 };
    let v3 = if st.italic { v2.push(seq!['3']) } else { v2 };
    let v4 = if st.underline { v3.push(seq!['4']) } else { v3 };
    let v5 = if st.blink { v4.push(seq!['5']) } else { v4 };
    let v6 = if st.reversed { v5.push(seq!['7']) } else { v5 };
    let v7 = if st.hidden { v6.push(seq!['8']) } else { v6 };
    let v8 = if st.strikethrough { v7.push(seq!['9']) } else { v7 };
    assert(all_code_segs(v0));
    if st.bold {
        lemma_all_code_segs_push(v0, seq!['1']);
    }
    if st.dimmed {
        lemma_all_code_segs_push(v1, seq!['2']);
    }
    if st.italic {
        lemma_all_code_segs_push(v2, seq!['3']);
    }
    if st.underline {
        lemma_all_code_segs_push(v3, seq!['4']);
    }
    if st.blink {
        lemma_all_code_segs_push(v4, seq!['5']);
    }
    if st.reversed {
        lemma_all_code_segs_push(v5, seq!['7']);
    }
    if st.hidden {
        lemma_all_code_segs_push(v6, seq!['8']);
    }
    if st.strikethrough {
        lemma_all_code_segs_push(v7, seq!['9']);
    }
    assert(v8 == st.spec_codes());
}

/// Union absorbs a repeated operand: adding `s2` a second time changes nothing.
pub proof fn lemma_union_idempotent(s1: Style, s2: Style)
    ensures
        s1.spec_union(s2).spec_union(s2) == s1.spec_union(s2),
{
}

/// Difference undoes union exactly: `(s1 union s2) difference s2` retains
/// precisely the attributes of `s1` that are not in `s2`.
pub proof fn lemma_difference_of_union(s1: Style, s2: Style)
    ensures
        s1.spec_union(s2).spec_difference(s2) == s1.spec_difference(s2),
        forall|flag: Styles|
            s1.spec_union(s2).spec_difference(s2).spec_contains(flag) == (s1.spec_contains(flag)
                && !s2.spec_contains(flag)),
{
    assert forall|flag: Styles|
        s1.spec_union(s2).spec_difference(s2).spec_contains(flag) == (s1.spec_contains(flag)
            && !s2.spec_contains(flag)) by {
        match flag {
            Styles::Bold => {},
            Styles::Dimmed => {},
            Styles::Italic => {},
            Styles::Underline => {},
            Styles::Blink => {},
            Styles::Reversed => {},
            Styles::Hidden => {},
            Styles::Strikethrough => {},
        }
    }
}

} // verus!
