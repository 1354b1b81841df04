//! Terminal text styling: attaching foreground and background colors and
//! text attributes to strings, and rendering that styling as ANSI SGR escape
//! sequences when the colorization policy allows it. The rendering
//! algorithm, including the re-assertion of an outer style after an inner
//! reset, is verified against a sequence-level specification.

pub mod color;
pub mod control;
pub mod escape;
pub mod sgr;
pub mod style;

use vstd::prelude::*;

pub use color::Color;
pub use color::InvalidColorName;
pub use control::Control;
pub use style::Style;
pub use style::Styles;

verus! {

use crate::color::{bg_code, fg_code, lemma_color_codes_are_segs, parse_or_white};
use crate::escape::{
    escape_seq, escape_text, is_clean_prefix, lemma_clean_prefix_no_reset, lemma_escape_no_reset,
    lemma_escape_restores, lemma_no_reset_concat_esc, lemma_no_reset_concat_m, no_reset, reset_seq,
};
use crate::sgr::{
    all_code_segs, digit_or_semi, is_code_seg, join_semi, lemma_all_code_segs_concat,
    lemma_join_semi_code_segs, lemma_join_semi_push,
};
use crate::style::lemma_style_codes_are_segs;

/// The mathematical content of a styled string: its text and styling state.
pub ghost struct ColoredView {
    pub text: Seq<char>,
    pub fg: Option<Color>,
    pub bg: Option<Color>,
    pub style: Style,
}

impl ColoredView {
    /// Whether no styling is attached: no colors and an empty attribute set.
    pub open spec fn is_plain(self) -> bool {
        self.fg is None && self.bg is None && self.style.spec_is_empty()
    }

    /// The same text with all styling discarded.
    pub open spec fn cleared(self) -> ColoredView {
        ColoredView { text: self.text, fg: None, bg: None, style: Style::spec_empty() }
    }
}

/// The background color as a parameter segment list: one segment or none.
pub open spec fn bg_segment(bg: Option<Color>) -> Seq<Seq<char>> {
    match bg {
        Some(c) => seq![bg_code(c)],
        None => Seq::empty(),
    }
}

/// The foreground color as a parameter segment list: one segment or none.
pub open spec fn fg_segment(fg: Option<Color>) -> Seq<Seq<char>> {
    match fg {
        Some(c) => seq![fg_code(c)],
        None => Seq::empty(),
    }
}

/// The SGR parameter segments of a styled value, in rendering order:
/// attribute codes, then the background code, then the foreground code.
pub open spec fn segments(v: ColoredView) -> Seq<Seq<char>> {
    v.style.spec_codes() + bg_segment(v.bg) + fg_segment(v.fg)
}

/// The escape prefix of a styled value: `ESC [`, the semicolon-joined
/// parameter segments, and `m`.
pub open spec fn prefix_chars(v: ColoredView) -> Seq<char> {
    seq!['\u{1B}', '['] + join_semi(segments(v)) + seq!['m']
}

/// What `compute_style` returns: empty when colorization is off or the value
/// is plain, the escape prefix otherwise.
pub open spec fn prefix_spec(v: ColoredView, colorize: bool) -> Seq<char> {
    if !colorize || v.is_plain() {
        Seq::empty()
    } else {
        prefix_chars(v)
    }
}

/// What `escape_inner_reset_sequences` returns: the text unchanged when
/// colorization is off or the value is plain; otherwise the text with the
/// value's own prefix inserted after every inner reset sequence.
pub open spec fn escaped_spec(v: ColoredView, colorize: bool) -> Seq<char> {
    if !colorize || v.is_plain() {
        v.text
    } else {
        escape_seq(v.text, prefix_chars(v))
    }
}

/// What `render` returns: the raw text when colorization is off or the value
/// is plain; otherwise the prefix, the escaped text, and one final reset.
pub open spec fn render_spec(v: ColoredView, colorize: bool) -> Seq<char> {
    if !colorize || v.is_plain() {
        v.text
    } else {
        prefix_chars(v) + escape_seq(v.text, prefix_chars(v)) + reset_seq()
    }
}

/// A string together with an optional foreground color, an optional
/// background color, and a set of text attributes.
#[derive(Clone, Debug)]
pub struct ColoredString {
    input: String,
    fgcolor: Option<Color>,
    bgcolor: Option<Color>,
    style: Style,
}

impl View for ColoredString {
    type V = ColoredView;

    closed spec fn view(&self) -> ColoredView {
        ColoredView { text: self.input@, fg: self.fgcolor, bg: self.bgcolor, style: self.style }
    }
}

impl PartialEq for ColoredString {
    fn eq(&self, other: &ColoredString) -> (r: bool) {
        let fg_eq = match (self.fgcolor, other.fgcolor) {
            (None, None) => true,
            (Some(a), Some(b)) => a == b,
            _ => false,
        };
        let bg_eq = match (self.bgcolor, other.bgcolor) {
            (None, None) => true,
            (Some(a), Some(b)) => a == b,
            _ => false,
        };
        self.input == other.input && fg_eq && bg_eq && self.style == other.style
    }
}

impl vstd::std_specs::cmp::PartialEqSpecImpl for ColoredString {
    open spec fn obeys_eq_spec() -> bool {
        true
    }

    open spec fn eq_spec(&self, other: &ColoredString) -> bool {
        self@ == other@
    }
}

impl Eq for ColoredString {

}

impl Default for ColoredString {
    /// The empty plain string.
    fn default() -> (d: ColoredString)
        ensures
            d@.text == Seq::<char>::empty(),
            d@.is_plain(),
            d@ == d@.cleared(),
    {
        ColoredString {
            input: String::new(),
            fgcolor: None,
            bgcolor: None,
            style: Style::empty(),
        }
    }
}

impl ColoredString {
    /// Wraps plain text, with no styling attached.
    pub fn from(s: &str) -> (r: ColoredString)
        ensures
            r@.text == s@,
            r@.is_plain(),
            r@ == (ColoredView {
                text: s@,
                fg: None,
                bg: None,
                style: Style::spec_empty(),
            }),
    {
        ColoredString { input: s.to_owned(), fgcolor: None, bgcolor: None, style: Style::empty() }
    }

    /// The raw text the value wraps, without any styling.
    pub fn text(&self) -> (r: &str)
        ensures
            r@ == self@.text,
    {
        self.input.as_str()
    }

    /// The foreground color currently applied, if any.
    pub fn fgcolor(&self) -> (r: Option<Color>)
        ensures
            r == self@.fg,
    {
        self.fgcolor
    }

    /// The background color currently applied, if any.
    pub fn bgcolor(&self) -> (r: Option<Color>)
        ensures
            r == self@.bg,
    {
        self.bgcolor
    }

    /// The attribute set currently applied.
    pub fn style(&self) -> (r: Style)
        ensures
            r == self@.style,
    {
        self.style
    }

    /// Whether the string carries no color and no attribute.
    pub fn is_plain(&self) -> (r: bool)
        ensures
            r == self@.is_plain(),
    {
        self.bgcolor.is_none() && self.fgcolor.is_none() && self.style.is_empty()
    }

    /// Whether the given policy allows escape sequences to be emitted.
    pub fn has_colors(&self, control: &Control) -> (r: bool)
        ensures
            r == control.spec_should_colorize(),
    {
        control.should_colorize()
    }

    /// The SGR parameter segments of this value, in rendering order.
    fn segment_vec(&self) -> (v: Vec<String>)
        ensures
            v.deep_view() == segments(self@),
    {
        let mut v = self.style.sgr_codes();
        if let Some(c) = &self.bgcolor {
            v.push(c.to_bg_str());
        }
        proof {
            assert(v.deep_view() =~~= self.style.spec_codes() + bg_segment(self@.bg));
        }
        if let Some(c) = &self.fgcolor {
            v.push(c.to_fg_str());
        }
        proof {
            assert(v.deep_view() =~~= self.style.spec_codes() + bg_segment(self@.bg) + fg_segment(
                self@.fg,
            ));
        }
        v
    }

    /// The full escape prefix `ESC [ params m` of this value.
    fn build_prefix(&self) -> (p: String)
        ensures
            p@ == prefix_chars(self@),
    {
        proof {
            reveal_strlit("\u{1B}[");
            reveal_strlit(";");
            reveal_strlit("m");
        }
        let segs = self.segment_vec();
        let mut res = "\u{1B}[".to_owned();
        proof {
            assert(segs.deep_view().take(0) =~~= Seq::<Seq<char>>::empty());
            assert(res@ =~= seq!['\u{1B}', '['] + join_semi(segs.deep_view().take(0)));
        }
        let mut k: usize = 0;
        while k < segs.len()
            invariant
                segs.deep_view() == segments(self@),
                k <= segs.len(),
                res@ == seq!['\u{1B}', '['] + join_semi(segs.deep_view().take(k as int)),
            decreases segs.len() - k,
        {
            proof {
                reveal_strlit(";");
            }
            if k > 0 {
                res.append(";");
            }
            res.append(segs[k].as_str());
            proof {
                let dv = segs.deep_view();
                assert(dv[k as int] == segs@[k as int]@);
                lemma_join_semi_push(dv.take(k as int), dv[k as int]);
                assert(dv.take(k as int).push(dv[k as int]) =~~= dv.take(k as int + 1));
                assert(res@ =~= seq!['\u{1B}', '['] + join_semi(dv.take(k as int + 1)));
            }
            k += 1;
        }
        proof {
            reveal_strlit("m");
            assert(segs.deep_view().take(segs.len() as int) =~~= segs.deep_view());
        }
        res.append("m");
        proof {
            assert(res@ =~= prefix_chars(self@));
        }
        res
    }

    /// The escape prefix selecting this value's styling, or the empty string
    /// when colorization is off or the value is plain.
    pub fn compute_style(&self, control: &Control) -> (r: String)
        ensures
            r@ == prefix_spec(self@, control.spec_should_colorize()),
    {
        if !self.has_colors(control) || self.is_plain() {
            String::new()
        } else {
            self.build_prefix()
        }
    }

    /// The text with this value's own prefix re-asserted after every inner
    /// reset sequence, so that an embedded styled rendering cannot cancel
    /// this value's styling for the rest of the text. Returns the text
    /// unchanged when colorization is off or the value is plain.
    pub fn escape_inner_reset_sequences(&self, control: &Control) -> (r: String)
        ensures
            r@ == escaped_spec(self@, control.spec_should_colorize()),
    {
        if !self.has_colors(control) || self.is_plain() {
            self.input.clone()
        } else {
            let p = self.build_prefix();
            escape_text(self.input.as_str(), p.as_str())
        }
    }

    /// Renders the value: the raw text when colorization is off or the value
    /// is plain; otherwise the prefix, the escaped text, and a final reset.
    pub fn render(&self, control: &Control) -> (r: String)
        ensures
            r@ == render_spec(self@, control.spec_should_colorize()),
    {
        if !self.has_colors(control) || self.is_plain() {
            return self.input.clone();
        }
        let mut out = self.build_prefix();
        let escaped = escape_text(self.input.as_str(), out.as_str());
        out.append(escaped.as_str());
        proof {
            reveal_strlit("\u{1B}[0m");
            assert("\u{1B}[0m"@ =~= reset_seq());
        }
        out.append("\u{1B}[0m");
        proof {
            assert(out@ =~= render_spec(self@, control.spec_should_colorize()));
        }
        out
    }
}

/// An argument that designates a color: either a color value itself or a
/// name to look up, with white standing in for an unknown name.
pub trait IntoColor: Sized {
    /// The color the argument designates.
    spec fn color_spec(self) -> Color;

    /// Resolves the argument to its color.
    fn into_color(self) -> (c: Color)
        ensures
            c == self.color_spec(),
    ;
}

impl IntoColor for Color {
    open spec fn color_spec(self) -> Color {
        self
    }

    fn into_color(self) -> (c: Color) {
        self
    }
}

impl<'a> IntoColor for &'a str {
    open spec fn color_spec(self) -> Color {
        parse_or_white(self@)
    }

    fn into_color(self) -> (c: Color) {
        Color::from_name_or_white(self)
    }
}

impl IntoColor for String {
    open spec fn color_spec(self) -> Color {
        parse_or_white(self@)
    }

    fn into_color(self) -> (c: Color) {
        Color::from_name_or_white(self.as_str())
    }
}

/// An argument that designates an attribute set: a set itself or one
/// attribute standing for the singleton set.
pub trait IntoStyle: Sized {
    /// The attribute set the argument designates.
    spec fn style_spec(self) -> Style;

    /// Resolves the argument to its attribute set.
    fn into_style(self) -> (s: Style)
        ensures
            s == self.style_spec(),
    ;
}

impl IntoStyle for Style {
    open spec fn style_spec(self) -> Style {
        self
    }

    fn into_style(self) -> (s: Style) {
        self
    }
}

impl IntoStyle for Styles {
    open spec fn style_spec(self) -> Style {
        Style::spec_only(self)
    }

    fn into_style(self) -> (s: Style) {
        Style::only(self)
    }
}

/// The builder surface: anything that can be given color. Implemented by
/// plain string slices and by already-styled strings; every method returns a
/// new [`ColoredString`] with one aspect of the styling changed.
pub trait Colorize: Sized {
    /// The styled view the receiver stands for before the call.
    spec fn base(self) -> ColoredView;

    /// Sets the foreground color, replacing any previous one.
    fn color<S: IntoColor>(self, color: S) -> (r: ColoredString)
        ensures
            r@ == (ColoredView { fg: Some(color.color_spec()), ..self.base() }),
    ;

    /// Sets the background color, replacing any previous one.
    fn on_color<S: IntoColor>(self, color: S) -> (r: ColoredString)
        ensures
            r@ == (ColoredView { bg: Some(color.color_spec()), ..self.base() }),
    ;

    /// Adds the given attributes to the attribute set.
    fn add_style<S: IntoStyle>(self, style: S) -> (r: ColoredString)
        ensures
            r@ == (ColoredView {
                style: self.base().style.spec_union(style.style_spec()),
                ..self.base()
            }),
    ;

    /// Removes the given attributes from the attribute set.
    fn remove_style<S: IntoStyle>(self, style: S) -> (r: ColoredString)
        ensures
            r@ == (ColoredView {
                style: self.base().style.spec_difference(style.style_spec()),
                ..self.base()
            }),
    ;

    /// Discards all styling, keeping the text.
    fn clear(self) -> (r: ColoredString)
        ensures
            r@ == self.base().cleared(),
    ;

    /// Discards all styling, keeping the text.
    fn normal(self) -> (r: ColoredString)
        ensures
            r@ == self.base().cleared(),
    {
        self.clear()
    }

    /// Sets the foreground to a direct 24-bit RGB color.
    fn truecolor(self, r: u8, g: u8, b: u8) -> (res: ColoredString)
        ensures
            res@ == (ColoredView { fg: Some(Color::TrueColor { r, g, b }), ..self.base() }),
    {
        self.color(Color::TrueColor { r, g, b })
    }

    /// Sets the background to a direct 24-bit RGB color.
    fn on_truecolor(self, r: u8, g: u8, b: u8) -> (res: ColoredString)
        ensures
            res@ == (ColoredView { bg: Some(Color::TrueColor { r, g, b }), ..self.base() }),
    {
        self.on_color(Color::TrueColor { r, g, b })
    }

    /// Sets the foreground color to `Color::Black`.
    fn black(self) -> (r: ColoredString)
        ensures
            r@ == (ColoredView { fg: Some(Color::Black), ..self.base() }),
    {
        self.color(Color::Black)
    }

    /// Sets the background color to `Color::Black`.
    fn on_black(self) -> (r: ColoredString)
        ensures
            r@ == (ColoredView { bg: Some(Color::Black), ..self.base() }),
    {
        self.on_color(Color::Black)
    }

    /// Sets the foreground color to `Color::BrightBlack`.
    fn bright_black(self) -> (r: ColoredString)
        ensures
            r@ == (ColoredView { fg: Some(Color::BrightBlack), ..self.base() }),
    {
        self.color(Color::BrightBlack)
    }

    /// Sets the background color to `Color::BrightBlack`.
    fn on_bright_black(self) -> (r: ColoredString)
        ensures
            r@ == (ColoredView { bg: Some(Color::BrightBlack), ..self.base() }),
    {
        self.on_color(Color::BrightBlack)
    }

    /// Sets the foreground color to `Color::Red`.
    fn red(self) -> (r: ColoredString)
        ensures
            r@ == (ColoredView { fg: Some(Color::Red), ..self.base() }),
    {
        self.color(Color::Red)
    }

    /// Sets the background color to `Color::Red`.
    fn on_red(self) -> (r: ColoredString)
        ensures
            r@ == (ColoredView { bg: Some(Color::Red), ..self.base() }),
    {
        self.on_color(Color::Red)
    }

    /// Sets the foreground color to `Color::BrightRed`.
    fn bright_red(self) -> (r: ColoredString)
        ensures
            r@ == (ColoredView { fg: Some(Color::BrightRed), ..self.base() }),
    {
        self.color(Color::BrightRed)
    }

    /// Sets the background color to `Color::BrightRed`.
    fn on_bright_red(self) -> (r: ColoredString)
        ensures
            r@ == (ColoredView { bg: Some(Color::BrightRed), ..self.base() }),
    {
        self.on_color(Color::BrightRed)
    }

    /// Sets the foreground color to `Color::Green`.
    fn green(self) -> (r: ColoredString)
        ensures
            r@ == (ColoredView { fg: Some(Color::Green), ..self.base() }),
    {
        self.color(Color::Green)
    }

    /// Sets the background color to `Color::Green`.
    fn on_green(self) -> (r: ColoredString)
        ensures
            r@ == (ColoredView { bg: Some(Color::Green), ..self.base() }),
    {
        self.on_color(Color::Green)
    }

    /// Sets the foreground color to `Color::BrightGreen`.
    fn bright_green(self) -> (r: ColoredString)
        ensures
            r@ == (ColoredView { fg: Some(Color::BrightGreen), ..self.base() }),
    {
        self.color(Color::BrightGreen)
    }

    /// Sets the background color to `Color::BrightGreen`.
    fn on_bright_green(self) -> (r: ColoredString)
        ensures
            r@ == (ColoredView { bg: Some(Color::BrightGreen), ..self.base() }),
    {
        self.on_color(Color::BrightGreen)
    }

    /// Sets the foreground color to `Color::Yellow`.
    fn yellow(self) -> (r: ColoredString)
        ensures
            r@ == (ColoredView { fg: Some(Color::Yellow), ..self.base() }),
    {
        self.color(Color::Yellow)
    }

    /// Sets the background color to `Color::Yellow`.
    fn on_yellow(self) -> (r: ColoredString)
        ensures
            r@ == (ColoredView { bg: Some(Color::Yellow), ..self.base() }),
    {
        self.on_color(Color::Yellow)
    }

    /// Sets the foreground color to `Color::BrightYellow`.
    fn bright_yellow(self) -> (r: ColoredString)
        ensures
            r@ == (ColoredView { fg: Some(Color::BrightYellow), ..self.base() }),
    {
        self.color(Color::BrightYellow)
    }

    /// Sets the background color to `Color::BrightYellow`.
    fn on_bright_yellow(self) -> (r: ColoredString)
        ensures
            r@ == (ColoredView { bg: Some(Color::BrightYellow), ..self.base() }),
    {
        self.on_color(Color::BrightYellow)
    }

    /// Sets the foreground color to `Color::Blue`.
    fn blue(self) -> (r: ColoredString)
        ensures
            r@ == (ColoredView { fg: Some(Color::Blue), ..self.base() }),
    {
        self.color(Color::Blue)
    }

    /// Sets the background color to `Color::Blue`.
    fn on_blue(self) -> (r: ColoredString)
        ensures
            r@ == (ColoredView { bg: Some(Color::Blue), ..self.base() }),
    {
        self.on_color(Color::Blue)
    }

    /// Sets the foreground color to `Color::BrightBlue`.
    fn bright_blue(self) -> (r: ColoredString)
        ensures
            r@ == (ColoredView { fg: Some(Color::BrightBlue), ..self.base() }),
    {
        self.color(Color::BrightBlue)
    }

    /// Sets the background color to `Color::BrightBlue`.
    fn on_bright_blue(self) -> (r: ColoredString)
        ensures
            r@ == (ColoredView { bg: Some(Color::BrightBlue), ..self.base() }),
    {
        self.on_color(Color::BrightBlue)
    }

    /// Sets the foreground color to `Color::Magenta`.
    fn magenta(self) -> (r: ColoredString)
        ensures
            r@ == (ColoredView { fg: Some(Color::Magenta), ..self.base() }),
    {
        self.color(Color::Magenta)
    }

    /// Sets the background color to `Color::Magenta`.
    fn on_magenta(self) -> (r: ColoredString)
        ensures
            r@ == (ColoredView { bg: Some(Color::Magenta), ..self.base() }),
    {
        self.on_color(Color::Magenta)
    }

    /// Sets the foreground color to `Color::BrightMagenta`.
    fn bright_magenta(self) -> (r: ColoredString)
        ensures
            r@ == (ColoredView { fg: Some(Color::BrightMagenta), ..self.base() }),
    {
        self.color(Color::BrightMagenta)
    }

    /// Sets the background color to `Color::BrightMagenta`.
    fn on_bright_magenta(self) -> (r: ColoredString)
        ensures
            r@ == (ColoredView { bg: Some(Color::BrightMagenta), ..self.base() }),
    {
        self.on_color(Color::BrightMagenta)
    }

    /// Sets the foreground color to `Color::Magenta`.
    fn purple(self) -> (r: ColoredString)
        ensures
            r@ == (ColoredView { fg: Some(Color::Magenta), ..self.base() }),
    {
        self.color(Color::Magenta)
    }

    /// Sets the background color to `Color::Magenta`.
    fn on_purple(self) -> (r: ColoredString)
        ensures
            r@ == (ColoredView { bg: Some(Color::Magenta), ..self.base() }),
    {
        self.on_color(Color::Magenta)
    }

    /// Sets the foreground color to `Color::BrightMagenta`.
    fn bright_purple(self) -> (r: ColoredString)
        ensures
            r@ == (ColoredView { fg: Some(Color::BrightMagenta), ..self.base() }),
    {
        self.color(Color::BrightMagenta)
    }

    /// Sets the background color to `Color::BrightMagenta`.
    fn on_bright_purple(self) -> (r: ColoredString)
        ensures
            r@ == (ColoredView { bg: Some(Color::BrightMagenta), ..self.base() }),
    {
        self.on_color(Color::BrightMagenta)
    }

    /// Sets the foreground color to `Color::Cyan`.
    fn cyan(self) -> (r: ColoredString)
        ensures
            r@ == (ColoredView { fg: Some(Color::Cyan), ..self.base() }),
    {
        self.color(Color::Cyan)
    }

    /// Sets the background color to `Color::Cyan`.
    fn on_cyan(self) -> (r: ColoredString)
        ensures
            r@ == (ColoredView { bg: Some(Color::Cyan), ..self.base() }),
    {
        self.on_color(Color::Cyan)
    }

    /// Sets the foreground color to `Color::BrightCyan`.
    fn bright_cyan(self) -> (r: ColoredString)
        ensures
            r@ == (ColoredView { fg: Some(Color::BrightCyan), ..self.base() }),
    {
        self.color(Color::BrightCyan)
    }

    /// Sets the background color to `Color::BrightCyan`.
    fn on_bright_cyan(self) -> (r: ColoredString)
        ensures
            r@ == (ColoredView { bg: Some(Color::BrightCyan), ..self.base() }),
    {
        self.on_color(Color::BrightCyan)
    }

    /// Sets the foreground color to `Color::White`.
    fn white(self) -> (r: ColoredString)
        ensures
            r@ == (ColoredView { fg: Some(Color::White), ..self.base() }),
    {
        self.color(Color::White)
    }

    /// Sets the background color to `Color::White`.
    fn on_white(self) -> (r: ColoredString)
        ensures
            r@ == (ColoredView { bg: Some(Color::White), ..self.base() }),
    {
        self.on_color(Color::White)
    }

    /// Sets the foreground color to `Color::BrightWhite`.
    fn bright_white(self) -> (r: ColoredString)
        ensures
            r@ == (ColoredView { fg: Some(Color::BrightWhite), ..self.base() }),
    {
        self.color(Color::BrightWhite)
    }

    /// Sets the background color to `Color::BrightWhite`.
    fn on_bright_white(self) -> (r: ColoredString)
        ensures
            r@ == (ColoredView { bg: Some(Color::BrightWhite), ..self.base() }),
    {
        self.on_color(Color::BrightWhite)
    }

    /// Adds the `Bold` attribute.
    fn bold(self) -> (r: ColoredString)
        ensures
            r@ == (ColoredView {
                style: self.base().style.spec_union(Style::spec_only(Styles::Bold)),
                ..self.base()
            }),
    {
        self.add_style(Styles::Bold)
    }

    /// Removes the `Bold` attribute.
    fn remove_bold(self) -> (r: ColoredString)
        ensures
            r@ == (ColoredView {
                style: self.base().style.spec_difference(Style::spec_only(Styles::Bold)),
                ..self.base()
            }),
    {
        self.remove_style(Styles::Bold)
    }

    /// Adds the `Dimmed` attribute.
    fn dimmed(self) -> (r: ColoredString)
        ensures
            r@ == (ColoredView {
                style: self.base().style.spec_union(Style::spec_only(Styles::Dimmed)),
                ..self.base()
            }),
    {
        self.add_style(Styles::Dimmed)
    }

    /// Removes the `Dimmed` attribute.
    fn remove_dimmed(self) -> (r: ColoredString)
        ensures
            r@ == (ColoredView {
                style: self.base().style.spec_difference(Style::spec_only(Styles::Dimmed)),
                ..self.base()
            }),
    {
        self.remove_style(Styles::Dimmed)
    }

    /// Adds the `Italic` attribute.
    fn italic(self) -> (r: ColoredString)
        ensures
            r@ == (ColoredView {
                style: self.base().style.spec_union(Style::spec_only(Styles::Italic)),
                ..self.base()
            }),
    {
        self.add_style(Styles::Italic)
    }

    /// Removes the `Italic` attribute.
    fn remove_italic(self) -> (r: ColoredString)
        ensures
            r@ == (ColoredView {
                style: self.base().style.spec_difference(Style::spec_only(Styles::Italic)),
                ..self.base()
            }),
    {
        self.remove_style(Styles::Italic)
    }

    /// Adds the `Underline` attribute.
    fn underline(self) -> (r: ColoredString)
        ensures
            r@ == (ColoredView {
                style: self.base().style.spec_union(Style::spec_only(Styles::Underline)),
                ..self.base()
            }),
    {
        self.add_style(Styles::Underline)
    }

    /// Removes the `Underline` attribute.
    fn remove_underline(self) -> (r: ColoredString)
        ensures
            r@ == (ColoredView {
                style: self.base().style.spec_difference(Style::spec_only(Styles::Underline)),
                ..self.base()
            }),
    {
        self.remove_style(Styles::Underline)
    }

    /// Adds the `Blink` attribute.
    fn blink(self) -> (r: ColoredString)
        ensures
            r@ == (ColoredView {
                style: self.base().style.spec_union(Style::spec_only(Styles::Blink)),
                ..self.base()
            }),
    {
        self.add_style(Styles::Blink)
    }

    /// Removes the `Blink` attribute.
    fn remove_blink(self) -> (r: ColoredString)
        ensures
            r@ == (ColoredView {
                style: self.base().style.spec_difference(Style::spec_only(Styles::Blink)),
                ..self.base()
            }),
    {
        self.remove_style(Styles::Blink)
    }

    /// Adds the `Reversed` attribute.
    fn reversed(self) -> (r: ColoredString)
        ensures
            r@ == (ColoredView {
                style: self.base().style.spec_union(Style::spec_only(Styles::Reversed)),
                ..self.base()
            }),
    {
        self.add_style(Styles::Reversed)
    }

    /// Removes the `Reversed` attribute.
    fn remove_reversed(self) -> (r: ColoredString)
        ensures
            r@ == (ColoredView {
                style: self.base().style.spec_difference(Style::spec_only(Styles::Reversed)),
                ..self.base()
            }),
    {
        self.remove_style(Styles::Reversed)
    }

    /// Adds the `Hidden` attribute.
    fn hidden(self) -> (r: ColoredString)
        ensures
            r@ == (ColoredView {
                style: self.base().style.spec_union(Style::spec_only(Styles::Hidden)),
                ..self.base()
            }),
    {
        self.add_style(Styles::Hidden)
    }

    /// Removes the `Hidden` attribute.
    fn remove_hidden(self) -> (r: ColoredString)
        ensures
            r@ == (ColoredView {
                style: self.base().style.spec_difference(Style::spec_only(Styles::Hidden)),
                ..self.base()
            }),
    {
        self.remove_style(Styles::Hidden)
    }

    /// Adds the `Strikethrough` attribute.
    fn strikethrough(self) -> (r: ColoredString)
        ensures
            r@ == (ColoredView {
                style: self.base().style.spec_union(Style::spec_only(Styles::Strikethrough)),
                ..self.base()
            }),
    {
        self.add_style(Styles::Strikethrough)
    }

    /// Removes the `Strikethrough` attribute.
    fn remove_strikethrough(self) -> (r: ColoredString)
        ensures
            r@ == (ColoredView {
                style: self.base().style.spec_difference(Style::spec_only(Styles::Strikethrough)),
                ..self.base()
            }),
    {
        self.remove_style(Styles::Strikethrough)
    }

    /// Adds the `Reversed` attribute.
    fn reverse(self) -> (r: ColoredString)
        ensures
            r@ == (ColoredView {
                style: self.base().style.spec_union(Style::spec_only(Styles::Reversed)),
                ..self.base()
            }),
    {
        self.add_style(Styles::Reversed)
    }

    /// Removes the `Reversed` attribute.
    fn on_reverse(self) -> (r: ColoredString)
        ensures
            r@ == (ColoredView {
                style: self.base().style.spec_difference(Style::spec_only(Styles::Reversed)),
                ..self.base()
            }),
    {
        self.remove_style(Styles::Reversed)
    }

}

impl Colorize for ColoredString {
    open spec fn base(self) -> ColoredView {
        self@
    }

    fn color<S: IntoColor>(self, color: S) -> (r: ColoredString) {
        ColoredString { fgcolor: Some(color.into_color()), ..self }
    }

    fn on_color<S: IntoColor>(self, color: S) -> (r: ColoredString) {
        ColoredString { bgcolor: Some(color.into_color()), ..self }
    }

    fn add_style<S: IntoStyle>(self, style: S) -> (r: ColoredString) {
        let added = style.into_style();
        let joined = self.style.union(added);
        ColoredString { style: joined, ..self }
    }

    fn remove_style<S: IntoStyle>(self, style: S) -> (r: ColoredString) {
        let removed = style.into_style();
        let left = self.style.difference(removed);
        ColoredString { style: left, ..self }
    }

    fn clear(self) -> (r: ColoredString) {
        ColoredString { input: self.input, fgcolor: None, bgcolor: None, style: Style::empty() }
    }
}

impl<'a> Colorize for &'a str {
    open spec fn base(self) -> ColoredView {
        ColoredView { text: self@, fg: None, bg: None, style: Style::spec_empty() }
    }

    fn color<S: IntoColor>(self, color: S) -> (r: ColoredString) {
        ColoredString {
            input: self.to_owned(),
            fgcolor: Some(color.into_color()),
            bgcolor: None,
            style: Style::empty(),
        }
    }

    fn on_color<S: IntoColor>(self, color: S) -> (r: ColoredString) {
        ColoredString {
            input: self.to_owned(),
            fgcolor: None,
            bgcolor: Some(color.into_color()),
            style: Style::empty(),
        }
    }

    fn add_style<S: IntoStyle>(self, style: S) -> (r: ColoredString) {
        ColoredString::from(self).add_style(style)
    }

    fn remove_style<S: IntoStyle>(self, style: S) -> (r: ColoredString) {
        ColoredString::from(self).remove_style(style)
    }

    fn clear(self) -> (r: ColoredString) {
        ColoredString { input: self.to_owned(), fgcolor: None, bgcolor: None, style: Style::empty() }
    }
}

/// The escape prefix of any styled value is clean: it starts with the escape
/// character, holds no other escape character, does not open with the reset
/// parameter, and ends with `m`. In particular it holds no reset sequence.
pub proof fn lemma_prefix_clean(v: ColoredView)
    ensures
        is_clean_prefix(prefix_chars(v)),
        no_reset(prefix_chars(v)),
{
    lemma_style_codes_are_segs(v.style);
    assert(all_code_segs(bg_segment(v.bg))) by {
        match v.bg {
            Some(c) => {
                lemma_color_codes_are_segs(c);
                assert(bg_segment(v.bg)[0] == bg_code(c));
            },
            None => {},
        }
    }
    assert(all_code_segs(fg_segment(v.fg))) by {
        match v.fg {
            Some(c) => {
                lemma_color_codes_are_segs(c);
                assert(fg_segment(v.fg)[0] == fg_code(c));
            },
            None => {},
        }
    }
    lemma_all_code_segs_concat(v.style.spec_codes(), bg_segment(v.bg));
    lemma_all_code_segs_concat(v.style.spec_codes() + bg_segment(v.bg), fg_segment(v.fg));
    let segs = segments(v);
    assert(all_code_segs(segs));
    lemma_join_semi_code_segs(segs);
    let j = join_semi(segs);
    let p = prefix_chars(v);
    assert(p.len() == j.len() + 3);
    assert(p[0] == '\u{1B}');
    assert(p[1] == '[');
    assert(p[p.len() - 1] == 'm');
    if segs.len() == 0 {
        assert(p[2] == 'm');
    } else {
        assert(is_code_seg(segs[0]));
        assert(p[2] == j[0]);
        assert(p[2] != '0');
    }
    assert forall|i: int| 1 <= i < p.len() implies p[i] != '\u{1B}' by {
        if 2 <= i < p.len() - 1 {
            assert(p[i] == j[i - 2]);
            assert(digit_or_semi(j[i - 2]));
        }
    }
    assert(is_clean_prefix(p));
    lemma_clean_prefix_no_reset(p);
}

/// Clearing is idempotent and always yields a plain value.
pub proof fn lemma_clear_idempotent(v: ColoredView)
    ensures
        v.cleared().cleared() == v.cleared(),
        v.cleared().is_plain(),
{
}

/// The escape prefix is empty exactly when colorization is disabled or the
/// value is plain.
pub proof fn lemma_prefix_empty_iff(v: ColoredView, colorize: bool)
    ensures
        prefix_spec(v, colorize).len() == 0 <==> (!colorize || v.is_plain()),
{
}

/// Rendering a plain value returns the original text unchanged, whether or
/// not colorization is enabled.
pub proof fn lemma_render_plain(v: ColoredView, colorize: bool)
    requires
        v.is_plain(),
    ensures
        render_spec(v, colorize) == v.text,
{
}

/// A styled rendering with colorization on ends with the full reset, added
/// once after the escaped text.
pub proof fn lemma_render_ends_with_reset(v: ColoredView)
    requires
        !v.is_plain(),
    ensures
        render_spec(v, true).len() >= 4,
        render_spec(v, true).skip(render_spec(v, true).len() - 4) == reset_seq(),
{
    let r = render_spec(v, true);
    assert(r.skip(r.len() - 4) =~= reset_seq());
}

/// Nesting: when an outer styled value's text embeds an inner styled value's
/// rendering, rendering the outer value re-asserts the outer prefix
/// immediately after the inner reset, and the whole output ends with exactly
/// one final reset.
pub proof fn lemma_nested_render(
    outer: ColoredView,
    inner: ColoredView,
    before: Seq<char>,
    after: Seq<char>,
)
    requires
        !outer.is_plain(),
        !inner.is_plain(),
        no_reset(before),
        no_reset(inner.text),
        outer.text == before + render_spec(inner, true) + after,
    ensures
        render_spec(outer, true) == prefix_chars(outer) + before + prefix_chars(inner) + inner.text
            + reset_seq() + prefix_chars(outer) + escape_seq(after, prefix_chars(outer))
            + reset_seq(),
{
    let po = prefix_chars(outer);
    let pi = prefix_chars(inner);
    lemma_prefix_clean(outer);
    lemma_prefix_clean(inner);
    lemma_escape_no_reset(inner.text, pi);
    assert(render_spec(inner, true) == pi + inner.text + reset_seq());
    let a = before + pi + inner.text;
    lemma_no_reset_concat_m(pi, inner.text);
    assert((pi + inner.text).len() > 0);
    assert((pi + inner.text)[0] == '\u{1B}');
    lemma_no_reset_concat_esc(before, pi + inner.text);
    assert(before + (pi + inner.text) =~= a);
    assert(no_reset(a));
    assert(outer.text =~= a + reset_seq() + after);
    lemma_escape_restores(a, after, po);
    assert(render_spec(outer, true) =~= po + before + pi + inner.text + reset_seq() + po
        + escape_seq(after, po) + reset_seq());
}

} // verus!

