use colored::Color;
use colored::ColoredString;
use colored::Colorize;
use colored::Control;
use colored::InvalidColorName;
use colored::Style;
use colored::Styles;

fn force_on() -> Control {
    Control::from_parts(Some(true), false, false)
}

fn force_off() -> Control {
    Control::from_parts(Some(false), false, true)
}

#[test]
fn fg_and_bg_codes_nonempty_and_distinct() {
    let samples = [
        Color::Black,
        Color::Red,
        Color::Blue,
        Color::White,
        Color::BrightBlack,
        Color::BrightBlue,
        Color::BrightWhite,
        Color::TrueColor { r: 0, g: 0, b: 0 },
        Color::TrueColor {
            r: 255,
            g: 255,
            b: 255,
        },
    ];
    for c in samples {
        let fg = c.to_fg_str();
        let bg = c.to_bg_str();
        assert!(!fg.is_empty());
        assert!(!bg.is_empty());
        assert_ne!(fg, bg);
    }
}

#[test]
fn truecolor_codes_exact() {
    let c = Color::TrueColor {
        r: 0,
        g: 255,
        b: 136,
    };
    assert_eq!("38;2;0;255;136", c.to_fg_str());
    assert_eq!("48;2;0;255;136", c.to_bg_str());
    let c = Color::TrueColor { r: 7, g: 42, b: 0 };
    assert_eq!("38;2;7;42;0", c.to_fg_str());
}

#[test]
fn union_is_idempotent_and_difference_undoes_it() {
    let s1 = Style::only(Styles::Bold).union(Style::only(Styles::Italic));
    let s2 = Style::only(Styles::Italic).union(Style::only(Styles::Hidden));
    let u = s1.union(s2);
    assert_eq!(u.union(s2), u);
    let d = u.difference(s2);
    assert!(d.contains(Styles::Bold));
    assert!(!d.contains(Styles::Italic));
    assert!(!d.contains(Styles::Hidden));
    assert_eq!(d, s1.difference(s2));
}

#[test]
fn removing_an_absent_attribute_is_a_noop() {
    let s = Style::only(Styles::Bold);
    assert_eq!(s.difference(Style::only(Styles::Blink)), s);
}

#[test]
fn sgr_codes_come_in_ascending_order() {
    let s = Style::only(Styles::Strikethrough)
        .union(Style::only(Styles::Bold))
        .union(Style::only(Styles::Italic));
    let codes = s.sgr_codes();
    assert_eq!(codes, vec!["1".to_string(), "3".to_string(), "9".to_string()]);
}

#[test]
fn clear_is_idempotent_and_plain() {
    let once = "text".red().on_blue().bold().clear();
    assert!(once.is_plain());
    let twice = once.clone().clear();
    assert_eq!(once, twice);
}

#[test]
fn prefix_empty_iff_disabled_or_plain() {
    let on = force_on();
    let off = force_off();
    assert_eq!("", "x".red().compute_style(&off));
    assert_eq!("", "x".clear().compute_style(&on));
    assert!(!"x".red().compute_style(&on).is_empty());
}

#[test]
fn plain_render_round_trips() {
    let on = force_on();
    let plain = ColoredString::from("just words, no styling");
    assert_eq!("just words, no styling", plain.render(&on));
    assert!(!plain.render(&on).contains('\x1B'));
}

#[test]
fn disabled_render_returns_raw_text() {
    let off = force_off();
    assert_eq!("toto", "toto".red().bold().render(&off));
}

#[test]
fn nested_render_restores_outer_style() {
    let on = force_on();
    let inner = "inner".red().render(&on);
    let outer = format!("a {} b", inner).blue();
    let rendered = outer.render(&on);
    let blue = "\x1B[34m";
    let red = "\x1B[31m";
    let reset = "\x1B[0m";
    let expected = format!("{}a {}inner{}{} b{}", blue, red, reset, blue, reset);
    assert_eq!(expected, rendered);
    // the outer prefix follows the inner reset, and exactly one reset ends it
    assert!(rendered.ends_with(reset));
    assert!(!rendered[..rendered.len() - reset.len()].ends_with(reset));
}

#[test]
fn literal_scenarios() {
    let on = force_on();
    assert_eq!("\x1B[34m", "x".blue().compute_style(&on));
    assert_eq!("\x1B[34mx\x1B[0m", "x".blue().render(&on));
    assert_eq!("\x1B[44;34m", "x".blue().on_blue().compute_style(&on));
    assert_eq!("\x1B[1;34m", "x".bold().blue().compute_style(&on));
    assert_eq!(
        "\x1B[1;44;34m",
        "x".bold().blue().on_blue().compute_style(&on)
    );
    assert_eq!("\x1B[94m", "x".bright_blue().compute_style(&on));
    assert_eq!("\x1B[104m", "x".on_bright_blue().compute_style(&on));
    let empty = ColoredString::from("");
    assert_eq!("", empty.render(&on));
    assert_eq!("", empty.compute_style(&on));
}

#[test]
fn name_lookup_matches_direct_construction() {
    assert_eq!(Ok(Color::BrightBlue), Color::from_name("bright blue"));
    assert_eq!(Ok(Color::Blue), Color::from_name("blue"));
    assert_eq!(Ok(Color::Blue), Color::from_name("BLUE"));
    assert_eq!(Ok(Color::BrightBlue), Color::from_name("Bright Blue"));
    assert_eq!(Ok(Color::Magenta), Color::from_name("purple"));
    assert_eq!(Ok(Color::Magenta), Color::from_name("magenta"));
}

#[test]
fn unknown_name_is_invalid() {
    assert_eq!(Err(InvalidColorName), Color::from_name("chartreuse"));
    assert_eq!(Err(InvalidColorName), Color::from_name(""));
    assert_eq!(Err(InvalidColorName), Color::from_name("bright chartreuse"));
    assert_eq!(Color::White, Color::from_name_or_white("chartreuse"));
}

#[test]
fn later_color_overwrites_earlier_one() {
    let c = "text".yellow().blue().red();
    assert_eq!(Some(Color::Red), c.fgcolor());
}

#[test]
fn policy_override_wins() {
    // override beats both the environment variable and the probe
    assert!(Control::from_parts(Some(true), true, false).should_colorize());
    assert!(!Control::from_parts(Some(false), false, true).should_colorize());
}

#[test]
fn policy_env_var_forces_off() {
    assert!(!Control::from_parts(None, true, true).should_colorize());
    assert!(Control::from_parts(None, false, true).should_colorize());
    assert!(!Control::from_parts(None, false, false).should_colorize());
}

#[test]
fn policy_set_and_unset_override() {
    let mut c = Control::from_parts(None, false, true);
    assert!(c.should_colorize());
    c.set_override(false);
    assert!(!c.should_colorize());
    c.set_override(true);
    assert!(c.should_colorize());
    c.unset_override();
    assert!(c.should_colorize());
}

#[test]
fn style_and_remove_style_builders() {
    let s = "text".bold().italic().underline().remove_italic();
    assert!(s.style().contains(Styles::Bold));
    assert!(s.style().contains(Styles::Underline));
    assert!(!s.style().contains(Styles::Italic));
    let back_to_normal = s.normal();
    assert!(back_to_normal.is_plain());
}

#[test]
fn truecolor_render_exact() {
    let on = force_on();
    assert_eq!(
        "\x1B[38;2;0;255;136mx\x1B[0m",
        "x".truecolor(0, 255, 136).render(&on)
    );
    assert_eq!(
        "\x1B[48;2;135;28;167mx\x1B[0m",
        "x".on_truecolor(135, 28, 167).render(&on)
    );
}
