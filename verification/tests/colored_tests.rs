use colored::Color;
use colored::ColoredString;
use colored::Colorize;
use colored::Control;
use colored::Styles;

fn force_on() -> Control {
    Control::from_parts(Some(true), false, false)
}

#[test]
fn formatting() {
    let ctl = force_on();
    // respect the formatting. Escape sequence add some padding so >= 40
    assert!(format!("{:40}", "".blue().render(&ctl)).len() >= 40);
    // both should be truncated to 1 char before coloring
    assert_eq!(
        format!("{:1.1}", "toto".blue().render(&ctl)).len(),
        format!("{:1.1}", "1".blue().render(&ctl)).len()
    )
}

#[test]
fn it_works() {
    let ctl = force_on();
    let toto = "toto";
    println!("{}", toto.red().render(&ctl));
    println!("{}", String::from(toto).red().render(&ctl));
    println!("{}", toto.blue().render(&ctl));

    println!("blue style ****");
    println!("{}", toto.bold().render(&ctl));
    println!("{}", "yeah ! Red bold !".red().bold().render(&ctl));
    println!("{}", "yeah ! Yellow bold !".bold().yellow().render(&ctl));
    println!("{}", toto.bold().blue().render(&ctl));
    println!("{}", toto.blue().bold().render(&ctl));
    println!("{}", toto.blue().bold().underline().render(&ctl));
    println!("{}", toto.blue().italic().render(&ctl));
    println!("******");
    println!("test clearing");
    println!("{}", "red cleared".red().clear().render(&ctl));
    println!("{}", "bold cyan cleared".bold().cyan().clear().render(&ctl));
    println!("******");
    println!("Bg tests");
    println!("{}", toto.green().on_blue().render(&ctl));
    println!("{}", toto.on_magenta().yellow().render(&ctl));
    println!("{}", toto.purple().on_yellow().render(&ctl));
    println!("{}", toto.magenta().on_white().render(&ctl));
    println!("{}", toto.cyan().on_green().render(&ctl));
    println!("{}", toto.black().on_white().render(&ctl));
    println!("******");
    println!("{}", toto.green().render(&ctl));
    println!("{}", toto.yellow().render(&ctl));
    println!("{}", toto.purple().render(&ctl));
    println!("{}", toto.magenta().render(&ctl));
    println!("{}", toto.cyan().render(&ctl));
    println!("{}", toto.white().render(&ctl));
    println!("{}", toto.white().red().blue().green().render(&ctl));
    println!("{}", toto.truecolor(255, 0, 0).render(&ctl));
    println!("{}", toto.truecolor(255, 255, 0).render(&ctl));
    println!("{}", toto.on_truecolor(0, 80, 80).render(&ctl));
}

#[test]
fn compute_style_empty_string() {
    let ctl = force_on();
    assert_eq!("", "".clear().compute_style(&ctl));
}

#[test]
fn compute_style_simple_fg_blue() {
    let ctl = force_on();
    let blue = "\x1B[34m";

    assert_eq!(blue, "".blue().compute_style(&ctl));
}

#[test]
fn compute_style_simple_bg_blue() {
    let ctl = force_on();
    let on_blue = "\x1B[44m";

    assert_eq!(on_blue, "".on_blue().compute_style(&ctl));
}

#[test]
fn compute_style_blue_on_blue() {
    let ctl = force_on();
    let blue_on_blue = "\x1B[44;34m";

    assert_eq!(blue_on_blue, "".blue().on_blue().compute_style(&ctl));
}

#[test]
fn compute_style_simple_fg_bright_blue() {
    let ctl = force_on();
    let blue = "\x1B[94m";

    assert_eq!(blue, "".bright_blue().compute_style(&ctl));
}

#[test]
fn compute_style_simple_bg_bright_blue() {
    let ctl = force_on();
    let on_blue = "\x1B[104m";

    assert_eq!(on_blue, "".on_bright_blue().compute_style(&ctl));
}

#[test]
fn compute_style_bright_blue_on_bright_blue() {
    let ctl = force_on();
    let blue_on_blue = "\x1B[104;94m";

    assert_eq!(
        blue_on_blue,
        "".bright_blue().on_bright_blue().compute_style(&ctl)
    );
}

#[test]
fn compute_style_simple_bold() {
    let ctl = force_on();
    let bold = "\x1B[1m";

    assert_eq!(bold, "".bold().compute_style(&ctl));
}

#[test]
fn compute_style_blue_bold() {
    let ctl = force_on();
    let blue_bold = "\x1B[1;34m";

    assert_eq!(blue_bold, "".blue().bold().compute_style(&ctl));
}

#[test]
fn compute_style_blue_bold_on_blue() {
    let ctl = force_on();
    let blue_bold_on_blue = "\x1B[1;44;34m";

    assert_eq!(
        blue_bold_on_blue,
        "".blue().bold().on_blue().compute_style(&ctl)
    );
}

#[test]
fn escape_reset_sequence_spec_should_do_nothing_on_empty_strings() {
    let ctl = force_on();
    let style = ColoredString::default();
    let expected = String::new();

    let output = style.escape_inner_reset_sequences(&ctl);

    assert_eq!(expected, output);
}

#[test]
fn escape_reset_sequence_spec_should_do_nothing_on_string_with_no_reset() {
    let ctl = force_on();
    let style = ColoredString::from("hello world !");

    let expected = String::from("hello world !");
    let output = style.escape_inner_reset_sequences(&ctl);

    assert_eq!(expected, output);
}

#[test]
fn escape_reset_sequence_spec_should_replace_inner_reset_sequence_with_current_style() {
    let ctl = force_on();
    let input = format!(
        "start {} end",
        String::from("hello world !").red().render(&ctl)
    );
    let style = input.blue();

    let output = style.escape_inner_reset_sequences(&ctl);
    let blue = "\x1B[34m";
    let red = "\x1B[31m";
    let reset = "\x1B[0m";
    let expected = format!("start {}hello world !{}{} end", red, reset, blue);
    assert_eq!(expected, output);
}

#[test]
fn escape_reset_sequence_spec_should_replace_multiple_inner_reset_sequences_with_current_style() {
    let ctl = force_on();
    let italic_str = String::from("yo").italic().render(&ctl);
    let input = format!(
        "start 1:{} 2:{} 3:{} end",
        italic_str, italic_str, italic_str
    );
    let style = input.blue();

    let output = style.escape_inner_reset_sequences(&ctl);
    let blue = "\x1B[34m";
    let italic = "\x1B[3m";
    let reset = "\x1B[0m";
    let expected = format!(
        "start 1:{}yo{}{} 2:{}yo{}{} 3:{}yo{}{} end",
        italic, reset, blue, italic, reset, blue, italic, reset, blue
    );

    println!("first: {}\nsecond: {}", expected, output);

    assert_eq!(expected, output);
}

#[test]
fn color_fn() {
    assert_eq!("blue".blue(), "blue".color("blue"))
}

#[test]
fn on_color_fn() {
    assert_eq!("blue".on_blue(), "blue".on_color("blue"))
}

#[test]
fn bright_color_fn() {
    assert_eq!("blue".bright_blue(), "blue".color("bright blue"))
}

#[test]
fn on_bright_color_fn() {
    assert_eq!("blue".on_bright_blue(), "blue".on_color("bright blue"))
}

#[test]
fn exposing_tests() {
    let cstring = "".red();
    assert_eq!(cstring.fgcolor(), Some(Color::Red));
    assert_eq!(cstring.bgcolor(), None);

    let cstring = cstring.clear();
    assert_eq!(cstring.fgcolor(), None);
    assert_eq!(cstring.bgcolor(), None);

    let cstring = cstring.blue().on_bright_yellow();
    assert_eq!(cstring.fgcolor(), Some(Color::Blue));
    assert_eq!(cstring.bgcolor(), Some(Color::BrightYellow));

    let cstring = cstring.bold().italic();
    assert_eq!(cstring.fgcolor(), Some(Color::Blue));
    assert_eq!(cstring.bgcolor(), Some(Color::BrightYellow));
    assert_eq!(cstring.style().contains(Styles::Bold), true);
    assert_eq!(cstring.style().contains(Styles::Italic), true);
    assert_eq!(cstring.style().contains(Styles::Dimmed), false);
}
