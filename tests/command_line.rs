use afk::args::{color_from_lowercase, parse_args, parse_color, parse_lowered_args, ArgsError, ColourError};
use afk::countdown::{Colour, TextStyle};

fn args(v: &[&str]) -> Vec<String> {
    v.iter().map(|s| s.to_string()).collect()
}

#[test]
fn no_arguments_asks_for_help() {
    assert_eq!(parse_args(&[]).unwrap_err(), ArgsError::Help);
    assert_eq!(parse_args(&args(&["--help"])).unwrap_err(), ArgsError::Help);
    assert_eq!(parse_args(&args(&["-s", "5", "--HELP"])).unwrap_err(), ArgsError::Help);
}

#[test]
fn seconds_only() {
    let c = parse_args(&args(&["-s", "5"])).unwrap();
    assert_eq!(c.initial_seconds, 5);
    assert!(!c.allow_negative);
    assert_eq!(c.caption, "");
    assert!(c.show_leading_zero_groups);
    assert_eq!(c.blink_rate_ms, 500);
    assert!(!c.use_font_for_caption);
    assert_eq!(c.style, TextStyle { fg: Colour::White, bold: false });
}

#[test]
fn all_times_and_caption() {
    let c = parse_args(&args(&["-h", "1", "-M", "2", "-s", "3", "Coffee", "other"])).unwrap();
    assert_eq!(c.initial_seconds, 3723);
    assert_eq!(c.caption, "Coffee");
}

#[test]
fn later_time_flag_wins() {
    let c = parse_args(&args(&["-s", "3", "-s", "+7"])).unwrap();
    assert_eq!(c.initial_seconds, 7);
}

#[test]
fn stopwatch_and_switches() {
    let c = parse_args(&args(&["-k", "-0", "-F"])).unwrap();
    assert!(c.allow_negative);
    assert_eq!(c.initial_seconds, 0);
    assert!(!c.show_leading_zero_groups);
    assert!(c.use_font_for_caption);
}

#[test]
fn empty_word_does_not_take_the_caption() {
    let c = parse_args(&args(&["", "x", "-k"])).unwrap();
    assert_eq!(c.caption, "x");
}

#[test]
fn missing_and_bad_numbers() {
    assert_eq!(parse_args(&args(&["-s"])).unwrap_err(), ArgsError::MissingNumber("-s".to_string()));
    assert_eq!(parse_args(&args(&["-S", "x"])).unwrap_err(), ArgsError::BadNumber("-S".to_string()));
    assert_eq!(parse_args(&args(&["-m", "1.5"])).unwrap_err(), ArgsError::BadNumber("-m".to_string()));
    assert_eq!(parse_args(&args(&["-h", "99999999999"])).unwrap_err(), ArgsError::BadNumber("-h".to_string()));
}

#[test]
fn colour_flag() {
    let c = parse_args(&args(&["-s", "1", "-c", "Red"])).unwrap();
    assert_eq!(c.style, TextStyle { fg: Colour::Red, bold: true });
    assert_eq!(parse_args(&args(&["-s", "1", "-c"])).unwrap_err(), ArgsError::MissingColour("-c".to_string()));
    assert_eq!(
        parse_args(&args(&["-s", "1", "-C", "pink"])).unwrap_err(),
        ArgsError::UnknownColour("-C".to_string(), ColourError::Unknown)
    );
    assert_eq!(
        parse_args(&args(&["-s", "1", "-c", "1,2"])).unwrap_err(),
        ArgsError::UnknownColour("-c".to_string(), ColourError::RgbCount)
    );
}

#[test]
fn no_time_given() {
    assert_eq!(parse_args(&args(&["hello"])).unwrap_err(), ArgsError::NoTime);
    assert_eq!(parse_args(&args(&["-s", "0", "-m", "0"])).unwrap_err(), ArgsError::NoTime);
}

#[test]
fn times_that_cancel_out_are_accepted() {
    let c = parse_args(&args(&["-m", "1", "-s", "-60"])).unwrap();
    assert_eq!(c.initial_seconds, 0);
}

#[test]
fn time_out_of_range() {
    assert_eq!(parse_args(&args(&["-h", "596524"])).unwrap_err(), ArgsError::TimeOutOfRange);
    let c = parse_args(&args(&["-h", "-596523", "-m", "-14", "-s", "-8"])).unwrap();
    assert_eq!(c.initial_seconds, i32::MIN);
}

#[test]
fn colour_names() {
    let named = [
        ("black", Colour::Black),
        ("RED", Colour::Red),
        ("Green", Colour::Green),
        ("yellow", Colour::Yellow),
        ("blue", Colour::Blue),
        ("purple", Colour::Purple),
        ("cyan", Colour::Cyan),
        ("White", Colour::White),
    ];
    for (name, colour) in named {
        assert_eq!(parse_color(name), Ok(colour));
    }
    assert_eq!(parse_color("pink"), Err(ColourError::Unknown));
    assert_eq!(parse_color(""), Err(ColourError::Unknown));
}

#[test]
fn rgb_colours() {
    assert_eq!(parse_color("42,42,42"), Ok(Colour::RGB(42, 42, 42)));
    assert_eq!(parse_color("1 2 3"), Ok(Colour::RGB(1, 2, 3)));
    assert_eq!(parse_color("10, 20,30"), Ok(Colour::RGB(10, 20, 30)));
    assert_eq!(parse_color("+1,2,255"), Ok(Colour::RGB(1, 2, 255)));
    assert_eq!(parse_color("x,1,y,2,3"), Ok(Colour::RGB(1, 2, 3)));
    assert_eq!(parse_color("256,1,2"), Err(ColourError::RgbCount));
    assert_eq!(parse_color("a,b,c"), Err(ColourError::RgbCount));
    assert_eq!(parse_color("1,2,3,4"), Err(ColourError::RgbCount));
}

#[test]
fn colour_from_lowercase_text() {
    assert_eq!(color_from_lowercase("purple"), Ok(Colour::Purple));
    assert_eq!(color_from_lowercase("PURPLE"), Err(ColourError::Unknown));
    assert_eq!(color_from_lowercase("9 8 7"), Ok(Colour::RGB(9, 8, 7)));
}

#[test]
fn flags_are_read_from_lowercase_text() {
    let given = args(&["-S", "12", "Tea"]);
    let lowered = args(&["-s", "12", "tea"]);
    let c = parse_lowered_args(&given, &lowered).unwrap();
    assert_eq!(c.initial_seconds, 12);
    assert_eq!(c.caption, "Tea");
    let c = parse_lowered_args(&args(&["-X", "1"]), &args(&["-m", "1"])).unwrap();
    assert_eq!(c.initial_seconds, 60);
    let err = parse_lowered_args(&args(&["-M"]), &args(&["-m"])).unwrap_err();
    assert_eq!(err, ArgsError::MissingNumber("-M".to_string()));
    let c = parse_lowered_args(&args(&["-c", "Blue", "-k"]), &args(&["-c", "blue", "-k"])).unwrap();
    assert_eq!(c.style, TextStyle { fg: Colour::Blue, bold: true });
}
