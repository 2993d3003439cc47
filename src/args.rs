//! The command line: flags, numbers and colours read into a run's settings.
use vstd::prelude::*;
use vstd::string::*;
use crate::countdown::{Colour, TextStyle, TimerConfig};
use crate::frame::views;
use crate::numbers::{i32_value, parse_i32, parse_u8, u8_value};

verus! {

/// What `str::to_lowercase` gives for a text.
pub uninterp spec fn lower_of(s: Seq<char>) -> Seq<char>;

/// Relies on `str::to_lowercase`: the result depends on the characters alone.
#[verifier::external_body]
fn lowercase(s: &str) -> (r: String)
    ensures
        r@ == lower_of(s@),
{
    s.to_lowercase()
}

/// Whether `s` and `t` hold the same characters.
fn same_text(s: &str, t: &str) -> (r: bool)
    ensures
        r == (s@ == t@),
{
    let n = s.unicode_len();
    if n != t.unicode_len() {
        return false;
    }
    let mut i: usize = 0;
    while i < n
        invariant
            n == s@.len() == t@.len(),
            i <= n,
            forall|j: int| 0 <= j < i ==> s@[j] == t@[j],
        decreases n - i,
    {
        if s.get_char(i) != t.get_char(i) {
            return false;
        }
        i = i + 1;
    }
    assert(s@ =~= t@);
    true
}

/// Why a colour could not be read.
#[derive(Clone, Copy, Debug, PartialEq, Eq, Structural)]
pub enum ColourError {
    /// Neither a colour name nor numbers.
    Unknown,
    /// Numbers, but not three of them.
    RgbCount,
}

/// Whether `c` separates the numbers of an RGB colour.
pub open spec fn rgb_separator(c: char) -> bool {
    c == ',' || c == ' '
}

/// The `u8` values among `s`'s pieces between separators, where `cur` is the
/// part of the current piece already read; pieces that are not such a value are
/// passed over.
pub open spec fn rgb_numbers_from(rest: Seq<char>, cur: Seq<char>) -> Seq<u8>
    decreases rest.len(),
{
    let kept = match u8_value(cur) {
        Some(v) => seq![v],
        None => Seq::empty(),
    };
    if rest.len() == 0 {
        kept
    } else if rgb_separator(rest[0]) {
        kept + rgb_numbers_from(rest.drop_first(), Seq::empty())
    } else {
        rgb_numbers_from(rest.drop_first(), cur.push(rest[0]))
    }
}

/// The colour that the lowercase text `l` stands for: one of eight names, or
/// three numbers from 0 to 255 separated by commas or spaces.
pub open spec fn colour_of_lowercase(l: Seq<char>) -> Result<Colour, ColourError> {
    if l == "black"@ {
        Ok(Colour::Black)
    } else if l == "red"@ {
        Ok(Colour::Red)
    } else if l == "green"@ {
        Ok(Colour::Green)
    } else if l == "yellow"@ {
        Ok(Colour::Yellow)
    } else if l == "blue"@ {
        Ok(Colour::Blue)
    } else if l == "purple"@ {
        Ok(Colour::Purple)
    } else if l == "cyan"@ {
        Ok(Colour::Cyan)
    } else if l == "white"@ {
        Ok(Colour::White)
    } else if !(exists|i: int| 0 <= i < l.len() && rgb_separator(#[trigger] l[i])) {
        Err(ColourError::Unknown)
    } else {
        let nums = rgb_numbers_from(l, Seq::empty());
        if nums.len() != 3 {
            Err(ColourError::RgbCount)
        } else {
            Ok(Colour::RGB(nums[0], nums[1], nums[2]))
        }
    }
}

/// The colour that `name` stands for, in any case.
pub open spec fn colour_of(name: Seq<char>) -> Result<Colour, ColourError> {
    colour_of_lowercase(lower_of(name))
}

/// The `u8` values among the pieces of `s` between separators.
fn rgb_numbers(s: &str) -> (r: Vec<u8>)
    ensures
        r@ == rgb_numbers_from(s@, Seq::empty()),
{
    let n = s.unicode_len();
    let mut out: Vec<u8> = Vec::new();
    let mut start: usize = 0;
    let mut i: usize = 0;
    assert(s@.skip(0) =~= s@);
    assert(s@.subrange(0, 0) =~= Seq::<char>::empty());
    while i < n
        invariant
            n == s@.len(),
            start <= i <= n,
            rgb_numbers_from(s@, Seq::empty()) == out@ + rgb_numbers_from(
                s@.skip(i as int),
                s@.subrange(start as int, i as int),
            ),
        decreases n - i,
    {
        let ghost rest = s@.skip(i as int);
        let ghost cur = s@.subrange(start as int, i as int);
        assert(rest[0] == s@[i as int]);
        assert(rest.drop_first() =~= s@.skip(i + 1));
        let c = s.get_char(i);
        if c == ',' || c == ' ' {
            let ghost before = out@;
            match parse_u8(s.substring_char(start, i)) {
                Some(v) => {
                    out.push(v);
                    assert(out@ =~= before + seq![v]);
                },
                None => {
                    assert(out@ =~= before + Seq::<u8>::empty());
                },
            }
            start = i + 1;
            assert(s@.subrange(start as int, start as int) =~= Seq::<char>::empty());
        } else {
            assert(cur.push(rest[0]) =~= s@.subrange(start as int, i + 1));
        }
        i = i + 1;
    }
    assert(s@.skip(n as int) =~= Seq::<char>::empty());
    let ghost before = out@;
    match parse_u8(s.substring_char(start, n)) {
        Some(v) => {
            out.push(v);
            assert(out@ =~= before + seq![v]);
        },
        None => {
            assert(out@ =~= before + Seq::<u8>::empty());
        },
    }
    out
}

/// Whether `s` holds a comma or a space.
fn has_rgb_separator(s: &str) -> (r: bool)
    ensures
        r == exists|i: int| 0 <= i < s@.len() && rgb_separator(#[trigger] s@[i]),
{
    let n = s.unicode_len();
    let mut i: usize = 0;
    while i < n
        invariant
            n == s@.len(),
            i <= n,
            forall|j: int| 0 <= j < i ==> !rgb_separator(#[trigger] s@[j]),
        decreases n - i,
    {
        let c = s.get_char(i);
        if c == ',' || c == ' ' {
            return true;
        }
        i = i + 1;
    }
    false
}

/// Reads a colour: a name such as `red` or `Cyan`, or RGB numbers such as
/// `42,42,42` or `42 42 42`.
pub fn parse_color(color: &str) -> (r: Result<Colour, ColourError>)
    ensures
        r == colour_of(color@),
{
    let lower = lowercase(color);
    color_from_lowercase(lower.as_str())
}

/// Reads a colour from text already in lowercase.
pub fn color_from_lowercase(l: &str) -> (r: Result<Colour, ColourError>)
    ensures
        r == colour_of_lowercase(l@),
{
    if same_text(l, "black") {
        Ok(Colour::Black)
    } else if same_text(l, "red") {
        Ok(Colour::Red)
    } else if same_text(l, "green") {
        Ok(Colour::Green)
    } else if same_text(l, "yellow") {
        Ok(Colour::Yellow)
    } else if same_text(l, "blue") {
        Ok(Colour::Blue)
    } else if same_text(l, "purple") {
        Ok(Colour::Purple)
    } else if same_text(l, "cyan") {
        Ok(Colour::Cyan)
    } else if same_text(l, "white") {
        Ok(Colour::White)
    } else if !has_rgb_separator(l) {
        Err(ColourError::Unknown)
    } else {
        let nums = rgb_numbers(l);
        if nums.len() != 3 {
            Err(ColourError::RgbCount)
        } else {
            Ok(Colour::RGB(nums[0], nums[1], nums[2]))
        }
    }
}

/// The settings read so far from the command line.
pub struct Options {
    pub allow_negative: bool,
    pub hours: i32,
    pub minutes: i32,
    pub seconds: i32,
    pub style: TextStyle,
    pub words: Seq<char>,
    pub show_zeroes: bool,
    pub use_font: bool,
}

/// The settings before any argument is read.
pub open spec fn default_options() -> Options {
    Options {
        allow_negative: false,
        hours: 0,
        minutes: 0,
        seconds: 0,
        style: TextStyle { fg: Colour::White, bold: false },
        words: Seq::empty(),
        show_zeroes: true,
        use_font: false,
    }
}

/// Why the command line gives no run. Each flag is kept as it was written.
#[derive(Clone, Debug, PartialEq, Eq)]
pub enum ArgsError {
    /// No arguments, or `--help`: the help text is wanted.
    Help,
    /// A time flag comes last, with no number after it.
    MissingNumber(String),
    /// A time flag is followed by something that is not an `i32`.
    BadNumber(String),
    /// A colour flag comes last, with no colour after it.
    MissingColour(String),
    /// A colour flag is followed by something that is not a colour.
    UnknownColour(String, ColourError),
    /// All three times are zero, and counting below zero is not allowed.
    NoTime,
    /// The times add up to more seconds than an `i32` holds.
    TimeOutOfRange,
}

/// An `ArgsError` over mathematical values.
pub enum ArgsFault {
    Help,
    MissingNumber(Seq<char>),
    BadNumber(Seq<char>),
    MissingColour(Seq<char>),
    UnknownColour(Seq<char>, ColourError),
    NoTime,
    TimeOutOfRange,
}

impl View for ArgsError {
    type V = ArgsFault;

    open spec fn view(&self) -> ArgsFault {
        match self {
            ArgsError::Help => ArgsFault::Help,
            ArgsError::MissingNumber(a) => ArgsFault::MissingNumber(a@),
            ArgsError::BadNumber(a) => ArgsFault::BadNumber(a@),
            ArgsError::MissingColour(a) => ArgsFault::MissingColour(a@),
            ArgsError::UnknownColour(a, e) => ArgsFault::UnknownColour(a@, *e),
            ArgsError::NoTime => ArgsFault::NoTime,
            ArgsError::TimeOutOfRange => ArgsFault::TimeOutOfRange,
        }
    }
}

/// Reads `args` from position `i` on, with `o` the settings read before it and
/// `lowered` the arguments in lowercase.
/// `--help` asks for help; `-k` allows counting below zero; `-h`, `-m` and `-s`
/// take a number of hours, minutes or seconds; `-c` takes a colour, which makes
/// the text bold too; `-0` hides zero groups; `-f` draws the caption in block
/// letters. Flags are read in any case. Any other argument is the caption if
/// none was given yet, and is passed over otherwise.
pub open spec fn scan_args(args: Seq<Seq<char>>, lowered: Seq<Seq<char>>, i: int, o: Options) -> Result<
    Options,
    ArgsFault,
>
    decreases args.len() - i,
{
    if i < 0 || i >= args.len() {
        Ok(o)
    } else {
        let a = args[i];
        let l = lowered[i];
        if l == "--help"@ {
            Err(ArgsFault::Help)
        } else if l == "-k"@ {
            scan_args(args, lowered, i + 1, Options { allow_negative: true, ..o })
        } else if l == "-h"@ || l == "-m"@ || l == "-s"@ {
            if i + 1 >= args.len() {
                Err(ArgsFault::MissingNumber(a))
            } else {
                match i32_value(args[i + 1]) {
                    None => Err(ArgsFault::BadNumber(a)),
                    Some(t) => scan_args(
                        args,
                        lowered,
                        i + 2,
                        if l == "-h"@ {
                            Options { hours: t, ..o }
                        } else if l == "-m"@ {
                            Options { minutes: t, ..o }
                        } else {
                            Options { seconds: t, ..o }
                        },
                    ),
                }
            }
        } else if l == "-c"@ {
            if i + 1 >= args.len() {
                Err(ArgsFault::MissingColour(a))
            } else {
                match colour_of_lowercase(lowered[i + 1]) {
                    Err(e) => Err(ArgsFault::UnknownColour(a, e)),
                    Ok(c) => scan_args(args, lowered, i + 2, Options { style: TextStyle { fg: c, bold: true }, ..o }),
                }
            }
        } else if l == "-0"@ {
            scan_args(args, lowered, i + 1, Options { show_zeroes: false, ..o })
        } else if l == "-f"@ {
            scan_args(args, lowered, i + 1, Options { use_font: true, ..o })
        } else if o.words.len() == 0 {
            scan_args(args, lowered, i + 1, Options { words: a, ..o })
        } else {
            scan_args(args, lowered, i + 1, o)
        }
    }
}

/// The seconds that the times of `o` add up to.
pub open spec fn total_seconds(o: Options) -> int {
    o.hours * 3600 + o.minutes * 60 + o.seconds
}

/// The settings that a command line gives, or why it gives none, with
/// `lowered` its arguments in lowercase.
pub open spec fn args_outcome(args: Seq<Seq<char>>, lowered: Seq<Seq<char>>) -> Result<Options, ArgsFault> {
    if args.len() == 0 {
        Err(ArgsFault::Help)
    } else {
        match scan_args(args, lowered, 0, default_options()) {
            Err(f) => Err(f),
            Ok(o) => if o.hours == 0 && o.minutes == 0 && o.seconds == 0 && !o.allow_negative {
                Err(ArgsFault::NoTime)
            } else if !(i32::MIN <= total_seconds(o) <= i32::MAX) {
                Err(ArgsFault::TimeOutOfRange)
            } else {
                Ok(o)
            },
        }
    }
}

/// Whether `c` is the run that the settings `o` describe.
pub open spec fn config_of(c: TimerConfig, o: Options) -> bool {
    &&& c.allow_negative == o.allow_negative
    &&& c.initial_seconds == total_seconds(o)
    &&& c.caption@ == o.words
    &&& c.show_leading_zero_groups == o.show_zeroes
    &&& c.blink_rate_ms == 500
    &&& c.use_font_for_caption == o.use_font
    &&& c.style == o.style
}

/// Reads the command line, program name left out, into the settings of a run.
pub fn parse_args(args: &[String]) -> (r: Result<TimerConfig, ArgsError>)
    ensures
        match args_outcome(views(args@), views(args@).map_values(|a: Seq<char>| lower_of(a))) {
            Ok(o) => r matches Ok(c) && config_of(c, o),
            Err(f) => r matches Err(e) && e@ == f,
        },
{
    let mut lowered: Vec<String> = Vec::new();
    let mut i: usize = 0;
    while i < args.len()
        invariant
            i <= args.len(),
            lowered@.len() == i,
            forall|j: int| 0 <= j < i ==> #[trigger] lowered@[j]@ == lower_of(args@[j]@),
        decreases args.len() - i,
    {
        lowered.push(lowercase(args[i].as_str()));
        i = i + 1;
    }
    assert(views(lowered@) =~= views(args@).map_values(|a: Seq<char>| lower_of(a)));
    parse_lowered_args(args, lowered.as_slice())
}

/// Reads the command line, program name left out, with `lowered` its arguments
/// in lowercase, into the settings of a run.
pub fn parse_lowered_args(args: &[String], lowered: &[String]) -> (r: Result<TimerConfig, ArgsError>)
    requires
        lowered.len() == args.len(),
    ensures
        match args_outcome(views(args@), views(lowered@)) {
            Ok(o) => r matches Ok(c) && config_of(c, o),
            Err(f) => r matches Err(e) && e@ == f,
        },
{
    let ghost a = views(args@);
    let ghost lw = views(lowered@);
    if args.len() == 0 {
        return Err(ArgsError::Help);
    }
    let mut allow_negative = false;
    let mut hours: i32 = 0;
    let mut minutes: i32 = 0;
    let mut seconds: i32 = 0;
    let mut style = TextStyle { fg: Colour::White, bold: false };
    let mut words = String::new();
    let mut show_zeroes = true;
    let mut use_font = false;
    let mut i: usize = 0;
    assert(default_options() == Options {
        allow_negative, hours, minutes, seconds, style, words: words@, show_zeroes, use_font,
    });
    while i < args.len()
        invariant
            a == views(args@),
            lw == views(lowered@),
            lowered.len() == args.len(),
            i <= args.len(),
            scan_args(a, lw, 0, default_options()) == scan_args(
                a,
                lw,
                i as int,
                Options { allow_negative, hours, minutes, seconds, style, words: words@, show_zeroes, use_font },
            ),
        decreases args.len() - i,
    {
        assert(a[i as int] == args@[i as int]@);
        assert(lw[i as int] == lowered@[i as int]@);
        let l = lowered[i].as_str();
        if same_text(l, "--help") {
            return Err(ArgsError::Help);
        } else if same_text(l, "-k") {
            allow_negative = true;
            i = i + 1;
        } else if same_text(l, "-h") || same_text(l, "-m") || same_text(l, "-s") {
            if i + 1 >= args.len() {
                return Err(ArgsError::MissingNumber(args[i].clone()));
            }
            assert(a[i + 1] == args@[i + 1]@);
            match parse_i32(args[i + 1].as_str()) {
                None => {
                    return Err(ArgsError::BadNumber(args[i].clone()));
                },
                Some(t) => {
                    if same_text(l, "-h") {
                        hours = t;
                    } else if same_text(l, "-m") {
                        minutes = t;
                    } else {
                        seconds = t;
                    }
                },
            }
            i = i + 2;
        } else if same_text(l, "-c") {
            if i + 1 >= args.len() {
                return Err(ArgsError::MissingColour(args[i].clone()));
            }
            assert(lw[i + 1] == lowered@[i + 1]@);
            match color_from_lowercase(lowered[i + 1].as_str()) {
                Err(e) => {
                    return Err(ArgsError::UnknownColour(args[i].clone(), e));
                },
                Ok(c) => {
                    style = TextStyle { fg: c, bold: true };
                },
            }
            i = i + 2;
        } else if same_text(l, "-0") {
            show_zeroes = false;
            i = i + 1;
        } else if same_text(l, "-f") {
            use_font = true;
            i = i + 1;
        } else {
            if words.as_str().unicode_len() == 0 {
                words = args[i].clone();
            }
            i = i + 1;
        }
    }
    if hours == 0 && minutes == 0 && seconds == 0 && !allow_negative {
        return Err(ArgsError::NoTime);
    }
    let total: i64 = hours as i64 * 3600 + minutes as i64 * 60 + seconds as i64;
    if total < i32::MIN as i64 || total > i32::MAX as i64 {
        return Err(ArgsError::TimeOutOfRange);
    }
    Ok(
        TimerConfig {
            allow_negative,
            initial_seconds: total as i32,
            caption: words,
            show_leading_zero_groups: show_zeroes,
            blink_rate_ms: 500,
            use_font_for_caption: use_font,
            style,
        },
    )
}

} // verus!
