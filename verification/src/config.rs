//! The settings of a session: the size of the window and the target frame
//! rate, with the overrides that a command line can give.

use vstd::prelude::*;

verus! {

/// The settings of a session.
#[derive(Debug, Clone, Copy, PartialEq, Eq, Structural)]
pub struct Config {
    /// The width of the window, in pixels.
    pub window_width: u32,
    /// The height of the window, in pixels.
    pub window_height: u32,
    /// The target rate, in whole frames per second.
    pub frame_rate: u64,
}

impl Default for Config {
    /// A window of 640 by 480 pixels at 60 frames per second.
    fn default() -> (config: Config)
        ensures
            config == (Config { window_width: 640, window_height: 480, frame_rate: 60 }),
    {
        Config { window_width: 640, window_height: 480, frame_rate: 60 }
    }
}

/// The settings with the given overrides: a width or a height that is given
/// takes the place of the one in `config`, and the frame rate stays.
pub open spec fn overridden(config: Config, width: Option<u32>, height: Option<u32>) -> Config {
    Config {
        window_width: match width {
            Some(new_width) => new_width,
            None => config.window_width,
        },
        window_height: match height {
            Some(new_height) => new_height,
            None => config.window_height,
        },
        frame_rate: config.frame_rate,
    }
}

/// The byte of the plus sign.
const PLUS_SIGN: u8 = 43;

/// The byte of the digit zero.
const DIGIT_ZERO: u8 = 48;

/// The byte of the digit nine.
const DIGIT_NINE: u8 = 57;

/// Whether a character is one of the ten decimal digits.
pub open spec fn is_digit(c: char) -> bool {
    '0' <= c <= '9'
}

/// The number that a sequence of decimal digits stands for.
pub open spec fn decimal_value(digits: Seq<char>) -> nat
    decreases digits.len(),
{
    if digits.len() == 0 {
        0
    } else {
        decimal_value(digits.drop_last()) * 10 + (digits.last() as nat - '0' as nat) as nat
    }
}

/// The digits of a text that may begin with a plus sign.
pub open spec fn unsigned_digits(text: Seq<char>) -> Seq<char> {
    if text.len() > 0 && text[0] == '+' {
        text.drop_first()
    } else {
        text
    }
}

/// The number that a text stands for, as `str::parse::<u32>` reads it: an
/// optional plus sign followed by one or more decimal digits and nothing
/// else, with a value of at most `u32::MAX`. Any other text stands for no
/// number.
pub open spec fn parsed_u32(text: Seq<char>) -> Option<u32> {
    let digits = unsigned_digits(text);
    if digits.len() > 0 && (forall|i: int| 0 <= i < digits.len() ==> is_digit(#[trigger] digits[i]))
        && decimal_value(digits) <= u32::MAX {
        Some(decimal_value(digits) as u32)
    } else {
        None
    }
}

/// The value of a command-line argument as a number: `None` where the
/// argument was not given or its text is no `u32`.
pub open spec fn argument_value(text: Option<&str>) -> Option<u32> {
    match text {
        Some(text) => parsed_u32(text@),
        None => None,
    }
}

/// A number does not get smaller when more digits follow.
proof fn lemma_decimal_value_grows(digits: Seq<char>, count: int)
    requires
        0 <= count <= digits.len(),
        forall|i: int| 0 <= i < digits.len() ==> is_digit(#[trigger] digits[i]),
    ensures
        decimal_value(digits.take(count)) <= decimal_value(digits),
    decreases digits.len() - count,
{
    if count < digits.len() {
        lemma_decimal_value_grows(digits, count + 1);
        assert(digits.take(count + 1).drop_last() == digits.take(count));
    } else {
        assert(digits.take(count) == digits);
    }
}

/// Reads a text as a `u32`, as `str::parse::<u32>` does.
pub fn parse_u32(text: &str) -> (number: Option<u32>)
    ensures
        number == parsed_u32(text@),
{
    broadcast use vstd::string::is_ascii_spec_bytes;

    let ghost digits = unsigned_digits(text@);
    if !text.is_ascii() {
        proof {
            let i = choose|i: int| 0 <= i < text@.len() && !('\0' <= #[trigger] text@[i] <= '\u{7f}');
            if text@[0] == '+' {
                assert(!is_digit(digits[i - 1]));
            } else {
                assert(!is_digit(digits[i]));
            }
        }
        return None;
    }
    let bytes: &[u8] = text.as_bytes();
    let length: usize = bytes.len();
    let start: usize = if length > 0 && bytes[0] == PLUS_SIGN {
        1
    } else {
        0
    };
    if start == length {
        return None;
    }
    let mut value: u64 = 0;
    let mut i: usize = start;
    while i < length
        invariant
            start <= i <= length,
            length == text@.len(),
            vstd::utf8::is_ascii_chars(text@),
            bytes@ == Seq::new(text@.len(), |k: int| text@[k] as u8),
            digits == unsigned_digits(text@),
            digits == text@.skip(start as int),
            forall|k: int| 0 <= k < i - start ==> is_digit(#[trigger] digits[k]),
            value == decimal_value(digits.take(i - start)),
            value <= u32::MAX,
        decreases length - i,
    {
        let byte: u8 = bytes[i];
        if byte < DIGIT_ZERO || byte > DIGIT_NINE {
            assert(!is_digit(digits[i - start]));
            return None;
        }
        assert(digits.take(i - start + 1).drop_last() == digits.take(i - start));
        value = value * 10 + (byte - DIGIT_ZERO) as u64;
        if value > u32::MAX as u64 {
            proof {
                if forall|k: int| 0 <= k < digits.len() ==> is_digit(#[trigger] digits[k]) {
                    lemma_decimal_value_grows(digits, i - start + 1);
                }
            }
            return None;
        }
        i = i + 1;
    }
    assert(digits.take(i - start) == digits);
    Some(value as u32)
}

/// Overrides the width and the height of the window with those given.
pub fn with_overrides(config: Config, width: Option<u32>, height: Option<u32>) -> (result:
    Config)
    ensures
        result == overridden(config, width, height),
{
    let mut result: Config = config;
    if let Some(new_width) = width {
        result.window_width = new_width;
    }
    if let Some(new_height) = height {
        result.window_height = new_height;
    }
    result
}

/// Overrides the width and the height of the window with the values of the
/// command-line arguments of those names. An argument that was not given,
/// or whose text is no `u32`, overrides nothing.
pub fn apply_session_overrides(
    config: Config,
    width: Option<&str>,
    height: Option<&str>,
) -> (result: Config)
    ensures
        result == overridden(config, argument_value(width), argument_value(height)),
{
    let new_width: Option<u32> = match width {
        Some(text) => parse_u32(text),
        None => None,
    };
    let new_height: Option<u32> = match height {
        Some(text) => parse_u32(text),
        None => None,
    };
    with_overrides(config, new_width, new_height)
}

} // verus!
