//! What the command line configures: the program to run and the palette.

use vstd::prelude::*;

verus! {

/// Foreground colour used when none is given: white.
pub const DEFAULT_FOREGROUND: u32 = 0xFF_FF_FF;

/// Background colour used when none is given: black.
pub const DEFAULT_BACKGROUND: u32 = 0x00_00_00;

/// The arguments of one run.
pub struct Args {
    /// Path of the program image.
    pub program: String,
    /// The palette of the screen.
    pub colors: Colors,
}

/// The two colours of the screen, each an RGB value.
#[derive(Debug, Clone, Copy, PartialEq, Eq, Structural)]
pub struct Colors {
    /// Colour of a lit pixel.
    pub foreground: u32,
    /// Colour of an unlit pixel.
    pub background: u32,
}

impl Args {
    /// The arguments for `program`, with white for a foreground that was not
    /// given and black for a background that was not given.
    pub fn new(program: String, foreground: Option<u32>, background: Option<u32>) -> (args: Args)
        ensures
            args.program == program,
            args.colors.foreground == match foreground {
                Some(color) => color,
                None => DEFAULT_FOREGROUND,
            },
            args.colors.background == match background {
                Some(color) => color,
                None => DEFAULT_BACKGROUND,
            },
    {
        Args {
            program,
            colors: Colors {
                foreground: match foreground {
                    Some(color) => color,
                    None => DEFAULT_FOREGROUND,
                },
                background: match background {
                    Some(color) => color,
                    None => DEFAULT_BACKGROUND,
                },
            },
        }
    }
}

/// The value of a hexadecimal digit, in either case; `None` for any other
/// character.
pub open spec fn digit_value(c: char) -> Option<u32> {
    if '0' <= c <= '9' {
        Some((c as u32 - '0' as u32) as u32)
    } else if 'a' <= c <= 'f' {
        Some((c as u32 - 'a' as u32 + 10) as u32)
    } else if 'A' <= c <= 'F' {
        Some((c as u32 - 'A' as u32 + 10) as u32)
    } else {
        None
    }
}

/// The text without the `0x` that it starts with, however often it is
/// repeated.
pub open spec fn without_prefix(text: Seq<char>) -> Seq<char>
    decreases text.len(),
{
    if text.len() >= 2 && text[0] == '0' && text[1] == 'x' {
        without_prefix(text.skip(2))
    } else {
        text
    }
}

/// The text without the `+` that it may start with.
pub open spec fn without_sign(text: Seq<char>) -> Seq<char> {
    if text.len() >= 1 && text[0] == '+' {
        text.skip(1)
    } else {
        text
    }
}

/// Every character is a hexadecimal digit.
pub open spec fn all_hex(digits: Seq<char>) -> bool {
    forall|i: int| 0 <= i < digits.len() ==> digit_value(#[trigger] digits[i]) is Some
}

/// The number that hexadecimal digits write, the first being the highest.
pub open spec fn hex_value(digits: Seq<char>) -> nat
    decreases digits.len(),
{
    if digits.len() == 0 {
        0
    } else {
        hex_value(digits.drop_last()) * 16 + match digit_value(digits.last()) {
            Some(value) => value as nat,
            None => 0,
        }
    }
}

/// The colour that `text` writes: after any `0x` and an optional `+`, one
/// or more hexadecimal digits whose number fits in 32 bits.
pub open spec fn color_of(text: Seq<char>) -> Option<u32> {
    let digits = without_sign(without_prefix(text));
    if digits.len() >= 1 && all_hex(digits) && hex_value(digits) <= u32::MAX {
        Some(hex_value(digits) as u32)
    } else {
        None
    }
}

/// Leading digits write no more than all of them.
proof fn lemma_hex_value_grows(digits: Seq<char>, k: int)
    requires
        0 <= k <= digits.len(),
    ensures
        hex_value(digits.take(k)) <= hex_value(digits),
    decreases digits.len(),
{
    if k == digits.len() {
        assert(digits.take(k) == digits);
    } else {
        lemma_hex_value_grows(digits.drop_last(), k);
        assert(digits.drop_last().take(k) == digits.take(k));
    }
}

/// The value of the hexadecimal digit `c`, if it is one.
fn hex_digit(c: char) -> (r: Option<u32>)
    ensures
        r == digit_value(c),
{
    if '0' <= c && c <= '9' {
        Some(c as u32 - '0' as u32)
    } else if 'a' <= c && c <= 'f' {
        Some(c as u32 - 'a' as u32 + 10)
    } else if 'A' <= c && c <= 'F' {
        Some(c as u32 - 'A' as u32 + 10)
    } else {
        None
    }
}

/// Reads a colour written in hexadecimal, with or without `0x` before it.
///
/// Any text that `color_of` does not read is refused.
pub fn parse_color(s: &str) -> (r: Result<u32, &'static str>)
    ensures
        match color_of(s@) {
            Some(color) => r == Ok::<u32, &'static str>(color),
            None => r matches Err(msg) && msg@ == "failed to parse color"@,
        },
{
    let n = s.unicode_len();
    let mut start: usize = 0;
    assert(s@.skip(0) == s@);
    while n - start >= 2
        invariant
            n == s@.len(),
            start <= n,
            without_prefix(s@) == without_prefix(s@.skip(start as int)),
        ensures
            start <= n,
            without_prefix(s@) == s@.skip(start as int),
        decreases n - start,
    {
        let ghost rest = s@.skip(start as int);
        assert(rest[0] == s@[start as int] && rest[1] == s@[start + 1]);
        if s.get_char(start) != '0' {
            break ;
        }
        if s.get_char(start + 1) != 'x' {
            break ;
        }
        assert(rest.skip(2) == s@.skip(start + 2));
        start += 2;
    }
    let ghost unprefixed = s@.skip(start as int);
    if start < n {
        assert(unprefixed[0] == s@[start as int]);
        if s.get_char(start) == '+' {
            assert(unprefixed.skip(1) == s@.skip(start + 1));
            start += 1;
        }
    }
    let ghost digits = s@.skip(start as int);
    assert(digits == without_sign(without_prefix(s@)));
    if start >= n {
        return Err("failed to parse color");
    }
    let mut value: u32 = 0;
    let mut i: usize = start;
    assert(digits.take(0) == Seq::<char>::empty());
    while i < n
        invariant
            n == s@.len(),
            start <= i <= n,
            digits == s@.skip(start as int),
            color_of(s@) == (if digits.len() >= 1 && all_hex(digits) && hex_value(digits)
                <= u32::MAX {
                Some(hex_value(digits) as u32)
            } else {
                None
            }),
            all_hex(digits.take(i - start)),
            value == hex_value(digits.take(i - start)),
        decreases n - i,
    {
        let c = s.get_char(i);
        let ghost m = i - start;
        assert(digits[m] == c);
        assert(digits.take(m + 1).drop_last() == digits.take(m));
        assert(digits.take(m + 1).last() == c);
        let digit = match hex_digit(c) {
            Some(digit) => digit,
            None => {
                return Err("failed to parse color");
            },
        };
        if value > (u32::MAX - digit) / 16 {
            proof {
                if all_hex(digits) {
                    lemma_hex_value_grows(digits, m + 1);
                }
            }
            return Err("failed to parse color");
        }
        value = value * 16 + digit;
        i += 1;
    }
    assert(digits.take(n - start) == digits);
    Ok(value)
}

} // verus!
