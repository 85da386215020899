//! Settings logic: the descriptions of the game's configurable settings and
//! the interpretation of their textual values. Reading the command line and
//! reporting bad values to the user happen outside the crate; the functions
//! here say exactly which strings are acceptable and what they mean.

use vstd::prelude::*;
use vstd::string::*;

verus! {

// Milliseconds of delay for the four predefined speeds.
pub const SPEED1: u64 = 150;

pub const SPEED2: u64 = 100;

pub const SPEED3: u64 = 50;

pub const SPEED4: u64 = 30;

/// Describes one setting; kept as data so that other front ends can reuse
/// the same descriptions.
pub struct Setting {
    pub name: String,
    pub help: String,
    /// One-letter name for the command line.
    pub short: char,
    /// Shown in the command-line help; empty when the setting takes no value.
    pub value_name: String,
}

/// The settings after interpretation, typed for where they are used.
pub struct LoadedSettings {
    pub win_size: (i32, i32),
    /// Milliseconds of delay between game updates; lower is faster.
    pub snake_wait: u64,
    pub min_fruits: usize,
    pub snake_len: u32,
    pub use_color: bool,
    pub benchmark: bool,
}

pub open spec fn is_digit(c: char) -> bool {
    48 <= c as u32 <= 57
}

pub open spec fn digit_val(c: char) -> int {
    c as u32 - 48
}

pub open spec fn all_digits(s: Seq<char>) -> bool {
    forall|i: int| 0 <= i < s.len() ==> is_digit(#[trigger] s[i])
}

/// The value of a string of decimal digits, most significant first.
pub open spec fn dec_val(s: Seq<char>) -> int
    decreases s.len(),
{
    if s.len() == 0 {
        0
    } else {
        dec_val(s.drop_last()) * 10 + digit_val(s.last())
    }
}

/// A non-empty, all-digit string whose value a `u64` can hold.
pub open spec fn parses_digits(s: Seq<char>) -> bool {
    s.len() > 0 && all_digits(s) && dec_val(s) <= u64::MAX
}

/// The digits of an unsigned numeral: one optional leading `+` is allowed.
pub open spec fn unsigned_body(s: Seq<char>) -> Seq<char> {
    if s.len() > 0 && s[0] == '+' {
        s.skip(1)
    } else {
        s
    }
}

pub open spec fn parses_u64(s: Seq<char>) -> bool {
    parses_digits(unsigned_body(s))
}

pub open spec fn u64_val(s: Seq<char>) -> int {
    dec_val(unsigned_body(s))
}

/// The digits of a signed numeral: one optional leading `+` or `-`.
pub open spec fn signed_body(s: Seq<char>) -> Seq<char> {
    if s.len() > 0 && (s[0] == '+' || s[0] == '-') {
        s.skip(1)
    } else {
        s
    }
}

pub open spec fn sign_negative(s: Seq<char>) -> bool {
    s.len() > 0 && s[0] == '-'
}

pub open spec fn parses_i32(s: Seq<char>) -> bool {
    signed_body(s).len() > 0 && all_digits(signed_body(s)) && (if sign_negative(s) {
        dec_val(signed_body(s)) <= 0x8000_0000
    } else {
        dec_val(signed_body(s)) <= 0x7fff_ffff
    })
}

pub open spec fn i32_val(s: Seq<char>) -> int {
    if sign_negative(s) {
        -dec_val(signed_body(s))
    } else {
        dec_val(signed_body(s))
    }
}

proof fn lemma_dec_val_step(s: Seq<char>, i: int)
    requires
        0 <= i < s.len(),
    ensures
        dec_val(s.take(i + 1)) == dec_val(s.take(i)) * 10 + digit_val(s[i]),
{
    assert(s.take(i + 1).drop_last() =~= s.take(i));
    assert(s.take(i + 1).last() == s[i]);
}

proof fn lemma_dec_val_take_nonneg(s: Seq<char>, i: int)
    requires
        all_digits(s),
        0 <= i <= s.len(),
    ensures
        dec_val(s.take(i)) >= 0,
    decreases i,
{
    if i > 0 {
        lemma_dec_val_take_nonneg(s, i - 1);
        lemma_dec_val_step(s, i - 1);
    }
}

proof fn lemma_dec_val_take_mono(s: Seq<char>, i: int, j: int)
    requires
        all_digits(s),
        0 <= i <= j <= s.len(),
    ensures
        dec_val(s.take(i)) <= dec_val(s.take(j)),
    decreases j - i,
{
    if i < j {
        lemma_dec_val_take_mono(s, i, j - 1);
        lemma_dec_val_take_nonneg(s, j - 1);
        lemma_dec_val_step(s, j - 1);
    }
}

/// Reads the decimal digits `s[from..to]` into a `u64`: `None` when the
/// range is empty, holds anything but a digit, or the value does not fit.
fn parse_digits_range(s: &str, from: usize, to: usize) -> (r: Option<u64>)
    requires
        from <= to <= s@.len(),
    ensures
        r is Some <==> parses_digits(s@.subrange(from as int, to as int)),
        r matches Some(v) ==> v == dec_val(s@.subrange(from as int, to as int)),
{
    if from == to {
        return None;
    }
    let ghost digits = s@.subrange(from as int, to as int);
    let mut acc: u64 = 0;
    let mut i = from;
    while i < to
        invariant
            from <= i <= to <= s@.len(),
            from < to,
            digits == s@.subrange(from as int, to as int),
            digits.len() == to - from,
            all_digits(digits.take(i - from)),
            acc == dec_val(digits.take(i - from)),
        decreases to - i,
    {
        let c = s.get_char(i);
        proof {
            assert(digits[i - from] == s@[i as int]);
        }
        let u = c as u32;
        if u < 48 || u > 57 {
            proof {
                assert(!is_digit(digits[i - from]));
            }
            return None;
        }
        let d = (u - 48) as u64;
        if acc > 1844674407370955161u64 || (acc == 1844674407370955161u64 && d > 5) {
            // Another digit would push the value past u64::MAX, and digits
            // only ever grow the value.
            proof {
                if all_digits(digits) {
                    lemma_dec_val_step(digits, i - from);
                    lemma_dec_val_take_mono(digits, i - from + 1, digits.len() as int);
                    assert(digits.take(digits.len() as int) =~= digits);
                }
            }
            return None;
        }
        proof {
            lemma_dec_val_step(digits, i - from);
            assert forall|j: int| 0 <= j < (i - from + 1) implies is_digit(
                #[trigger] digits.take(i - from + 1)[j],
            ) by {
                assert(digits.take(i - from + 1)[j] == digits[j]);
                if j < i - from {
                    assert(digits.take(i - from)[j] == digits[j]);
                }
            }
        }
        acc = acc * 10 + d;
        i += 1;
    }
    proof {
        assert(digits.take(to - from) =~= digits);
    }
    Some(acc)
}

/// Reads `s[from..to]` as an unsigned numeral with an optional leading `+`.
fn parse_u64_range(s: &str, from: usize, to: usize) -> (r: Option<u64>)
    requires
        from <= to <= s@.len(),
    ensures
        r is Some <==> parses_u64(s@.subrange(from as int, to as int)),
        r matches Some(v) ==> v == u64_val(s@.subrange(from as int, to as int)),
{
    let ghost sub = s@.subrange(from as int, to as int);
    if from < to && s.get_char(from) == '+' {
        proof {
            assert(sub[0] == s@[from as int]);
            assert(sub.skip(1) =~= s@.subrange(from + 1, to as int));
        }
        parse_digits_range(s, from + 1, to)
    } else {
        proof {
            assert(unsigned_body(sub) == sub);
        }
        parse_digits_range(s, from, to)
    }
}

/// Reads `s[from..to]` as a signed numeral with an optional leading `+` or
/// `-`, rejecting values outside `i32`.
fn parse_i32_range(s: &str, from: usize, to: usize) -> (r: Option<i32>)
    requires
        from <= to <= s@.len(),
    ensures
        r is Some <==> parses_i32(s@.subrange(from as int, to as int)),
        r matches Some(v) ==> v as int == i32_val(s@.subrange(from as int, to as int)),
{
    let ghost sub = s@.subrange(from as int, to as int);
    let mut start = from;
    let mut neg = false;
    if from < to {
        let c = s.get_char(from);
        proof {
            assert(sub[0] == s@[from as int]);
        }
        if c == '-' {
            start = from + 1;
            neg = true;
        } else if c == '+' {
            start = from + 1;
        }
    }
    proof {
        assert(signed_body(sub) =~= s@.subrange(start as int, to as int));
        assert(neg == sign_negative(sub));
    }
    match parse_digits_range(s, start, to) {
        None => None,
        Some(m) => {
            if neg {
                if m <= 2147483648u64 {
                    Some((-(m as i64)) as i32)
                } else {
                    None
                }
            } else {
                if m <= 2147483647u64 {
                    Some(m as i32)
                } else {
                    None
                }
            }
        },
    }
}

#[derive(PartialEq, Eq, Structural, Clone, Copy, Debug)]
pub enum WindowSizeError {
    /// No `x` between the two numbers.
    MissingSeparator,
    /// The part before the `x` is not a number an `i32` can hold.
    InvalidX,
    /// The part after the `x` is not a number an `i32` can hold.
    InvalidY,
    /// Both parts are numbers, but one of them is zero or negative.
    NotPositive,
}

#[derive(PartialEq, Eq, Structural, Clone, Copy, Debug)]
pub enum SpeedError {
    /// No trailing `ms`, and the value is none of the presets `1` to `4`.
    UnknownPreset,
    /// A trailing `ms`, but what precedes it is not a number a `u64` can
    /// hold.
    InvalidNumber,
}

/// `i` is the position of the first `x` in `s`.
pub open spec fn is_first_sep(s: Seq<char>, i: int) -> bool {
    0 <= i < s.len() && s[i] == 'x' && (forall|j: int| 0 <= j < i ==> s[j] != 'x')
}

/// What a window-size string of the shape `<width>x<height>` means: both
/// parts must be positive `i32` numerals; everything from the second `x`
/// on, if any, invalidates the height.
pub open spec fn window_size_spec(s: Seq<char>) -> Result<(i32, i32), WindowSizeError> {
    if !(exists|i: int| is_first_sep(s, i)) {
        Err(WindowSizeError::MissingSeparator)
    } else {
        let i = choose|i: int| is_first_sep(s, i);
        let xs = s.take(i);
        let ys = s.skip(i + 1);
        if !parses_i32(xs) {
            Err(WindowSizeError::InvalidX)
        } else if i32_val(xs) <= 0 {
            Err(WindowSizeError::NotPositive)
        } else if !parses_i32(ys) {
            Err(WindowSizeError::InvalidY)
        } else if i32_val(ys) <= 0 {
            Err(WindowSizeError::NotPositive)
        } else {
            Ok((i32_val(xs) as i32, i32_val(ys) as i32))
        }
    }
}

proof fn lemma_first_sep_unique(s: Seq<char>, i: int, j: int)
    requires
        is_first_sep(s, i),
        is_first_sep(s, j),
    ensures
        i == j,
{
    if i < j {
        assert(s[i] != 'x');
    }
    if j < i {
        assert(s[j] != 'x');
    }
}

/// The position of the first `x` in `s`, if there is one.
fn find_sep(s: &str) -> (r: Option<usize>)
    ensures
        r matches Some(i) ==> is_first_sep(s@, i as int),
        r is None ==> !(exists|i: int| is_first_sep(s@, i)),
{
    let n = s.unicode_len();
    let mut i: usize = 0;
    while i < n
        invariant
            i <= n,
            n == s@.len(),
            forall|j: int| 0 <= j < i ==> s@[j] != 'x',
        decreases n - i,
    {
        if s.get_char(i) == 'x' {
            return Some(i);
        }
        i += 1;
    }
    proof {
        assert forall|k: int| !is_first_sep(s@, k) by {
            if 0 <= k < s@.len() {
                assert(s@[k] != 'x');
            }
        }
    }
    None
}

/// Interprets a window-size string such as `40x20`.
pub fn read_window_size(input: &str) -> (r: Result<(i32, i32), WindowSizeError>)
    ensures
        r == window_size_spec(input@),
{
    match find_sep(input) {
        None => Err(WindowSizeError::MissingSeparator),
        Some(sep) => {
            proof {
                let picked = choose|i: int| is_first_sep(input@, i);
                lemma_first_sep_unique(input@, picked, sep as int);
                assert(input@.subrange(0, sep as int) =~= input@.take(sep as int));
                assert(input@.subrange(sep + 1, input@.len() as int) =~= input@.skip(sep + 1));
            }
            let n = input.unicode_len();
            match parse_i32_range(input, 0, sep) {
                None => Err(WindowSizeError::InvalidX),
                Some(x) => {
                    if x <= 0 {
                        Err(WindowSizeError::NotPositive)
                    } else {
                        match parse_i32_range(input, sep + 1, n) {
                            None => Err(WindowSizeError::InvalidY),
                            Some(y) => {
                                if y <= 0 {
                                    Err(WindowSizeError::NotPositive)
                                } else {
                                    Ok((x, y))
                                }
                            },
                        }
                    }
                },
            }
        },
    }
}

/// The string ends with the two letters `ms`.
pub open spec fn ends_ms(s: Seq<char>) -> bool {
    s.len() >= 2 && s[s.len() - 2] == 'm' && s[s.len() - 1] == 's'
}

/// The string with every trailing repetition of `ms` removed.
pub open spec fn strip_ms(s: Seq<char>) -> Seq<char>
    decreases s.len(),
{
    if ends_ms(s) {
        strip_ms(s.take(s.len() - 2))
    } else {
        s
    }
}

/// What a speed string means: without a trailing `ms` it must be one of the
/// four presets; with one, the number before it is the delay in
/// milliseconds.
pub open spec fn speed_spec(s: Seq<char>) -> Result<u64, SpeedError> {
    if !ends_ms(s) {
        if s.len() == 1 && s[0] == '1' {
            Ok(SPEED1)
        } else if s.len() == 1 && s[0] == '2' {
            Ok(SPEED2)
        } else if s.len() == 1 && s[0] == '3' {
            Ok(SPEED3)
        } else if s.len() == 1 && s[0] == '4' {
            Ok(SPEED4)
        } else {
            Err(SpeedError::UnknownPreset)
        }
    } else {
        if parses_u64(strip_ms(s)) {
            Ok(u64_val(strip_ms(s)) as u64)
        } else {
            Err(SpeedError::InvalidNumber)
        }
    }
}

/// Interprets a speed string: a preset `1` to `4`, or a number of
/// milliseconds with a trailing `ms`, as in `75ms`.
pub fn read_speed(input: &str) -> (r: Result<u64, SpeedError>)
    ensures
        r == speed_spec(input@),
{
    let n = input.unicode_len();
    let mut end: usize = n;
    proof {
        assert(input@.take(n as int) =~= input@);
    }
    loop
        invariant_except_break
            end <= n,
            n == input@.len(),
            strip_ms(input@) == strip_ms(input@.take(end as int)),
        ensures
            end <= n,
            n == input@.len(),
            strip_ms(input@) == input@.take(end as int),
            !ends_ms(input@.take(end as int)),
        decreases end,
    {
        if end < 2 {
            proof {
                assert(!ends_ms(input@.take(end as int)));
            }
            break;
        }
        let cm = input.get_char(end - 2);
        let cs = input.get_char(end - 1);
        if !(cm == 'm' && cs == 's') {
            proof {
                assert(input@.take(end as int)[end - 2] == input@[end - 2]);
                assert(input@.take(end as int)[end - 1] == input@[end - 1]);
            }
            break;
        }
        proof {
            assert(input@.take(end as int)[end - 2] == input@[end - 2]);
            assert(input@.take(end as int)[end - 1] == input@[end - 1]);
            assert(ends_ms(input@.take(end as int)));
            assert(input@.take(end as int).take(end - 2) =~= input@.take(end - 2));
        }
        end -= 2;
    }
    if end == n {
        proof {
            assert(input@.take(n as int) =~= input@);
        }
        if n == 1 {
            let c = input.get_char(0);
            if c == '1' {
                Ok(SPEED1)
            } else if c == '2' {
                Ok(SPEED2)
            } else if c == '3' {
                Ok(SPEED3)
            } else if c == '4' {
                Ok(SPEED4)
            } else {
                Err(SpeedError::UnknownPreset)
            }
        } else {
            Err(SpeedError::UnknownPreset)
        }
    } else {
        proof {
            // Something was stripped, so the string does end with `ms`.
            if !ends_ms(input@) {
                assert(strip_ms(input@) == input@);
                assert(input@.take(end as int).len() < input@.len());
            }
            assert(input@.subrange(0, end as int) =~= input@.take(end as int));
        }
        match parse_u64_range(input, 0, end) {
            Some(v) => Ok(v),
            None => Err(SpeedError::InvalidNumber),
        }
    }
}

/// What a fruit-count string means: an unsigned numeral a `usize` can hold.
pub open spec fn fruits_spec(s: Seq<char>) -> Option<usize> {
    if parses_u64(s) && u64_val(s) <= usize::MAX {
        Some(u64_val(s) as usize)
    } else {
        None
    }
}

/// Interprets the minimum-fruit-count string.
pub fn read_fruits(input: &str) -> (r: Option<usize>)
    ensures
        r == fruits_spec(input@),
{
    let n = input.unicode_len();
    proof {
        assert(input@.subrange(0, n as int) =~= input@);
    }
    match parse_u64_range(input, 0, n) {
        Some(v) => {
            if v <= usize::MAX as u64 {
                Some(v as usize)
            } else {
                None
            }
        },
        None => None,
    }
}

/// What an initial-length string means: an unsigned numeral a `u32` can
/// hold.
pub open spec fn length_spec(s: Seq<char>) -> Option<u32> {
    if parses_u64(s) && u64_val(s) <= u32::MAX {
        Some(u64_val(s) as u32)
    } else {
        None
    }
}

/// Interprets the initial-snake-length string.
pub fn read_length(input: &str) -> (r: Option<u32>)
    ensures
        r == length_spec(input@),
{
    let n = input.unicode_len();
    proof {
        assert(input@.subrange(0, n as int) =~= input@);
    }
    match parse_u64_range(input, 0, n) {
        Some(v) => {
            if v <= u32::MAX as u64 {
                Some(v as u32)
            } else {
                None
            }
        },
        None => None,
    }
}

/// The descriptions of all six settings, in the order they are presented.
pub fn create() -> (settings: Vec<Setting>)
    ensures
        settings@.len() == 6,
        settings@[0].name@ == "window-size"@,
        settings@[0].short == 'w',
        settings@[0].value_name@ == "XxY"@,
        settings@[1].name@ == "speed"@,
        settings@[1].short == 's',
        settings@[1].value_name@ == "s"@,
        settings@[2].name@ == "fruits"@,
        settings@[2].short == 'f',
        settings@[2].value_name@ == "fruits"@,
        settings@[3].name@ == "length"@,
        settings@[3].short == 'l',
        settings@[3].value_name@ == "length"@,
        settings@[4].name@ == "no-color"@,
        settings@[4].short == 'c',
        settings@[4].value_name@ == ""@,
        settings@[5].name@ == "benchmark"@,
        settings@[5].short == 'b',
        settings@[5].value_name@ == ""@,
{
    let mut settings: Vec<Setting> = Vec::new();
    settings.push(
        Setting {
            name: "window-size".to_owned(),
            help: "Size of the window where X and Y are positive integers.".to_owned(),
            short: 'w',
            value_name: "XxY".to_owned(),
        },
    );
    settings.push(
        Setting {
            name: "speed".to_owned(),
            help:
                "Speed of the snake. Can be a number between <1,4> or a number of milliseconds between game updates (appended with \"ms\").".to_owned(),
            short: 's',
            value_name: "s".to_owned(),
        },
    );
    settings.push(
        Setting {
            name: "fruits".to_owned(),
            help: "Number of fruits to exist at one time. Must be a positive integer.".to_owned(),
            short: 'f',
            value_name: "fruits".to_owned(),
        },
    );
    settings.push(
        Setting {
            name: "length".to_owned(),
            help: "Initial length of the snake. Must be a positive integer.".to_owned(),
            short: 'l',
            value_name: "length".to_owned(),
        },
    );
    settings.push(
        Setting {
            name: "no-color".to_owned(),
            help: "Don't use colors.".to_owned(),
            short: 'c',
            value_name: "".to_owned(),
        },
    );
    settings.push(
        Setting {
            name: "benchmark".to_owned(),
            help: "Display measured vs expected update time while playing".to_owned(),
            short: 'b',
            value_name: "".to_owned(),
        },
    );
    settings
}

} // verus!
