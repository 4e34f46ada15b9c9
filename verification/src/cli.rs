//! Command-line values and the window-handle argument parser.

use vstd::prelude::*;
use vstd::string::*;

use crate::text::{chars_of, digit_char, int_decimal, nat_decimal};

verus! {

/// Emit machine-readable JSON, and the subcommand to run.
pub struct Args {
    pub json: bool,
    pub command: Commands,
}

/// The subcommands of the tool.
pub enum Commands {
    /// Enumerate top level windows, optionally filtered by a title search string.
    EnumWindows { title: Option<String> },
    /// Enumerate displays.
    EnumDisplays,
    /// Capture a window.
    CaptureWindow(CaptureWindowArgs),
    /// Capture a display.
    CaptureDisplay(CaptureDisplayArgs),
}

/// Arguments of the window capture: exactly one of an exact title or a window handle,
/// and the output file.
pub struct CaptureWindowArgs {
    pub title: Option<String>,
    pub handle: Option<WindowHandle>,
    pub output: String,
}

/// Arguments of the display capture: exactly one of a monitor number (starting at 1)
/// or the primary monitor, and the output file.
pub struct CaptureDisplayArgs {
    pub monitor: Option<usize>,
    pub primary: bool,
    pub output: String,
}

/// A window handle, held as the integer value of the handle.
#[derive(Copy, Clone, Debug, PartialEq, Eq, Structural)]
pub struct WindowHandle(pub isize);

/// The reason a window handle argument was refused, as a message.
#[derive(Clone, Debug, PartialEq)]
pub struct WindowHandleParseError(pub String);

/// Why a text is not a decimal `isize`.
#[derive(Copy, Clone, Debug, PartialEq, Eq, Structural)]
pub enum IntErrorKind {
    Empty,
    InvalidDigit,
    PosOverflow,
    NegOverflow,
}

pub open spec fn is_decimal_digit(c: char) -> bool {
    48 <= (c as int) <= 57
}

pub open spec fn decimal_digit_value(c: char) -> int {
    (c as int) - 48
}

pub open spec fn in_isize_range(v: int) -> bool {
    isize::MIN <= v <= isize::MAX
}

/// Reads the digits `ds` left to right into the accumulator `acc`: each digit
/// multiplies the accumulator by ten and adds (or, for a negative number,
/// subtracts) its value. The first character that is not a digit, or the first
/// step that leaves the range of `isize`, decides the error.
pub open spec fn scan_decimal(ds: Seq<char>, acc: int, negative: bool) -> Result<int, IntErrorKind>
    decreases ds.len(),
{
    if ds.len() == 0 {
        Ok(acc)
    } else if !is_decimal_digit(ds[0]) {
        Err(IntErrorKind::InvalidDigit)
    } else {
        let next = if negative {
            acc * 10 - decimal_digit_value(ds[0])
        } else {
            acc * 10 + decimal_digit_value(ds[0])
        };
        if !in_isize_range(next) {
            Err(
                if negative {
                    IntErrorKind::NegOverflow
                } else {
                    IntErrorKind::PosOverflow
                },
            )
        } else {
            scan_decimal(ds.drop_first(), next, negative)
        }
    }
}

/// The value of a decimal `isize` text: an optional `+` or `-` sign followed by digits.
pub open spec fn parse_isize_spec(s: Seq<char>) -> Result<int, IntErrorKind> {
    if s.len() == 0 {
        Err(IntErrorKind::Empty)
    } else if (s[0] == '+' || s[0] == '-') && s.len() == 1 {
        Err(IntErrorKind::InvalidDigit)
    } else if s[0] == '+' {
        scan_decimal(s.drop_first(), 0, false)
    } else if s[0] == '-' {
        scan_decimal(s.drop_first(), 0, true)
    } else {
        scan_decimal(s, 0, false)
    }
}

/// The message that describes each kind of refusal.
pub open spec fn int_error_message(kind: IntErrorKind) -> Seq<char> {
    match kind {
        IntErrorKind::Empty => "cannot parse integer from empty string"@,
        IntErrorKind::InvalidDigit => "invalid digit found in string"@,
        IntErrorKind::PosOverflow => "number too large to fit in target type"@,
        IntErrorKind::NegOverflow => "number too small to fit in target type"@,
    }
}

impl IntErrorKind {
    /// The message that describes this kind of refusal.
    pub fn message(&self) -> (m: String)
        ensures
            m@ == int_error_message(*self),
    {
        match self {
            IntErrorKind::Empty => String::from_str("cannot parse integer from empty string"),
            IntErrorKind::InvalidDigit => String::from_str("invalid digit found in string"),
            IntErrorKind::PosOverflow => String::from_str("number too large to fit in target type"),
            IntErrorKind::NegOverflow => String::from_str("number too small to fit in target type"),
        }
    }
}

proof fn lemma_scan_step(cs: Seq<char>, i: int, acc: int, negative: bool)
    requires
        0 <= i < cs.len(),
    ensures
        cs.skip(i).drop_first() == cs.skip(i + 1),
        cs.skip(i)[0] == cs[i],
        cs.skip(i).len() > 0,
{
    assert(cs.skip(i).drop_first() =~= cs.skip(i + 1));
}

/// Parses a decimal `isize` (`str::parse::<isize>`).
pub fn parse_isize(s: &str) -> (r: Result<isize, IntErrorKind>)
    ensures
        match parse_isize_spec(s@) {
            Ok(v) => r matches Ok(x) && x as int == v,
            Err(k) => r == Err::<isize, IntErrorKind>(k),
        },
{
    let cs = chars_of(s);
    let n = cs.len();
    if n == 0 {
        return Err(IntErrorKind::Empty);
    }
    let first = cs[0];
    if (first == '+' || first == '-') && n == 1 {
        return Err(IntErrorKind::InvalidDigit);
    }
    let negative = first == '-';
    let start: usize = if first == '+' || first == '-' {
        1
    } else {
        0
    };
    proof {
        assert(cs@.skip(0) =~= cs@);
        assert(cs@.skip(1) =~= cs@.drop_first());
        assert(parse_isize_spec(s@) == scan_decimal(cs@.skip(start as int), 0, negative));
    }
    let mut acc: isize = 0;
    let mut i: usize = start;
    while i < n
        invariant
            n == cs@.len(),
            start <= i <= n,
            cs@ == s@,
            parse_isize_spec(s@) == scan_decimal(
                cs@.skip(i as int),
                acc as int,
                negative,
            ),
        decreases n - i,
    {
        proof {
            lemma_scan_step(cs@, i as int, acc as int, negative);
        }
        let c = cs[i];
        if !('0' <= c && c <= '9') {
            assert(!is_decimal_digit(cs@.skip(i as int)[0]));
            return Err(IntErrorKind::InvalidDigit);
        }
        assert(is_decimal_digit(cs@.skip(i as int)[0]));
        let d: i128 = (c as u32 - 48) as i128;
        assert(d == decimal_digit_value(cs@.skip(i as int)[0]));
        let next: i128 = if negative {
            (acc as i128) * 10 - d
        } else {
            (acc as i128) * 10 + d
        };
        if next < (isize::MIN as i128) || next > (isize::MAX as i128) {
            if negative {
                return Err(IntErrorKind::NegOverflow);
            } else {
                return Err(IntErrorKind::PosOverflow);
            }
        }
        acc = next as isize;
        i = i + 1;
    }
    assert(cs@.skip(n as int).len() == 0);
    Ok(acc)
}

proof fn lemma_digit_char_value(d: nat)
    requires
        d < 10,
    ensures
        is_decimal_digit(digit_char(d)),
        decimal_digit_value(digit_char(d)) == d,
{
    assert((digit_char(d) as int) == 48 + d);
}

proof fn lemma_nat_decimal_shape(n: nat)
    ensures
        nat_decimal(n).len() >= 1,
        is_decimal_digit(nat_decimal(n)[0]),
    decreases n,
{
    if n >= 10 {
        lemma_nat_decimal_shape(n / 10);
    } else {
        lemma_digit_char_value(n);
    }
}

proof fn lemma_scan_append(a: Seq<char>, b: Seq<char>, acc: int, negative: bool)
    ensures
        scan_decimal(a + b, acc, negative) == match scan_decimal(a, acc, negative) {
            Ok(x) => scan_decimal(b, x, negative),
            Err(e) => Err(e),
        },
    decreases a.len(),
{
    if a.len() == 0 {
        assert(a + b =~= b);
    } else {
        assert((a + b)[0] == a[0]);
        assert((a + b).drop_first() =~= a.drop_first() + b);
        let next = if negative {
            acc * 10 - decimal_digit_value(a[0])
        } else {
            acc * 10 + decimal_digit_value(a[0])
        };
        lemma_scan_append(a.drop_first(), b, next, negative);
    }
}

proof fn lemma_scan_nat_decimal(n: nat, negative: bool)
    requires
        negative ==> in_isize_range(-n),
        !negative ==> in_isize_range(n as int),
    ensures
        scan_decimal(nat_decimal(n), 0, negative) == Ok::<int, IntErrorKind>(
            if negative {
                -n
            } else {
                n as int
            },
        ),
    decreases n,
{
    if n < 10 {
        let ds = nat_decimal(n);
        lemma_digit_char_value(n);
        assert(ds =~= seq![digit_char(n)]);
        let v: int = if negative { -n } else { n as int };
        assert(scan_decimal(ds.drop_first(), v, negative) == Ok::<int, IntErrorKind>(v));
    } else {
        let q = n / 10;
        let r = n % 10;
        assert(q * 10 + r == n);
        lemma_scan_nat_decimal(q, negative);
        let last = seq![digit_char(r)];
        lemma_digit_char_value(r);
        assert(nat_decimal(n) =~= nat_decimal(q) + last);
        lemma_scan_append(nat_decimal(q), last, 0, negative);
        let v: int = if negative { -n } else { n as int };
        assert(scan_decimal(last.drop_first(), v, negative) == Ok::<int, IntErrorKind>(v));
    }
}

/// Parsing the decimal rendering of any `isize` gives that value back: a window
/// handle printed in decimal is read back as the same handle.
pub proof fn lemma_parse_isize_of_decimal(v: int)
    requires
        in_isize_range(v),
    ensures
        parse_isize_spec(int_decimal(v)) == Ok::<int, IntErrorKind>(v),
{
    if v < 0 {
        let m = (-v) as nat;
        lemma_nat_decimal_shape(m);
        lemma_scan_nat_decimal(m, true);
        let s = int_decimal(v);
        assert(s.drop_first() =~= nat_decimal(m));
        assert(s[0] == '-');
    } else {
        lemma_nat_decimal_shape(v as nat);
        lemma_scan_nat_decimal(v as nat, false);
    }
}

impl WindowHandle {
    /// Parses a window handle from its decimal value; a refused text gives the
    /// message of the refusal.
    pub fn parse(s: &str) -> (r: Result<WindowHandle, WindowHandleParseError>)
        ensures
            match parse_isize_spec(s@) {
                Ok(v) => r == Ok::<WindowHandle, WindowHandleParseError>(WindowHandle(v as isize)),
                Err(k) => r matches Err(e) && e.0@ == int_error_message(k),
            },
    {
        match parse_isize(s) {
            Ok(value) => Ok(WindowHandle(value)),
            Err(kind) => Err(WindowHandleParseError(kind.message())),
        }
    }
}

impl core::str::FromStr for WindowHandle {
    type Err = WindowHandleParseError;

    fn from_str(s: &str) -> (r: Result<Self, Self::Err>)
        ensures
            match parse_isize_spec(s@) {
                Ok(v) => r == Ok::<WindowHandle, WindowHandleParseError>(WindowHandle(v as isize)),
                Err(k) => r matches Err(e) && e.0@ == int_error_message(k),
            },
    {
        WindowHandle::parse(s)
    }
}

impl WindowHandleParseError {
    /// The message of the refusal (what the error displays as).
    pub fn to_string(&self) -> (m: String)
        ensures
            m@ == self.0@,
    {
        self.0.clone()
    }
}

} // verus!
